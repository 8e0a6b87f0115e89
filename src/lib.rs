//! Cross-chain event dispatch: per-chain data unified into one tagged union,
//! erased behind a chain identifier, and handed to a pass-through handler.

pub mod codec;
pub mod chain;
pub mod data;
pub mod any;
