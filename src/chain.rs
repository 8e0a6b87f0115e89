//! The capability set that each chain supplies, and the chain-agnostic
//! value types that events carry.
use vstd::prelude::*;
use crate::codec::{
    after_tag, embeds_untagged, lemma_after_tag, lemma_rest_after_tag, rest_from, token_at, Codec, Tag, Token,
};

verus! {

/// The types a chain brings to the dispatch layer.
pub trait ChainExt {
    /// Chain-native height or slot.
    type Height: Codec + Clone + PartialEq + Eq + PartialOrd + Ord + std::fmt::Debug;
    /// Chain-native client identifier.
    type ClientId: Codec + Clone + PartialEq + Eq + std::fmt::Debug;
    /// Chain-native client kind.
    type ClientType: Codec + Clone + PartialEq + Eq + std::fmt::Debug;
    /// Payload private to the chain; only routed, never inspected.
    type Data: Codec + Clone + PartialEq + Eq + std::fmt::Debug;

    /// The payload's encoding can be embedded without a tag of its own.
    proof fn lemma_specific_untagged(d: Self::Data)
        ensures
            embeds_untagged(d.spec_encode()),
    ;
}

/// A 32-byte hash, such as a transaction hash.
#[derive(Clone, PartialEq, Eq, Debug)]
pub struct H256 {
    pub bytes: [u8; 32],
}

/// The kind of light client that produced an event.
#[derive(Clone, PartialEq, Eq, Debug)]
pub struct ClientType {
    pub name: String,
}

/// A decoded IBC event, generic over the chain's identifier and client-kind
/// types, with a string for the counterparty-facing part.
#[derive(Clone, PartialEq, Eq, Debug)]
pub enum IbcEvent<ClientId, ClientKind, Counterparty> {
    CreateClient { client_id: ClientId, client_type: ClientKind },
    UpdateClient { client_id: ClientId, client_type: ClientKind },
    ConnectionOpenInit { connection_id: String, client_id: ClientId, counterparty_client_id: Counterparty },
}


impl Codec for H256 {
    open spec fn spec_encode(self) -> Seq<Token> {
        seq![Token::Hash(self.bytes)]
    }

    open spec fn spec_parse(ts: Seq<Token>) -> Option<(H256, nat)> {
        match token_at(ts, 0) {
            Some(Token::Hash(b)) => Some((H256 { bytes: b }, 1)),
            _ => None,
        }
    }

    proof fn lemma_parse_encode(self, rest: Seq<Token>) {
        assert((self.spec_encode() + rest)[0] == Token::Hash(self.bytes));
    }

    proof fn lemma_parse_bound(ts: Seq<Token>) {
    }

    fn encode(&self, out: &mut Vec<Token>) {
        out.push(Token::Hash(self.bytes));
    }

    fn parse(ts: &Vec<Token>, pos: usize) -> (r: Option<(H256, usize)>) {
        if pos < ts.len() {
            assert(rest_from(ts@, pos as int)[0] == ts@[pos as int]);
            match &ts[pos] {
                Token::Hash(b) => Some((H256 { bytes: *b }, pos + 1)),
                _ => None,
            }
        } else {
            None
        }
    }
}

impl Codec for ClientType {
    open spec fn spec_encode(self) -> Seq<Token> {
        self.name.spec_encode()
    }

    open spec fn spec_parse(ts: Seq<Token>) -> Option<(ClientType, nat)> {
        match String::spec_parse(ts) {
            Some((name, n)) => Some((ClientType { name }, n)),
            None => None,
        }
    }

    proof fn lemma_parse_encode(self, rest: Seq<Token>) {
        self.name.lemma_parse_encode(rest);
    }

    proof fn lemma_parse_bound(ts: Seq<Token>) {
    }

    fn encode(&self, out: &mut Vec<Token>) {
        self.name.encode(out);
    }

    fn parse(ts: &Vec<Token>, pos: usize) -> (r: Option<(ClientType, usize)>) {
        match String::parse(ts, pos) {
            Some((name, p)) => Some((ClientType { name }, p)),
            None => None,
        }
    }
}

impl<I: Codec, K: Codec, P: Codec> Codec for IbcEvent<I, K, P> {
    open spec fn spec_encode(self) -> Seq<Token> {
        match self {
            IbcEvent::CreateClient { client_id, client_type } =>
                seq![Token::Tag(Tag::CreateClient)] + (client_id, client_type).spec_encode(),
            IbcEvent::UpdateClient { client_id, client_type } =>
                seq![Token::Tag(Tag::UpdateClient)] + (client_id, client_type).spec_encode(),
            IbcEvent::ConnectionOpenInit { connection_id, client_id, counterparty_client_id } =>
                seq![Token::Tag(Tag::ConnectionOpenInit)] + (connection_id, (client_id, counterparty_client_id)).spec_encode(),
        }
    }

    open spec fn spec_parse(ts: Seq<Token>) -> Option<(IbcEvent<I, K, P>, nat)> {
        match token_at(ts, 0) {
            Some(Token::Tag(Tag::CreateClient)) => match <(I, K)>::spec_parse(after_tag(ts)) {
                Some(((client_id, client_type), n)) => Some((IbcEvent::CreateClient { client_id, client_type }, n + 1)),
                None => None,
            },
            Some(Token::Tag(Tag::UpdateClient)) => match <(I, K)>::spec_parse(after_tag(ts)) {
                Some(((client_id, client_type), n)) => Some((IbcEvent::UpdateClient { client_id, client_type }, n + 1)),
                None => None,
            },
            Some(Token::Tag(Tag::ConnectionOpenInit)) => match <(String, (I, P))>::spec_parse(after_tag(ts)) {
                Some(((connection_id, (client_id, counterparty_client_id)), n)) =>
                    Some((IbcEvent::ConnectionOpenInit { connection_id, client_id, counterparty_client_id }, n + 1)),
                None => None,
            },
            _ => None,
        }
    }

    proof fn lemma_parse_encode(self, rest: Seq<Token>) {
        match self {
            IbcEvent::CreateClient { client_id, client_type } => {
                let f = (client_id, client_type);
                lemma_after_tag(Tag::CreateClient, f.spec_encode(), rest);
                f.lemma_parse_encode(rest);
            },
            IbcEvent::UpdateClient { client_id, client_type } => {
                let f = (client_id, client_type);
                lemma_after_tag(Tag::UpdateClient, f.spec_encode(), rest);
                f.lemma_parse_encode(rest);
            },
            IbcEvent::ConnectionOpenInit { connection_id, client_id, counterparty_client_id } => {
                let f = (connection_id, (client_id, counterparty_client_id));
                lemma_after_tag(Tag::ConnectionOpenInit, f.spec_encode(), rest);
                f.lemma_parse_encode(rest);
            },
        }
    }

    proof fn lemma_parse_bound(ts: Seq<Token>) {
        <(I, K)>::lemma_parse_bound(after_tag(ts));
        <(String, (I, P))>::lemma_parse_bound(after_tag(ts));
    }

    fn encode(&self, out: &mut Vec<Token>) {
        match self {
            IbcEvent::CreateClient { client_id, client_type } => {
                out.push(Token::Tag(Tag::CreateClient));
                client_id.encode(out);
                client_type.encode(out);
            },
            IbcEvent::UpdateClient { client_id, client_type } => {
                out.push(Token::Tag(Tag::UpdateClient));
                client_id.encode(out);
                client_type.encode(out);
            },
            IbcEvent::ConnectionOpenInit { connection_id, client_id, counterparty_client_id } => {
                out.push(Token::Tag(Tag::ConnectionOpenInit));
                connection_id.encode(out);
                client_id.encode(out);
                counterparty_client_id.encode(out);
            },
        }
        assert(out@ =~= old(out)@ + self.spec_encode());
    }

    fn parse(ts: &Vec<Token>, pos: usize) -> (r: Option<(IbcEvent<I, K, P>, usize)>) {
        if pos >= ts.len() {
            return None;
        }
        proof {
            lemma_rest_after_tag(ts@, pos as int);
        }
        match &ts[pos] {
            Token::Tag(Tag::CreateClient) => match <(I, K)>::parse(ts, pos + 1) {
                Some(((client_id, client_type), p)) => Some((IbcEvent::CreateClient { client_id, client_type }, p)),
                None => None,
            },
            Token::Tag(Tag::UpdateClient) => match <(I, K)>::parse(ts, pos + 1) {
                Some(((client_id, client_type), p)) => Some((IbcEvent::UpdateClient { client_id, client_type }, p)),
                None => None,
            },
            Token::Tag(Tag::ConnectionOpenInit) => match <(String, (I, P))>::parse(ts, pos + 1) {
                Some(((connection_id, (client_id, counterparty_client_id)), p)) =>
                    Some((IbcEvent::ConnectionOpenInit { connection_id, client_id, counterparty_client_id }, p)),
                None => None,
            },
            _ => None,
        }
    }
}

} // verus!
