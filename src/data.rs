//! One unit of chain-originated information.
use vstd::prelude::*;
use crate::chain::{ChainExt, ClientType, H256, IbcEvent};
use crate::codec::{
    after_tag, lemma_after_tag, lemma_decode_encode, lemma_rest_after_tag, spec_decode, token_at, Codec, Tag,
    Token,
};

verus! {

/// A provable event observed on chain `C`.
#[derive(Clone, PartialEq, Eq, Debug)]
pub struct ChainEvent<C: ChainExt> {
    pub client_type: ClientType,
    pub tx_hash: H256,
    /// The height whose state root proves the event, not necessarily the
    /// height at which it was included.
    pub height: C::Height,
    pub event: IbcEvent<C::ClientId, C::ClientType, String>,
}

/// Chain `C` has advanced to at least this height.
#[derive(Clone, PartialEq, Eq, Debug)]
pub struct LatestHeight<C: ChainExt>(pub C::Height);

/// The chain's own payload, carried as it is.
#[derive(Clone, PartialEq, Eq, Debug)]
pub struct ChainSpecificData<C: ChainExt>(pub C::Data);

/// Everything a chain can hand to the dispatch layer.
#[derive(Clone, PartialEq, Eq, Debug)]
pub enum Data<C: ChainExt> {
    IbcEvent(ChainEvent<C>),
    LatestHeight(LatestHeight<C>),
    ChainSpecific(ChainSpecificData<C>),
}

} // verus!

verus! {

impl<C: ChainExt> Codec for ChainEvent<C> {
    open spec fn spec_encode(self) -> Seq<Token> {
        (self.client_type, (self.tx_hash, (self.height, self.event))).spec_encode()
    }

    open spec fn spec_parse(ts: Seq<Token>) -> Option<(ChainEvent<C>, nat)> {
        match <(ClientType, (H256, (C::Height, IbcEvent<C::ClientId, C::ClientType, String>)))>::spec_parse(ts) {
            Some(((client_type, (tx_hash, (height, event))), n)) =>
                Some((ChainEvent { client_type, tx_hash, height, event }, n)),
            None => None,
        }
    }

    proof fn lemma_parse_encode(self, rest: Seq<Token>) {
        (self.client_type, (self.tx_hash, (self.height, self.event))).lemma_parse_encode(rest);
    }

    proof fn lemma_parse_bound(ts: Seq<Token>) {
        <(ClientType, (H256, (C::Height, IbcEvent<C::ClientId, C::ClientType, String>)))>::lemma_parse_bound(ts);
    }

    fn encode(&self, out: &mut Vec<Token>) {
        self.client_type.encode(out);
        self.tx_hash.encode(out);
        self.height.encode(out);
        self.event.encode(out);
        assert(out@ =~= old(out)@ + self.spec_encode());
    }

    fn parse(ts: &Vec<Token>, pos: usize) -> (r: Option<(ChainEvent<C>, usize)>) {
        match <(ClientType, (H256, (C::Height, IbcEvent<C::ClientId, C::ClientType, String>)))>::parse(ts, pos) {
            Some(((client_type, (tx_hash, (height, event))), p)) =>
                Some((ChainEvent { client_type, tx_hash, height, event }, p)),
            None => None,
        }
    }
}

impl<C: ChainExt> Codec for LatestHeight<C> {
    open spec fn spec_encode(self) -> Seq<Token> {
        self.0.spec_encode()
    }

    open spec fn spec_parse(ts: Seq<Token>) -> Option<(LatestHeight<C>, nat)> {
        match C::Height::spec_parse(ts) {
            Some((h, n)) => Some((LatestHeight(h), n)),
            None => None,
        }
    }

    proof fn lemma_parse_encode(self, rest: Seq<Token>) {
        self.0.lemma_parse_encode(rest);
    }

    proof fn lemma_parse_bound(ts: Seq<Token>) {
        C::Height::lemma_parse_bound(ts);
    }

    fn encode(&self, out: &mut Vec<Token>) {
        self.0.encode(out);
    }

    fn parse(ts: &Vec<Token>, pos: usize) -> (r: Option<(LatestHeight<C>, usize)>) {
        match C::Height::parse(ts, pos) {
            Some((h, p)) => Some((LatestHeight(h), p)),
            None => None,
        }
    }
}

impl<C: ChainExt> Codec for ChainSpecificData<C> {
    open spec fn spec_encode(self) -> Seq<Token> {
        self.0.spec_encode()
    }

    open spec fn spec_parse(ts: Seq<Token>) -> Option<(ChainSpecificData<C>, nat)> {
        match C::Data::spec_parse(ts) {
            Some((d, n)) => Some((ChainSpecificData(d), n)),
            None => None,
        }
    }

    proof fn lemma_parse_encode(self, rest: Seq<Token>) {
        self.0.lemma_parse_encode(rest);
    }

    proof fn lemma_parse_bound(ts: Seq<Token>) {
        C::Data::lemma_parse_bound(ts);
    }

    fn encode(&self, out: &mut Vec<Token>) {
        self.0.encode(out);
    }

    fn parse(ts: &Vec<Token>, pos: usize) -> (r: Option<(ChainSpecificData<C>, usize)>) {
        match C::Data::parse(ts, pos) {
            Some((d, p)) => Some((ChainSpecificData(d), p)),
            None => None,
        }
    }
}

/// The common arms are tagged by their variant name; the chain-specific arm
/// is the chain's own encoding, with nothing around it.
impl<C: ChainExt> Codec for Data<C> {
    open spec fn spec_encode(self) -> Seq<Token> {
        match self {
            Data::IbcEvent(e) => seq![Token::Tag(Tag::IbcEvent)] + e.spec_encode(),
            Data::LatestHeight(h) => seq![Token::Tag(Tag::LatestHeight)] + h.spec_encode(),
            Data::ChainSpecific(x) => x.spec_encode(),
        }
    }

    open spec fn spec_parse(ts: Seq<Token>) -> Option<(Data<C>, nat)> {
        match token_at(ts, 0) {
            Some(Token::Tag(Tag::IbcEvent)) => match ChainEvent::<C>::spec_parse(after_tag(ts)) {
                Some((e, n)) => Some((Data::IbcEvent(e), n + 1)),
                None => None,
            },
            Some(Token::Tag(Tag::LatestHeight)) => match LatestHeight::<C>::spec_parse(after_tag(ts)) {
                Some((h, n)) => Some((Data::LatestHeight(h), n + 1)),
                None => None,
            },
            _ => match ChainSpecificData::<C>::spec_parse(ts) {
                Some((x, n)) => Some((Data::ChainSpecific(x), n)),
                None => None,
            },
        }
    }

    proof fn lemma_parse_encode(self, rest: Seq<Token>) {
        match self {
            Data::IbcEvent(e) => {
                lemma_after_tag(Tag::IbcEvent, e.spec_encode(), rest);
                e.lemma_parse_encode(rest);
            },
            Data::LatestHeight(h) => {
                lemma_after_tag(Tag::LatestHeight, h.spec_encode(), rest);
                h.lemma_parse_encode(rest);
            },
            Data::ChainSpecific(x) => {
                C::lemma_specific_untagged(x.0);
                assert((x.spec_encode() + rest)[0] == x.spec_encode()[0]);
                x.lemma_parse_encode(rest);
            },
        }
    }

    proof fn lemma_parse_bound(ts: Seq<Token>) {
        ChainEvent::<C>::lemma_parse_bound(after_tag(ts));
        LatestHeight::<C>::lemma_parse_bound(after_tag(ts));
        ChainSpecificData::<C>::lemma_parse_bound(ts);
    }

    fn encode(&self, out: &mut Vec<Token>) {
        match self {
            Data::IbcEvent(e) => {
                out.push(Token::Tag(Tag::IbcEvent));
                e.encode(out);
            },
            Data::LatestHeight(h) => {
                out.push(Token::Tag(Tag::LatestHeight));
                h.encode(out);
            },
            Data::ChainSpecific(x) => x.encode(out),
        }
        assert(out@ =~= old(out)@ + self.spec_encode());
    }

    fn parse(ts: &Vec<Token>, pos: usize) -> (r: Option<(Data<C>, usize)>) {
        if pos < ts.len() {
            proof {
                lemma_rest_after_tag(ts@, pos as int);
            }
            match &ts[pos] {
                Token::Tag(Tag::IbcEvent) => {
                    return match ChainEvent::<C>::parse(ts, pos + 1) {
                        Some((e, p)) => Some((Data::IbcEvent(e), p)),
                        None => None,
                    };
                },
                Token::Tag(Tag::LatestHeight) => {
                    return match LatestHeight::<C>::parse(ts, pos + 1) {
                        Some((h, p)) => Some((Data::LatestHeight(h), p)),
                        None => None,
                    };
                },
                _ => {},
            }
        }
        match ChainSpecificData::<C>::parse(ts, pos) {
            Some((x, p)) => Some((Data::ChainSpecific(x), p)),
            None => None,
        }
    }
}

/// Decoding the encoding of any datum gives the datum back, and a
/// chain-specific datum encodes as the chain's own payload, with no tag or
/// wrapper around it.
pub proof fn lemma_data_round_trip<C: ChainExt>(d: Data<C>)
    ensures
        spec_decode::<Data<C>>(d.spec_encode()) == Some(d),
        d matches Data::ChainSpecific(x) ==> d.spec_encode() == x.0.spec_encode(),
{
    lemma_decode_encode(d);
}

} // verus!
