//! A self-describing token stream that data is encoded to, and the codec
//! trait with its round-trip law.
use vstd::prelude::*;

verus! {

/// The names that tag an arm of a union in the encoded form.
#[derive(Clone, Copy, PartialEq, Eq, Structural, Debug)]
pub enum Tag {
    IbcEvent,
    LatestHeight,
    CreateClient,
    UpdateClient,
    ConnectionOpenInit,
    Cosmos,
    Union,
}

impl Tag {
    /// The name of the variant that the tag stands for.
    pub open spec fn spec_name(self) -> Seq<char> {
        match self {
            Tag::IbcEvent => "IbcEvent"@,
            Tag::LatestHeight => "LatestHeight"@,
            Tag::CreateClient => "CreateClient"@,
            Tag::UpdateClient => "UpdateClient"@,
            Tag::ConnectionOpenInit => "ConnectionOpenInit"@,
            Tag::Cosmos => "Cosmos"@,
            Tag::Union => "Union"@,
        }
    }

    /// The tag as it is written on the wire.
    pub fn name(&self) -> (r: &'static str)
        ensures
            r@ == self.spec_name(),
    {
        match self {
            Tag::IbcEvent => "IbcEvent",
            Tag::LatestHeight => "LatestHeight",
            Tag::CreateClient => "CreateClient",
            Tag::UpdateClient => "UpdateClient",
            Tag::ConnectionOpenInit => "ConnectionOpenInit",
            Tag::Cosmos => "Cosmos",
            Tag::Union => "Union",
        }
    }
}

/// One element of an encoded value.
#[derive(Clone, PartialEq, Eq, Debug)]
pub enum Token {
    /// Opens an arm of a tagged union.
    Tag(Tag),
    Num(u64),
    Str(String),
    Hash([u8; 32]),
}

/// `ts` from position `pos` on.
pub open spec fn rest_from(ts: Seq<Token>, pos: int) -> Seq<Token> {
    ts.subrange(pos, ts.len() as int)
}

/// A value with an encoding that its parser reads back.
pub trait Codec: Sized {
    /// The tokens that encode `self`.
    spec fn spec_encode(self) -> Seq<Token>;

    /// Reads one value from the front of `ts`, with the number of tokens it
    /// took; `None` where the front of `ts` encodes no value.
    spec fn spec_parse(ts: Seq<Token>) -> Option<(Self, nat)>;

    proof fn lemma_parse_encode(self, rest: Seq<Token>)
        ensures
            Self::spec_parse(self.spec_encode() + rest) == Some((self, self.spec_encode().len())),
    ;

    proof fn lemma_parse_bound(ts: Seq<Token>)
        ensures
            Self::spec_parse(ts) matches Some((_, n)) ==> n <= ts.len(),
    ;

    /// Appends the encoding of `self` to `out`.
    fn encode(&self, out: &mut Vec<Token>)
        ensures
            final(out)@ == old(out)@ + self.spec_encode(),
    ;

    /// Reads one value at `pos`, and the position after it.
    fn parse(ts: &Vec<Token>, pos: usize) -> (r: Option<(Self, usize)>)
        requires
            pos <= ts@.len(),
        ensures
            match Self::spec_parse(rest_from(ts@, pos as int)) {
                Some((v, n)) => pos + n <= ts@.len() && r == Some((v, (pos + n) as usize)),
                None => r is None,
            },
    ;
}

/// The value that `ts` encodes as a whole, if it encodes exactly one.
pub open spec fn spec_decode<T: Codec>(ts: Seq<Token>) -> Option<T> {
    match T::spec_parse(ts) {
        Some((v, n)) => if n == ts.len() { Some(v) } else { None },
        None => None,
    }
}

/// Encodes a value to tokens.
pub fn serialize<T: Codec>(v: &T) -> (r: Vec<Token>)
    ensures
        r@ == v.spec_encode(),
{
    let mut out: Vec<Token> = Vec::new();
    v.encode(&mut out);
    assert(out@ =~= v.spec_encode());
    out
}

/// Decodes tokens that hold exactly one value.
pub fn deserialize<T: Codec>(ts: &Vec<Token>) -> (r: Option<T>)
    ensures
        r == spec_decode::<T>(ts@),
{
    assert(rest_from(ts@, 0) =~= ts@);
    match T::parse(ts, 0) {
        Some((v, n)) => if n == ts.len() { Some(v) } else { None },
        None => None,
    }
}

/// Decoding what a value encodes to gives the value back.
pub proof fn lemma_decode_encode<T: Codec>(v: T)
    ensures
        spec_decode::<T>(v.spec_encode()) == Some(v),
{
    v.lemma_parse_encode(Seq::empty());
    assert(v.spec_encode() + Seq::<Token>::empty() =~= v.spec_encode());
}

/// `ts` without its first token.
pub open spec fn after_tag(ts: Seq<Token>) -> Seq<Token> {
    ts.subrange(1, ts.len() as int)
}

/// Drops the leading tag of a tagged encoding.
pub proof fn lemma_after_tag(t: Tag, e: Seq<Token>, rest: Seq<Token>)
    ensures
        after_tag(seq![Token::Tag(t)] + e + rest) == e + rest,
        (seq![Token::Tag(t)] + e + rest)[0] == Token::Tag(t),
{
    assert(after_tag(seq![Token::Tag(t)] + e + rest) =~= e + rest);
}

/// Reading past a tag at `pos` is reading at `pos + 1`.
pub proof fn lemma_rest_after_tag(ts: Seq<Token>, pos: int)
    requires
        0 <= pos < ts.len(),
    ensures
        rest_from(ts, pos)[0] == ts[pos],
        after_tag(rest_from(ts, pos)) == rest_from(ts, pos + 1),
{
    assert(after_tag(rest_from(ts, pos)) =~= rest_from(ts, pos + 1));
}

/// `ts` can stand untagged beside the common arms of a chain's data: it
/// does not open with either of their tags, and is not empty.
pub open spec fn embeds_untagged(ts: Seq<Token>) -> bool {
    &&& ts.len() > 0
    &&& ts[0] != Token::Tag(Tag::IbcEvent)
    &&& ts[0] != Token::Tag(Tag::LatestHeight)
}

/// The token at `pos`, if there is one.
pub open spec fn token_at(ts: Seq<Token>, pos: int) -> Option<Token> {
    if 0 <= pos < ts.len() { Some(ts[pos]) } else { None }
}

impl Codec for u64 {
    open spec fn spec_encode(self) -> Seq<Token> {
        seq![Token::Num(self)]
    }

    open spec fn spec_parse(ts: Seq<Token>) -> Option<(u64, nat)> {
        match token_at(ts, 0) {
            Some(Token::Num(n)) => Some((n, 1)),
            _ => None,
        }
    }

    proof fn lemma_parse_encode(self, rest: Seq<Token>) {
        assert((self.spec_encode() + rest)[0] == Token::Num(self));
    }

    proof fn lemma_parse_bound(ts: Seq<Token>) {
    }

    fn encode(&self, out: &mut Vec<Token>) {
        out.push(Token::Num(*self));
    }

    fn parse(ts: &Vec<Token>, pos: usize) -> (r: Option<(u64, usize)>) {
        if pos < ts.len() {
            assert(rest_from(ts@, pos as int)[0] == ts@[pos as int]);
            match &ts[pos] {
                Token::Num(n) => Some((*n, pos + 1)),
                _ => None,
            }
        } else {
            None
        }
    }
}

impl Codec for String {
    open spec fn spec_encode(self) -> Seq<Token> {
        seq![Token::Str(self)]
    }

    open spec fn spec_parse(ts: Seq<Token>) -> Option<(String, nat)> {
        match token_at(ts, 0) {
            Some(Token::Str(s)) => Some((s, 1)),
            _ => None,
        }
    }

    proof fn lemma_parse_encode(self, rest: Seq<Token>) {
        assert((self.spec_encode() + rest)[0] == Token::Str(self));
    }

    proof fn lemma_parse_bound(ts: Seq<Token>) {
    }

    fn encode(&self, out: &mut Vec<Token>) {
        out.push(Token::Str(self.clone()));
    }

    fn parse(ts: &Vec<Token>, pos: usize) -> (r: Option<(String, usize)>) {
        if pos < ts.len() {
            assert(rest_from(ts@, pos as int)[0] == ts@[pos as int]);
            match &ts[pos] {
                Token::Str(s) => Some((s.clone(), pos + 1)),
                _ => None,
            }
        } else {
            None
        }
    }
}

impl<A: Codec, B: Codec> Codec for (A, B) {
    open spec fn spec_encode(self) -> Seq<Token> {
        self.0.spec_encode() + self.1.spec_encode()
    }

    open spec fn spec_parse(ts: Seq<Token>) -> Option<((A, B), nat)> {
        match A::spec_parse(ts) {
            Some((a, n)) => match B::spec_parse(ts.subrange(n as int, ts.len() as int)) {
                Some((b, m)) => Some(((a, b), n + m)),
                None => None,
            },
            None => None,
        }
    }

    proof fn lemma_parse_encode(self, rest: Seq<Token>) {
        let ea = self.0.spec_encode();
        let eb = self.1.spec_encode();
        let ts = ea + eb + rest;
        assert(ts =~= ea + (eb + rest));
        self.0.lemma_parse_encode(eb + rest);
        assert(ts.subrange(ea.len() as int, ts.len() as int) =~= eb + rest);
        self.1.lemma_parse_encode(rest);
    }

    proof fn lemma_parse_bound(ts: Seq<Token>) {
        A::lemma_parse_bound(ts);
        if let Some((a, n)) = A::spec_parse(ts) {
            B::lemma_parse_bound(ts.subrange(n as int, ts.len() as int));
        }
    }

    fn encode(&self, out: &mut Vec<Token>) {
        self.0.encode(out);
        self.1.encode(out);
        assert(out@ =~= old(out)@ + self.spec_encode());
    }

    fn parse(ts: &Vec<Token>, pos: usize) -> (r: Option<((A, B), usize)>) {
        let len = ts.len();
        proof {
            A::lemma_parse_bound(rest_from(ts@, pos as int));
        }
        match A::parse(ts, pos) {
            Some((a, p)) => {
                proof {
                    let rs = rest_from(ts@, pos as int);
                    let n = A::spec_parse(rs).unwrap().1;
                    assert(p == pos + n);
                    assert(rs.subrange(n as int, rs.len() as int) =~= rest_from(ts@, p as int));
                    B::lemma_parse_bound(rest_from(ts@, p as int));
                }
                match B::parse(ts, p) {
                    Some((b, q)) => Some(((a, b), q)),
                    None => None,
                }
            },
            None => None,
        }
    }
}

} // verus!
