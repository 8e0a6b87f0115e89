//! The chains known to the system, the union of their data, the erasure
//! wrapper that tags a datum with its chain, and the pass-through handler.
use vstd::prelude::*;
use crate::chain::{ChainExt, H256};
use crate::data::Data;
use crate::codec::{
    after_tag, lemma_after_tag, lemma_decode_encode, lemma_rest_after_tag, spec_decode, token_at, Codec, Tag,
    Token,
};

verus! {

/// A chain's own payload: a block it has seen.
#[derive(Clone, PartialEq, Eq, Debug)]
pub struct BlockRef {
    pub height: u64,
    pub hash: H256,
}

/// Cosmos SDK chains.
#[derive(Clone, PartialEq, Eq, Debug)]
pub struct Cosmos;

/// Union chains.
#[derive(Clone, PartialEq, Eq, Debug)]
pub struct Union;

impl ChainExt for Cosmos {
    type Height = u64;
    type ClientId = String;
    type ClientType = String;
    type Data = BlockRef;

    proof fn lemma_specific_untagged(d: BlockRef) {
        assert(d.spec_encode()[0] == Token::Num(d.height));
    }
}

impl ChainExt for Union {
    type Height = u64;
    type ClientId = String;
    type ClientType = String;
    type Data = BlockRef;

    proof fn lemma_specific_untagged(d: BlockRef) {
        assert(d.spec_encode()[0] == Token::Num(d.height));
    }
}

/// The data of every known chain, one arm per chain.
#[derive(Clone, PartialEq, Eq, Debug)]
pub enum AnyData {
    Cosmos(Data<Cosmos>),
    Union(Data<Union>),
}

/// A value tagged with the identifier of the chain that produced it.
#[derive(Clone, PartialEq, Eq, Debug)]
pub struct Identified<T> {
    pub chain_id: String,
    pub t: T,
}

/// A datum of some known chain, with that chain's identifier. The arm names
/// the concrete chain, so the identifier always belongs to the chain whose
/// data it carries.
#[derive(Clone, PartialEq, Eq, Debug)]
pub enum AnyChainIdentified {
    Cosmos(Identified<Data<Cosmos>>),
    Union(Identified<Data<Union>>),
}

impl AnyChainIdentified {
    pub open spec fn spec_chain_id(self) -> Seq<char> {
        match self {
            AnyChainIdentified::Cosmos(i) => i.chain_id@,
            AnyChainIdentified::Union(i) => i.chain_id@,
        }
    }

    pub open spec fn spec_data(self) -> AnyData {
        match self {
            AnyChainIdentified::Cosmos(i) => AnyData::Cosmos(i.t),
            AnyChainIdentified::Union(i) => AnyData::Union(i.t),
        }
    }

    /// Pairs a datum of any known chain with that chain's identifier.
    pub fn new(chain_id: String, data: AnyData) -> (r: Self)
        ensures
            r.spec_chain_id() == chain_id@,
            r.spec_data() == data,
    {
        match data {
            AnyData::Cosmos(t) => AnyChainIdentified::Cosmos(Identified { chain_id, t }),
            AnyData::Union(t) => AnyChainIdentified::Union(Identified { chain_id, t }),
        }
    }

    /// The identifier of the chain that produced the datum, read without
    /// touching the payload.
    pub fn chain_id(&self) -> (r: &String)
        ensures
            r@ == self.spec_chain_id(),
    {
        match self {
            AnyChainIdentified::Cosmos(i) => &i.chain_id,
            AnyChainIdentified::Union(i) => &i.chain_id,
        }
    }

    /// Splits the value into its identifier and its datum.
    pub fn into_parts(self) -> (r: (String, AnyData))
        ensures
            r.0@ == self.spec_chain_id(),
            r.1 == self.spec_data(),
    {
        match self {
            AnyChainIdentified::Cosmos(i) => (i.chain_id, AnyData::Cosmos(i.t)),
            AnyChainIdentified::Union(i) => (i.chain_id, AnyData::Union(i.t)),
        }
    }
}

/// A chain that has an arm in the union of all chains.
pub trait AnyChain: ChainExt + Sized {
    /// The erased value that holds `i` in this chain's arm.
    spec fn inject(i: Identified<Data<Self>>) -> AnyChainIdentified;

    /// The value in this chain's arm, if `a` is in it.
    spec fn project(a: AnyChainIdentified) -> Option<Identified<Data<Self>>>;

    proof fn lemma_project_inject(i: Identified<Data<Self>>)
        ensures
            Self::project(Self::inject(i)) == Some(i),
            Self::inject(i).spec_chain_id() == i.chain_id@,
    ;

    /// The tag of this chain's arm in the encoded union.
    spec fn arm_tag() -> Tag;

    proof fn lemma_arm_encoding(i: Identified<Data<Self>>)
        ensures
            Self::inject(i).spec_data().spec_encode() == seq![Token::Tag(Self::arm_tag())] + i.t.spec_encode(),
    ;

    /// Tags `data` with `chain_id` and erases the chain type.
    fn wrap(chain_id: String, data: Data<Self>) -> (r: AnyChainIdentified)
        ensures
            r == Self::inject(Identified { chain_id, t: data }),
    ;

    /// Recovers the datum, if `a` belongs to this chain.
    fn unwrap(a: AnyChainIdentified) -> (r: Option<Identified<Data<Self>>>)
        ensures
            r == Self::project(a),
    ;
}

impl AnyChain for Cosmos {
    open spec fn inject(i: Identified<Data<Cosmos>>) -> AnyChainIdentified {
        AnyChainIdentified::Cosmos(i)
    }

    open spec fn project(a: AnyChainIdentified) -> Option<Identified<Data<Cosmos>>> {
        match a {
            AnyChainIdentified::Cosmos(i) => Some(i),
            _ => None,
        }
    }

    proof fn lemma_project_inject(i: Identified<Data<Cosmos>>) {
    }

    open spec fn arm_tag() -> Tag {
        Tag::Cosmos
    }

    proof fn lemma_arm_encoding(i: Identified<Data<Cosmos>>) {
    }

    fn wrap(chain_id: String, data: Data<Cosmos>) -> (r: AnyChainIdentified) {
        AnyChainIdentified::Cosmos(Identified { chain_id, t: data })
    }

    fn unwrap(a: AnyChainIdentified) -> (r: Option<Identified<Data<Cosmos>>>) {
        match a {
            AnyChainIdentified::Cosmos(i) => Some(i),
            _ => None,
        }
    }
}

impl AnyChain for Union {
    open spec fn inject(i: Identified<Data<Union>>) -> AnyChainIdentified {
        AnyChainIdentified::Union(i)
    }

    open spec fn project(a: AnyChainIdentified) -> Option<Identified<Data<Union>>> {
        match a {
            AnyChainIdentified::Union(i) => Some(i),
            _ => None,
        }
    }

    proof fn lemma_project_inject(i: Identified<Data<Union>>) {
    }

    open spec fn arm_tag() -> Tag {
        Tag::Union
    }

    proof fn lemma_arm_encoding(i: Identified<Data<Union>>) {
    }

    fn wrap(chain_id: String, data: Data<Union>) -> (r: AnyChainIdentified) {
        AnyChainIdentified::Union(Identified { chain_id, t: data })
    }

    fn unwrap(a: AnyChainIdentified) -> (r: Option<Identified<Data<Union>>>) {
        match a {
            AnyChainIdentified::Union(i) => Some(i),
            _ => None,
        }
    }
}

/// Shared state owned by the queue engine; the pass-through handler never
/// touches it.
#[derive(Clone, PartialEq, Eq, Debug)]
pub struct Store;

/// Work handed back to the queue engine.
#[derive(Clone, PartialEq, Eq, Debug)]
pub enum Op {
    /// Emit a datum for a higher layer to consume.
    Data(AnyChainIdentified),
    /// Nothing more to do.
    Noop,
}

impl Op {
    /// The data that running this operation emits, in order.
    pub open spec fn emitted(self) -> Seq<AnyChainIdentified> {
        match self {
            Op::Data(a) => seq![a],
            Op::Noop => Seq::empty(),
        }
    }
}

/// A failure that a handler surfaces to the queue engine.
#[derive(Clone, PartialEq, Eq, Debug)]
pub enum QueueError {
    Fatal(String),
    Retry(String),
}

/// What handling `a` gives: the datum, bubbled up as it is.
pub open spec fn handled(a: AnyChainIdentified) -> Result<Op, QueueError> {
    Ok(Op::Data(a))
}

impl AnyChainIdentified {
    /// Top-level data is not interpreted here: it is bubbled up unchanged as
    /// a single emit operation.
    pub fn handle(self, store: &Store) -> (r: Result<Op, QueueError>)
        ensures
            r == handled(self),
    {
        Ok(Op::Data(self))
    }
}

/// Wrapping a datum of chain `C` and unwrapping it as `C` gives back the same
/// datum and the same chain identifier.
pub proof fn lemma_wrap_unwrap<C: AnyChain>(chain_id: String, d: Data<C>)
    ensures
        C::project(C::inject(Identified { chain_id, t: d })) == Some(Identified { chain_id, t: d }),
        C::inject(Identified { chain_id, t: d }).spec_chain_id() == chain_id@,
{
    C::lemma_project_inject(Identified { chain_id, t: d });
}

/// A datum wrapped for one chain is never taken for the other chain's.
pub proof fn lemma_chains_apart(cosmos: Identified<Data<Cosmos>>, union: Identified<Data<Union>>)
    ensures
        Union::project(Cosmos::inject(cosmos)).is_none(),
        Cosmos::project(Union::inject(union)).is_none(),
{
}

/// Handling a wrapped datum gives one operation, which emits exactly that
/// wrapped datum, once.
pub proof fn lemma_handle_emits_once<C: AnyChain>(chain_id: String, d: Data<C>)
    ensures
        handled(C::inject(Identified { chain_id, t: d })) is Ok,
        handled(C::inject(Identified { chain_id, t: d })).unwrap().emitted()
            == seq![C::inject(Identified { chain_id, t: d })],
{
}

/// A chain's arm of the union encodes as the chain's tag followed by the
/// chain's data as it encodes alone, reads back as that arm, and is handled
/// by emitting it unchanged: nothing about it depends on the other arms.
pub proof fn lemma_arm_stands_alone<C: AnyChain>(chain_id: String, d: Data<C>)
    ensures
        C::inject(Identified { chain_id, t: d }).spec_data().spec_encode()
            == seq![Token::Tag(C::arm_tag())] + d.spec_encode(),
        spec_decode::<AnyData>(C::inject(Identified { chain_id, t: d }).spec_data().spec_encode())
            == Some(C::inject(Identified { chain_id, t: d }).spec_data()),
        handled(C::inject(Identified { chain_id, t: d }))
            == Ok::<Op, QueueError>(Op::Data(C::inject(Identified { chain_id, t: d }))),
{
    C::lemma_arm_encoding(Identified { chain_id, t: d });
    lemma_decode_encode(C::inject(Identified { chain_id, t: d }).spec_data());
}

} // verus!

verus! {

impl Codec for BlockRef {
    open spec fn spec_encode(self) -> Seq<Token> {
        (self.height, self.hash).spec_encode()
    }

    open spec fn spec_parse(ts: Seq<Token>) -> Option<(BlockRef, nat)> {
        match <(u64, H256)>::spec_parse(ts) {
            Some(((height, hash), n)) => Some((BlockRef { height, hash }, n)),
            None => None,
        }
    }

    proof fn lemma_parse_encode(self, rest: Seq<Token>) {
        (self.height, self.hash).lemma_parse_encode(rest);
    }

    proof fn lemma_parse_bound(ts: Seq<Token>) {
        <(u64, H256)>::lemma_parse_bound(ts);
    }

    fn encode(&self, out: &mut Vec<Token>) {
        self.height.encode(out);
        self.hash.encode(out);
        assert(out@ =~= old(out)@ + self.spec_encode());
    }

    fn parse(ts: &Vec<Token>, pos: usize) -> (r: Option<(BlockRef, usize)>) {
        match <(u64, H256)>::parse(ts, pos) {
            Some(((height, hash), p)) => Some((BlockRef { height, hash }, p)),
            None => None,
        }
    }
}

/// Each chain's arm is tagged with the chain's name, followed by that
/// chain's data as it encodes on its own.
impl Codec for AnyData {
    open spec fn spec_encode(self) -> Seq<Token> {
        match self {
            AnyData::Cosmos(d) => seq![Token::Tag(Tag::Cosmos)] + d.spec_encode(),
            AnyData::Union(d) => seq![Token::Tag(Tag::Union)] + d.spec_encode(),
        }
    }

    open spec fn spec_parse(ts: Seq<Token>) -> Option<(AnyData, nat)> {
        match token_at(ts, 0) {
            Some(Token::Tag(Tag::Cosmos)) => match Data::<Cosmos>::spec_parse(after_tag(ts)) {
                Some((d, n)) => Some((AnyData::Cosmos(d), n + 1)),
                None => None,
            },
            Some(Token::Tag(Tag::Union)) => match Data::<Union>::spec_parse(after_tag(ts)) {
                Some((d, n)) => Some((AnyData::Union(d), n + 1)),
                None => None,
            },
            _ => None,
        }
    }

    proof fn lemma_parse_encode(self, rest: Seq<Token>) {
        match self {
            AnyData::Cosmos(d) => {
                lemma_after_tag(Tag::Cosmos, d.spec_encode(), rest);
                d.lemma_parse_encode(rest);
            },
            AnyData::Union(d) => {
                lemma_after_tag(Tag::Union, d.spec_encode(), rest);
                d.lemma_parse_encode(rest);
            },
        }
    }

    proof fn lemma_parse_bound(ts: Seq<Token>) {
        Data::<Cosmos>::lemma_parse_bound(after_tag(ts));
        Data::<Union>::lemma_parse_bound(after_tag(ts));
    }

    fn encode(&self, out: &mut Vec<Token>) {
        match self {
            AnyData::Cosmos(d) => {
                out.push(Token::Tag(Tag::Cosmos));
                d.encode(out);
            },
            AnyData::Union(d) => {
                out.push(Token::Tag(Tag::Union));
                d.encode(out);
            },
        }
        assert(out@ =~= old(out)@ + self.spec_encode());
    }

    fn parse(ts: &Vec<Token>, pos: usize) -> (r: Option<(AnyData, usize)>) {
        if pos >= ts.len() {
            return None;
        }
        proof {
            lemma_rest_after_tag(ts@, pos as int);
        }
        match &ts[pos] {
            Token::Tag(Tag::Cosmos) => match Data::<Cosmos>::parse(ts, pos + 1) {
                Some((d, p)) => Some((AnyData::Cosmos(d), p)),
                None => None,
            },
            Token::Tag(Tag::Union) => match Data::<Union>::parse(ts, pos + 1) {
                Some((d, p)) => Some((AnyData::Union(d), p)),
                None => None,
            },
            _ => None,
        }
    }
}

} // verus!
