use block_message::any::{AnyChain, AnyChainIdentified, AnyData, BlockRef, Cosmos, Op, Store, Union};
use block_message::chain::{ClientType, IbcEvent, H256};
use block_message::codec::{deserialize, serialize, Tag, Token};
use block_message::data::{ChainEvent, ChainSpecificData, Data, LatestHeight};

fn hash_ending_in_one() -> H256 {
    let mut bytes = [0u8; 32];
    bytes[31] = 1;
    H256 { bytes }
}

fn tendermint_event() -> ChainEvent<Cosmos> {
    ChainEvent {
        client_type: ClientType { name: "tendermint".to_string() },
        tx_hash: hash_ending_in_one(),
        height: 100,
        event: IbcEvent::CreateClient {
            client_id: "07-tendermint-0".to_string(),
            client_type: "tendermint".to_string(),
        },
    }
}

fn block(height: u64) -> BlockRef {
    BlockRef { height, hash: hash_ending_in_one() }
}

#[test]
fn handle_bubbles_up_tendermint_event() {
    let event = tendermint_event();
    let wrapped = Cosmos::wrap("osmosis-1".to_string(), Data::IbcEvent(event.clone()));
    let op = wrapped.clone().handle(&Store).unwrap();
    match op {
        Op::Data(emitted) => {
            assert_eq!(emitted, wrapped);
            assert_eq!(emitted.chain_id(), "osmosis-1");
            let back = Cosmos::unwrap(emitted).unwrap();
            assert_eq!(back.chain_id, "osmosis-1");
            assert_eq!(back.t, Data::IbcEvent(event));
        }
        Op::Noop => panic!("the datum was dropped"),
    }
}

#[test]
fn latest_height_round_trips_for_union_testnet() {
    let data: Data<Union> = Data::LatestHeight(LatestHeight(42));
    let wrapped = Union::wrap("union-testnet".to_string(), data.clone());
    assert_eq!(wrapped.chain_id(), "union-testnet");
    let tokens = serialize(&data);
    assert_eq!(tokens, vec![Token::Tag(Tag::LatestHeight), Token::Num(42)]);
    let back: Option<Data<Union>> = deserialize(&tokens);
    assert_eq!(back, Some(Data::LatestHeight(LatestHeight(42))));
}

#[test]
fn wrap_then_unwrap_gives_back_datum_and_id() {
    let data: Data<Union> = Data::ChainSpecific(ChainSpecificData(block(7)));
    let wrapped = Union::wrap("union-1".to_string(), data.clone());
    assert_eq!(wrapped.chain_id(), "union-1");
    let back = Union::unwrap(wrapped).unwrap();
    assert_eq!(back.chain_id, "union-1");
    assert_eq!(back.t, data);
}

#[test]
fn unwrap_as_other_chain_finds_nothing() {
    let wrapped = Cosmos::wrap("osmosis-1".to_string(), Data::LatestHeight(LatestHeight(5)));
    assert!(Union::unwrap(wrapped).is_none());
    let wrapped = Union::wrap("union-1".to_string(), Data::LatestHeight(LatestHeight(5)));
    assert!(Cosmos::unwrap(wrapped).is_none());
}

#[test]
fn handle_emits_each_datum_once() {
    let wrapped = Union::wrap("union-1".to_string(), Data::LatestHeight(LatestHeight(9)));
    assert_eq!(wrapped.clone().handle(&Store), Ok(Op::Data(wrapped)));
}

#[test]
fn new_and_into_parts_agree() {
    let data = AnyData::Cosmos(Data::LatestHeight(LatestHeight(3)));
    let wrapped = AnyChainIdentified::new("osmosis-1".to_string(), data.clone());
    assert_eq!(wrapped.chain_id(), "osmosis-1");
    assert!(Cosmos::unwrap(wrapped.clone()).is_some());
    let (id, back) = wrapped.into_parts();
    assert_eq!(id, "osmosis-1");
    assert_eq!(back, data);
}

#[test]
fn event_round_trips() {
    let data: Data<Cosmos> = Data::IbcEvent(tendermint_event());
    let tokens = serialize(&data);
    assert_eq!(tokens[0], Token::Tag(Tag::IbcEvent));
    assert_eq!(tokens[1], Token::Str("tendermint".to_string()));
    assert_eq!(tokens[2], Token::Hash(hash_ending_in_one().bytes));
    assert_eq!(tokens[3], Token::Num(100));
    assert_eq!(tokens[4], Token::Tag(Tag::CreateClient));
    assert_eq!(tokens.len(), 7);
    assert_eq!(deserialize::<Data<Cosmos>>(&tokens), Some(data));
}

#[test]
fn connection_event_round_trips() {
    let data: Data<Union> = Data::IbcEvent(ChainEvent {
        client_type: ClientType { name: "cometbls".to_string() },
        tx_hash: H256 { bytes: [7u8; 32] },
        height: 12,
        event: IbcEvent::ConnectionOpenInit {
            connection_id: "connection-0".to_string(),
            client_id: "08-wasm-1".to_string(),
            counterparty_client_id: "07-tendermint-4".to_string(),
        },
    });
    let tokens = serialize(&data);
    assert_eq!(tokens.len(), 8);
    assert_eq!(deserialize::<Data<Union>>(&tokens), Some(data));
}

#[test]
fn chain_specific_is_untagged() {
    let payload = block(77);
    let data: Data<Cosmos> = Data::ChainSpecific(ChainSpecificData(payload.clone()));
    let tokens = serialize(&data);
    assert_eq!(tokens, serialize(&payload));
    assert_eq!(tokens, vec![Token::Num(77), Token::Hash(hash_ending_in_one().bytes)]);
    assert_eq!(deserialize::<Data<Cosmos>>(&tokens), Some(data));
}

#[test]
fn arm_encoding_is_tag_then_chain_data() {
    let data: Data<Cosmos> = Data::LatestHeight(LatestHeight(11));
    let mut expected = vec![Token::Tag(Tag::Cosmos)];
    expected.extend(serialize(&data));
    let any = AnyData::Cosmos(data);
    let tokens = serialize(&any);
    assert_eq!(tokens, expected);
    assert_eq!(deserialize::<AnyData>(&tokens), Some(any));

    let data: Data<Union> = Data::LatestHeight(LatestHeight(11));
    let tokens = serialize(&AnyData::Union(data.clone()));
    assert_eq!(tokens[0], Token::Tag(Tag::Union));
    assert_eq!(tokens[1..].to_vec(), serialize(&data));
}

#[test]
fn decode_refuses_trailing_tokens() {
    let mut tokens = serialize(&Data::<Cosmos>::LatestHeight(LatestHeight(1)));
    tokens.push(Token::Num(2));
    assert_eq!(deserialize::<Data<Cosmos>>(&tokens), None);
}

#[test]
fn decode_refuses_malformed_tokens() {
    assert_eq!(deserialize::<Data<Cosmos>>(&vec![]), None);
    assert_eq!(deserialize::<Data<Cosmos>>(&vec![Token::Tag(Tag::LatestHeight)]), None);
    assert_eq!(deserialize::<Data<Cosmos>>(&vec![Token::Tag(Tag::IbcEvent), Token::Num(1)]), None);
    assert_eq!(deserialize::<AnyData>(&vec![Token::Tag(Tag::IbcEvent)]), None);
    assert_eq!(deserialize::<AnyData>(&vec![Token::Num(3)]), None);
}

#[test]
fn tag_names_are_variant_names() {
    assert_eq!(Tag::IbcEvent.name(), "IbcEvent");
    assert_eq!(Tag::LatestHeight.name(), "LatestHeight");
    assert_eq!(Tag::Cosmos.name(), "Cosmos");
}
