use cw_ibc_callback::ack::{make_ack_fail, make_ack_success, Ack, IncrementMsgAcknowledgement};
use cw_ibc_callback::callback::build_callback;
use cw_ibc_callback::contract::{execute, execute_ibc_callback, query, query_count};
use cw_ibc_callback::error::ContractError;
use cw_ibc_callback::ibc::{
    execute_acknowledge_callback, execute_increment, ibc_channel_close, ibc_channel_connect, ibc_channel_open, ibc_packet_ack, ibc_packet_receive,
    ibc_packet_timeout, validate_order_and_version, IbcChannel, IbcOrder, IBC_VERSION,
};
use cw_ibc_callback::number::decimal_text;
use cw_ibc_callback::msg::{ExecuteMsg, IbcExecuteMsg, QueryMsg};
use cw_ibc_callback::response::{IbcMsg, WasmMsg};
use cw_ibc_callback::store::{CounterStore, CALLBACK_COUNTER};

fn channel(id: &str, order: IbcOrder, version: &str) -> IbcChannel {
    IbcChannel { channel_id: id.to_string(), order, version: version.to_string() }
}

fn good_channel(id: &str) -> IbcChannel {
    channel(id, IbcOrder::Unordered, IBC_VERSION)
}

fn pairs(attrs: &[cw_ibc_callback::response::Attribute]) -> Vec<(String, String)> {
    attrs.iter().map(|a| (a.key.clone(), a.value.clone())).collect()
}

#[test]
fn connect_receive_query_scenario() {
    let mut store = CounterStore::new();
    let ch = good_channel("chan-1");
    let resp = ibc_channel_connect(&mut store, &ch, None).unwrap();
    assert_eq!(
        pairs(&resp.attributes),
        vec![
            ("method".to_string(), "ibc_channel_connect".to_string()),
            ("channel_id".to_string(), "chan-1".to_string())
        ]
    );
    assert_eq!(query_count(&store, &"chan-1".to_string()).count, 0);
    let packet = IbcExecuteMsg::Increment { callback: false }.to_bytes();
    let r = ibc_packet_receive(&mut store, "chan-1".to_string(), &packet);
    let ack = Ack::from_bytes(&r.acknowledgement).unwrap();
    let payload = match ack {
        Ack::Result(p) => p,
        Ack::Error(e) => panic!("unexpected failure acknowledgement: {}", e),
    };
    assert_eq!(payload, br#"{"count":1,"callback":false}"#.to_vec());
    assert_eq!(
        IncrementMsgAcknowledgement::from_bytes(&payload),
        Some(IncrementMsgAcknowledgement { count: 1, callback: false })
    );
    assert_eq!(query_count(&store, &"chan-1".to_string()).count, 1);
    let q = query(&store, QueryMsg::GetCount { count: "chan-1".to_string() });
    assert_eq!(q, br#"{"count":1}"#.to_vec());
}

#[test]
fn nth_receive_acknowledges_count_n() {
    let mut store = CounterStore::new();
    ibc_channel_connect(&mut store, &good_channel("c"), Some(&IBC_VERSION.to_string())).unwrap();
    for n in 1..=5u32 {
        let cb = n % 2 == 0;
        let packet = IbcExecuteMsg::Increment { callback: cb }.to_bytes();
        let r = ibc_packet_receive(&mut store, "c".to_string(), &packet);
        assert_eq!(r.acknowledgement, make_ack_success(n, cb));
    }
    assert_eq!(store.get(&"c".to_string()), Some(5));
}

#[test]
fn malformed_packet_gives_failure_ack() {
    let mut store = CounterStore::new();
    ibc_channel_connect(&mut store, &good_channel("c"), None).unwrap();
    for body in [&b""[..], b"{}", b"{\"increment\":{}}", b"{ \"increment\":{\"callback\":true}}", b"garbage"] {
        let r = ibc_packet_receive(&mut store, "c".to_string(), body);
        match Ack::from_bytes(&r.acknowledgement).unwrap() {
            Ack::Error(msg) => {
                assert!(!msg.is_empty());
                assert_eq!(msg, ContractError::InvalidPacket.message());
            }
            Ack::Result(_) => panic!("malformed packet was accepted"),
        }
        assert_eq!(r.attributes[1].key, "error");
    }
    assert_eq!(store.get(&"c".to_string()), Some(0));
}

#[test]
fn packet_on_unknown_channel_starts_from_zero() {
    let mut store = CounterStore::new();
    let packet = IbcExecuteMsg::Increment { callback: true }.to_bytes();
    let r = ibc_packet_receive(&mut store, "fresh".to_string(), &packet);
    assert_eq!(r.acknowledgement, make_ack_success(1, true));
}

#[test]
fn counter_overflow_gives_failure_ack() {
    let mut store = CounterStore::new();
    store.set(&"c".to_string(), u32::MAX);
    let packet = IbcExecuteMsg::Increment { callback: false }.to_bytes();
    let r = ibc_packet_receive(&mut store, "c".to_string(), &packet);
    assert_eq!(r.acknowledgement, make_ack_fail(ContractError::CounterOverflow.message()));
    assert_eq!(store.get(&"c".to_string()), Some(u32::MAX));
}

#[test]
fn success_ack_exact_bytes() {
    assert_eq!(
        make_ack_success(1, false),
        br#"{"result":"eyJjb3VudCI6MSwiY2FsbGJhY2siOmZhbHNlfQ=="}"#.to_vec()
    );
    assert_eq!(
        make_ack_success(7, true),
        br#"{"result":"eyJjb3VudCI6NywiY2FsbGJhY2siOnRydWV9"}"#.to_vec()
    );
    assert_eq!(
        make_ack_success(u32::MAX, true),
        br#"{"result":"eyJjb3VudCI6NDI5NDk2NzI5NSwiY2FsbGJhY2siOnRydWV9"}"#.to_vec()
    );
}

#[test]
fn failure_ack_exact_bytes() {
    assert_eq!(make_ack_fail("boom".to_string()), br#"{"error":"boom"}"#.to_vec());
    assert_eq!(
        make_ack_fail("a\"b\\c\nd\u{1}é".to_string()),
        "{\"error\":\"a\\\"b\\\\c\\nd\\u0001é\"}".as_bytes().to_vec()
    );
    assert_eq!(make_ack_fail(String::new()), br#"{"error":""}"#.to_vec());
}

#[test]
fn ack_round_trips() {
    for (c, cb) in [(0u32, false), (1, true), (42, false), (u32::MAX, true)] {
        let bytes = make_ack_success(c, cb);
        match Ack::from_bytes(&bytes).unwrap() {
            Ack::Result(p) => {
                assert_eq!(
                    IncrementMsgAcknowledgement::from_bytes(&p),
                    Some(IncrementMsgAcknowledgement { count: c, callback: cb })
                );
            }
            Ack::Error(_) => panic!("success decoded as failure"),
        }
    }
    for m in ["", "x", "quote \" and \\ and \t tab", "ünïcödé \u{1f} end"] {
        let bytes = make_ack_fail(m.to_string());
        assert_eq!(Ack::from_bytes(&bytes), Some(Ack::Error(m.to_string())));
    }
}

#[test]
fn malformed_envelopes_are_rejected() {
    for b in [
        &b""[..],
        b"{}",
        b"{\"result\":\"!!\"}",
        b"{\"error\":\"unterminated}",
        b"{\"other\":\"x\"}",
        b"{\"error\":\"\\q\"}",
        b"{\"result\":\"eyJjb3VudCI6MSwiY2FsbGJhY2siOmZhbHNlfQ\"}",
    ] {
        assert_eq!(Ack::from_bytes(b), None);
    }
    assert_eq!(IncrementMsgAcknowledgement::from_bytes(b"{\"count\":01,\"callback\":true}"), None);
    assert_eq!(IncrementMsgAcknowledgement::from_bytes(b"{\"count\":4294967296,\"callback\":true}"), None);
    assert_eq!(IncrementMsgAcknowledgement::from_bytes(b"{\"count\":1,\"callback\":maybe}"), None);
}

#[test]
fn ordered_channel_is_refused() {
    let ch = channel("c", IbcOrder::Ordered, IBC_VERSION);
    assert_eq!(validate_order_and_version(&ch, None), Err(ContractError::OrderedChannel));
    let ch = channel("c", IbcOrder::Ordered, "other");
    assert_eq!(
        validate_order_and_version(&ch, Some(&"other".to_string())),
        Err(ContractError::OrderedChannel)
    );
    assert_eq!(ibc_channel_open(&ch, None), Err(ContractError::OrderedChannel));
}

#[test]
fn version_checks() {
    let ch = good_channel("c");
    assert_eq!(validate_order_and_version(&ch, None), Ok(()));
    assert_eq!(validate_order_and_version(&ch, Some(&IBC_VERSION.to_string())), Ok(()));
    assert_eq!(
        validate_order_and_version(&ch, Some(&"v2".to_string())),
        Err(ContractError::InvalidVersion { actual: "v2".to_string(), expected: IBC_VERSION.to_string() })
    );
    let bad = channel("c", IbcOrder::Unordered, "v1");
    assert_eq!(
        validate_order_and_version(&bad, None),
        Err(ContractError::InvalidVersion { actual: "v1".to_string(), expected: IBC_VERSION.to_string() })
    );
    assert_eq!(
        ContractError::InvalidVersion { actual: "v1".to_string(), expected: IBC_VERSION.to_string() }.message(),
        "invalid IBC channel version - got (v1), expected (simple-ibc-callback)"
    );
}

#[test]
fn refused_connect_creates_no_counter() {
    let mut store = CounterStore::new();
    let bad = channel("c", IbcOrder::Ordered, IBC_VERSION);
    assert!(ibc_channel_connect(&mut store, &bad, None).is_err());
    assert_eq!(store.get(&"c".to_string()), None);
}

#[test]
fn close_removes_counter() {
    let mut store = CounterStore::new();
    let ch = good_channel("c");
    ibc_channel_connect(&mut store, &ch, None).unwrap();
    let packet = IbcExecuteMsg::Increment { callback: false }.to_bytes();
    ibc_packet_receive(&mut store, "c".to_string(), &packet);
    assert_eq!(query_count(&store, &"c".to_string()).count, 1);
    let resp = ibc_channel_close(&mut store, &ch).unwrap();
    assert_eq!(resp.attributes[0].value, "ibc_channel_close");
    assert_eq!(store.get(&"c".to_string()), None);
    assert_eq!(query_count(&store, &"c".to_string()).count, 0);
}

#[test]
fn ack_with_callback_counts_and_dispatches() {
    let mut store = CounterStore::new();
    let resp = ibc_packet_ack(&mut store, &make_ack_success(3, true), "contract1".to_string()).unwrap();
    assert_eq!(pairs(&resp.attributes), vec![("ack".to_string(), "success".to_string())]);
    assert_eq!(resp.messages.len(), 1);
    assert_eq!(resp.messages[0], build_callback(3, "contract1".to_string()));
    assert_eq!(
        resp.messages[0],
        WasmMsg::Execute {
            contract_addr: "contract1".to_string(),
            msg: br#"{"first_increment_callback":{}}"#.to_vec()
        }
    );
    assert_eq!(store.get(&CALLBACK_COUNTER.to_string()), Some(1));
    ibc_packet_ack(&mut store, &make_ack_success(4, true), "contract1".to_string()).unwrap();
    assert_eq!(store.get(&CALLBACK_COUNTER.to_string()), Some(2));
}

#[test]
fn ack_without_callback_changes_nothing() {
    let mut store = CounterStore::new();
    let resp = ibc_packet_ack(&mut store, &make_ack_success(3, false), "contract1".to_string()).unwrap();
    assert_eq!(pairs(&resp.attributes), vec![("ack".to_string(), "success".to_string())]);
    assert!(resp.messages.is_empty());
    assert_eq!(store.get(&CALLBACK_COUNTER.to_string()), None);
}

#[test]
fn failure_ack_is_reported() {
    let mut store = CounterStore::new();
    let resp = ibc_packet_ack(&mut store, &make_ack_fail("bad".to_string()), "c1".to_string()).unwrap();
    assert_eq!(
        pairs(&resp.attributes),
        vec![("ack".to_string(), "failed".to_string()), ("error".to_string(), "bad".to_string())]
    );
    assert!(resp.messages.is_empty());
    assert_eq!(store.get(&CALLBACK_COUNTER.to_string()), None);
}

#[test]
fn undecodable_ack_is_an_error() {
    let mut store = CounterStore::new();
    assert_eq!(
        ibc_packet_ack(&mut store, b"not json", "c1".to_string()),
        Err(ContractError::InvalidAcknowledgement)
    );
    let bad_payload = Ack::Result(b"{\"count\":1}".to_vec()).to_bytes();
    assert_eq!(
        ibc_packet_ack(&mut store, &bad_payload, "c1".to_string()),
        Err(ContractError::InvalidAcknowledgement)
    );
}

#[test]
fn callback_counter_overflow_is_an_error() {
    let mut store = CounterStore::new();
    store.set(&CALLBACK_COUNTER.to_string(), u32::MAX);
    assert_eq!(
        ibc_packet_ack(&mut store, &make_ack_success(1, true), "c1".to_string()),
        Err(ContractError::CounterOverflow)
    );
    assert_eq!(execute_ibc_callback(&mut store), Err(ContractError::CounterOverflow));
}

#[test]
fn timeout_changes_nothing() {
    let resp = ibc_packet_timeout();
    assert_eq!(pairs(&resp.attributes), vec![("method".to_string(), "ibc_packet_timeout".to_string())]);
    assert!(resp.messages.is_empty());
}

#[test]
fn execute_increment_sends_packet() {
    let mut store = CounterStore::new();
    let msg = ExecuteMsg::Increment { channel: "chan-9".to_string(), callback: true };
    let resp = execute(&mut store, 1_000, msg).unwrap();
    assert_eq!(
        resp.messages,
        vec![IbcMsg::SendPacket {
            channel_id: "chan-9".to_string(),
            data: br#"{"increment":{"callback":true}}"#.to_vec(),
            timeout_nanos: 300_000_001_000
        }]
    );
    assert_eq!(
        pairs(&resp.attributes),
        vec![
            ("method".to_string(), "execute_increment".to_string()),
            ("channel".to_string(), "chan-9".to_string())
        ]
    );
}

#[test]
fn first_increment_callback_counts() {
    let mut store = CounterStore::new();
    let resp = execute(&mut store, 0, ExecuteMsg::FirstIncrementCallback {}).unwrap();
    assert_eq!(resp.attributes[1].value, "1");
    assert_eq!(query_count(&store, &CALLBACK_COUNTER.to_string()).count, 1);
}

#[test]
fn packet_codec() {
    assert_eq!(
        IbcExecuteMsg::Increment { callback: false }.to_bytes(),
        br#"{"increment":{"callback":false}}"#.to_vec()
    );
    assert_eq!(
        IbcExecuteMsg::from_bytes(br#"{"increment":{"callback":true}}"#),
        Some(IbcExecuteMsg::Increment { callback: true })
    );
    assert_eq!(IbcExecuteMsg::from_bytes(b"{\"increment\":{\"callback\":1}}"), None);
}

#[test]
fn store_basics() {
    let mut s = CounterStore::new();
    let a = "a".to_string();
    let b = "b".to_string();
    assert_eq!(s.get(&a), None);
    s.set(&a, 3);
    s.set(&b, 4);
    s.set(&a, 5);
    assert_eq!(s.get(&a), Some(5));
    assert_eq!(s.get(&b), Some(4));
    s.remove(&a);
    assert_eq!(s.get(&a), None);
    assert_eq!(s.get(&b), Some(4));
    s.remove(&a);
    assert_eq!(s.get(&b), Some(4));
}

#[test]
fn decimal_text_writes_numbers() {
    assert_eq!(decimal_text(0), "0");
    assert_eq!(decimal_text(7), "7");
    assert_eq!(decimal_text(10), "10");
    assert_eq!(decimal_text(1234567), "1234567");
    assert_eq!(decimal_text(u32::MAX), "4294967295");
}

#[test]
fn increment_reports_new_count() {
    let mut store = CounterStore::new();
    store.set(&"c".to_string(), 41);
    let resp = execute_increment(&mut store, "c".to_string(), false).unwrap();
    assert_eq!(
        pairs(&resp.attributes),
        vec![
            ("method".to_string(), "execute_increment".to_string()),
            ("count".to_string(), "42".to_string())
        ]
    );
    let packet = IbcExecuteMsg::Increment { callback: true }.to_bytes();
    let r = ibc_packet_receive(&mut store, "c".to_string(), &packet);
    assert_eq!(r.attributes[1].value, "43");
}

#[test]
fn callbacks_report_new_count() {
    let mut store = CounterStore::new();
    let resp = execute_ibc_callback(&mut store).unwrap();
    assert_eq!(
        pairs(&resp.attributes),
        vec![
            ("method".to_string(), "execute_ibc_callback".to_string()),
            ("count".to_string(), "1".to_string())
        ]
    );
    let resp = execute_acknowledge_callback(&mut store).unwrap();
    assert_eq!(pairs(&resp.attributes), vec![("count".to_string(), "2".to_string())]);
    assert!(resp.messages.is_empty());
    let resp = execute(&mut store, 0, ExecuteMsg::FirstIncrementCallback {}).unwrap();
    assert_eq!(resp.attributes[1].value, "3");
}
