//! The local actions and the count query.
use vstd::prelude::*;
use crate::ack::count_head;
use crate::bytes::extend;
use crate::error::ContractError;
use crate::ibc::{callback_key, increment_counter};
use crate::msg::{packet_bytes, ExecuteMsg, GetCountResponse, IbcExecuteMsg, QueryMsg};
use crate::number::{dec, dec_chars, decimal_text, write_dec};
use crate::response::{attr, attrs_view, Attribute, IbcMsg, Response};
use crate::store::{CounterStore, CALLBACK_COUNTER};

verus! {

/// How long a sent packet may wait for delivery, in nanoseconds (300 s).
pub const PACKET_LIFETIME_NANOS: u64 = 300_000_000_000;

/// Whether `m` sends the increment request `callback` over `channel`, timing
/// out at `timeout`.
pub open spec fn is_increment_packet(m: IbcMsg, channel: Seq<char>, callback: bool, timeout: int) -> bool {
    match m {
        IbcMsg::SendPacket { channel_id, data, timeout_nanos } => channel_id@ == channel && data@
            == packet_bytes(IbcExecuteMsg::Increment { callback }) && timeout_nanos == timeout,
    }
}

/// Carries out a local action at block time `block_time_nanos`.
pub fn execute(store: &mut CounterStore, block_time_nanos: u64, msg: ExecuteMsg) -> (r: Result<
    Response,
    ContractError,
>)
    requires
        old(store).wf(),
        msg is Increment ==> block_time_nanos + PACKET_LIFETIME_NANOS <= u64::MAX,
    ensures
        final(store).wf(),
        msg matches ExecuteMsg::Increment { channel, callback } ==> (r matches Ok(resp)
            && final(store)@ == old(store)@ && resp.messages@.len() == 1 && is_increment_packet(
            resp.messages@[0],
            channel@,
            callback,
            block_time_nanos + PACKET_LIFETIME_NANOS,
        ) && attrs_view(resp.attributes@) == seq![
            ("method"@, "execute_increment"@),
            ("channel"@, channel@),
        ]),
        msg is FirstIncrementCallback ==> (r is Ok <==> old(store).value_of(callback_key())
            < u32::MAX),
        msg is FirstIncrementCallback ==> (r matches Ok(resp) ==> final(store)@ == old(store)@.insert(
            callback_key(),
            (old(store).value_of(callback_key()) + 1) as u32,
        ) && resp.messages@.len() == 0 && attrs_view(resp.attributes@) == seq![
            ("method"@, "execute_ibc_callback"@),
            ("count"@, dec_chars((old(store).value_of(callback_key()) + 1) as nat)),
        ]),
        msg is FirstIncrementCallback ==> (r matches Err(e) ==> e == ContractError::CounterOverflow
            && final(store)@ == old(store)@),
{
    match msg {
        ExecuteMsg::Increment { channel, callback } => {
            let ghost ch = channel@;
            let data = IbcExecuteMsg::Increment { callback }.to_bytes();
            let mut attributes: Vec<Attribute> = Vec::new();
            attributes.push(attr("method", String::from_str("execute_increment")));
            attributes.push(attr("channel", channel.clone()));
            let mut messages: Vec<IbcMsg> = Vec::new();
            messages.push(
                IbcMsg::SendPacket {
                    channel_id: channel,
                    data,
                    timeout_nanos: block_time_nanos + PACKET_LIFETIME_NANOS,
                },
            );
            let resp = Response { attributes, messages };
            assert(attrs_view(resp.attributes@) =~= seq![
                ("method"@, "execute_increment"@),
                ("channel"@, ch),
            ]);
            Ok(resp)
        },
        ExecuteMsg::FirstIncrementCallback {  } => execute_ibc_callback(store),
    }
}

/// The callback action: counts it under the reserved key.
pub fn execute_ibc_callback(store: &mut CounterStore) -> (r: Result<Response, ContractError>)
    requires
        old(store).wf(),
    ensures
        final(store).wf(),
        r is Ok <==> old(store).value_of(callback_key()) < u32::MAX,
        r matches Ok(resp) ==> final(store)@ == old(store)@.insert(
            callback_key(),
            (old(store).value_of(callback_key()) + 1) as u32,
        ) && resp.messages@.len() == 0 && attrs_view(resp.attributes@) == seq![
            ("method"@, "execute_ibc_callback"@),
            ("count"@, dec_chars((old(store).value_of(callback_key()) + 1) as nat)),
        ],
        r matches Err(e) ==> e == ContractError::CounterOverflow && final(store)@ == old(store)@,
{
    let key = String::from_str(CALLBACK_COUNTER);
    let count = match increment_counter(store, &key) {
        Ok(n) => n,
        Err(e) => return Err(e),
    };
    let mut attributes: Vec<Attribute> = Vec::new();
    attributes.push(attr("method", String::from_str("execute_ibc_callback")));
    attributes.push(attr("count", decimal_text(count)));
    assert(attrs_view(attributes@) =~= seq![
        ("method"@, "execute_ibc_callback"@),
        ("count"@, dec_chars(count as nat)),
    ]);
    Ok(Response { attributes, messages: Vec::new() })
}

/// The wire form of a count answer, `{"count":<n>}`.
pub open spec fn count_response_bytes(n: u32) -> Seq<u8> {
    count_head() + dec(n as nat) + seq![125u8]
}

/// Answers a query, encoded.
pub fn query(store: &CounterStore, msg: QueryMsg) -> (r: Vec<u8>)
    requires
        store.wf(),
    ensures
        msg matches QueryMsg::GetCount { count } && r@ == count_response_bytes(
            store.value_of(count@),
        ),
{
    match msg {
        QueryMsg::GetCount { count } => {
            let resp = query_count(store, &count);
            let mut r: Vec<u8> = vec![123u8, 34, 99, 111, 117, 110, 116, 34, 58];
            assert(r@ =~= count_head());
            write_dec(&mut r, resp.count);
            let tail: Vec<u8> = vec![125u8];
            extend(&mut r, tail.as_slice());
            r
        },
    }
}

/// The counter under `counter`; zero where there is none.
pub fn query_count(store: &CounterStore, counter: &String) -> (r: GetCountResponse)
    requires
        store.wf(),
    ensures
        r.count == store.value_of(counter@),
{
    let count = match store.get(counter) {
        Some(v) => v,
        None => 0,
    };
    GetCountResponse { count }
}

} // verus!
