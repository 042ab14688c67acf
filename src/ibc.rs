//! The channel lifecycle and the packet lifecycle: handshake, receive,
//! acknowledgement and timeout.
use vstd::prelude::*;
use crate::ack::{
    ack_bytes, failure_ack_bytes, make_ack_fail, make_ack_success, payload_bytes, success_ack_bytes,
    Ack, AckModel, IncrementMsgAcknowledgement,
};
use crate::callback::{build_callback, is_callback_to};
use crate::error::ContractError;
use crate::msg::{requested_callback, IbcExecuteMsg};
use crate::response::{attr, attrs_view, Attribute, IbcBasicResponse, IbcReceiveResponse, WasmMsg};
use crate::number::{dec_chars, decimal_text};
use crate::store::{count_in, CounterStore, CALLBACK_COUNTER};

verus! {

/// The protocol version that both ends of a channel must speak.
pub const IBC_VERSION: &'static str = "simple-ibc-callback";

/// Whether a channel delivers its packets in order.
#[derive(Clone, Copy, Debug, PartialEq, Eq, Structural)]
pub enum IbcOrder {
    Unordered,
    Ordered,
}

/// The channel as the handshake sees it.
#[derive(Clone, Debug, PartialEq, Eq)]
pub struct IbcChannel {
    pub channel_id: String,
    pub order: IbcOrder,
    pub version: String,
}

/// The characters of an optional string.
pub open spec fn opt_view(v: Option<&String>) -> Option<Seq<char>> {
    match v {
        Some(s) => Some(s@),
        None => None,
    }
}

/// Whether the handshake accepts the channel: unordered, speaking the
/// protocol's version, with a counterparty that speaks it too where its
/// version is known.
pub open spec fn handshake_accepts(c: IbcChannel, counterparty: Option<Seq<char>>) -> bool {
    c.order == IbcOrder::Unordered && c.version@ == IBC_VERSION@ && (counterparty matches Some(
        v,
    ) ==> v == IBC_VERSION@)
}

/// Whether `e` is the error that the handshake gives for the channel: the
/// order is checked first, then the local version, then the counterparty's.
pub open spec fn handshake_refusal(
    c: IbcChannel,
    counterparty: Option<Seq<char>>,
    e: ContractError,
) -> bool {
    if c.order != IbcOrder::Unordered {
        e == ContractError::OrderedChannel
    } else if c.version@ != IBC_VERSION@ {
        e matches ContractError::InvalidVersion { actual, expected } && actual@ == c.version@
            && expected@ == IBC_VERSION@
    } else {
        counterparty matches Some(v) && v != IBC_VERSION@ && (
        e matches ContractError::InvalidVersion { actual, expected } && actual@ == v && expected@
            == IBC_VERSION@)
    }
}

/// Checks the order and the versions of a channel in the handshake.
pub fn validate_order_and_version(
    channel: &IbcChannel,
    counterparty_version: Option<&String>,
) -> (r: Result<(), ContractError>)
    ensures
        r is Ok <==> handshake_accepts(*channel, opt_view(counterparty_version)),
        r matches Err(e) ==> handshake_refusal(*channel, opt_view(counterparty_version), e),
{
    if channel.order != IbcOrder::Unordered {
        return Err(ContractError::OrderedChannel);
    }
    let expected = String::from_str(IBC_VERSION);
    if channel.version != expected {
        return Err(ContractError::InvalidVersion { actual: channel.version.clone(), expected });
    }
    match counterparty_version {
        Some(v) => {
            if *v != expected {
                return Err(ContractError::InvalidVersion { actual: v.clone(), expected });
            }
        },
        None => {},
    }
    Ok(())
}

/// The `OpenInit` and `OpenTry` steps of the handshake.
pub fn ibc_channel_open(
    channel: &IbcChannel,
    counterparty_version: Option<&String>,
) -> (r: Result<(), ContractError>)
    ensures
        r is Ok <==> handshake_accepts(*channel, opt_view(counterparty_version)),
        r matches Err(e) ==> handshake_refusal(*channel, opt_view(counterparty_version), e),
{
    validate_order_and_version(channel, counterparty_version)
}

/// The `OpenAck` and `OpenConfirm` steps of the handshake: on success the
/// channel's counter starts at zero.
pub fn ibc_channel_connect(
    store: &mut CounterStore,
    channel: &IbcChannel,
    counterparty_version: Option<&String>,
) -> (r: Result<IbcBasicResponse, ContractError>)
    requires
        old(store).wf(),
    ensures
        final(store).wf(),
        r is Ok <==> handshake_accepts(*channel, opt_view(counterparty_version)),
        r matches Err(e) ==> handshake_refusal(*channel, opt_view(counterparty_version), e)
            && final(store)@ == old(store)@,
        r matches Ok(resp) ==> final(store)@ == old(store)@.insert(channel.channel_id@, 0u32)
            && resp.messages@.len() == 0 && attrs_view(resp.attributes@) == seq![
            ("method"@, "ibc_channel_connect"@),
            ("channel_id"@, channel.channel_id@),
        ],
{
    match validate_order_and_version(channel, counterparty_version) {
        Err(e) => Err(e),
        Ok(()) => {
            let id = channel.channel_id.clone();
            store.set(&id, 0);
            let mut attributes: Vec<Attribute> = Vec::new();
            attributes.push(attr("method", String::from_str("ibc_channel_connect")));
            attributes.push(attr("channel_id", id));
            let resp = IbcBasicResponse { attributes, messages: Vec::new() };
            assert(attrs_view(resp.attributes@) =~= seq![
                ("method"@, "ibc_channel_connect"@),
                ("channel_id"@, channel.channel_id@),
            ]);
            Ok(resp)
        },
    }
}

/// Closing a channel removes its counter.
pub fn ibc_channel_close(store: &mut CounterStore, channel: &IbcChannel) -> (r: Result<
    IbcBasicResponse,
    ContractError,
>)
    requires
        old(store).wf(),
    ensures
        final(store).wf(),
        final(store)@ == old(store)@.remove(channel.channel_id@),
        r matches Ok(resp) && resp.messages@.len() == 0 && attrs_view(resp.attributes@) == seq![
            ("method"@, "ibc_channel_close"@),
            ("channel"@, channel.channel_id@),
        ],
{
    let id = channel.channel_id.clone();
    store.remove(&id);
    let mut attributes: Vec<Attribute> = Vec::new();
    attributes.push(attr("method", String::from_str("ibc_channel_close")));
    attributes.push(attr("channel", id));
    let resp = IbcBasicResponse { attributes, messages: Vec::new() };
    assert(attrs_view(resp.attributes@) =~= seq![
        ("method"@, "ibc_channel_close"@),
        ("channel"@, channel.channel_id@),
    ]);
    Ok(resp)
}

/// Adds one to the counter under `key`, absent reading as zero; fails where
/// the counter is at its largest value.
pub fn increment_counter(store: &mut CounterStore, key: &String) -> (r: Result<u32, ContractError>)
    requires
        old(store).wf(),
    ensures
        final(store).wf(),
        r is Ok <==> old(store).value_of(key@) < u32::MAX,
        r matches Ok(n) ==> n == old(store).value_of(key@) + 1 && final(store)@ == old(store)@.insert(
            key@,
            n,
        ),
        r matches Err(e) ==> e == ContractError::CounterOverflow && final(store)@ == old(store)@,
{
    let current = match store.get(key) {
        Some(v) => v,
        None => 0,
    };
    if current == u32::MAX {
        return Err(ContractError::CounterOverflow);
    }
    let next = current + 1;
    store.set(key, next);
    Ok(next)
}

/// The counters after a packet with body `data` arrives on channel `ch`:
/// a request increments the channel's counter unless it is at its largest
/// value; anything else changes nothing.
pub open spec fn counters_after_receive(
    m: Map<Seq<char>, u32>,
    ch: Seq<char>,
    data: Seq<u8>,
) -> Map<Seq<char>, u32> {
    if requested_callback(data) is Some && count_in(m, ch) < u32::MAX {
        m.insert(ch, (count_in(m, ch) + 1) as u32)
    } else {
        m
    }
}

/// The acknowledgement that a packet with body `data` on channel `ch` gets.
pub open spec fn receive_ack(m: Map<Seq<char>, u32>, ch: Seq<char>, data: Seq<u8>) -> Seq<u8> {
    match requested_callback(data) {
        None => failure_ack_bytes(ContractError::InvalidPacket.text()),
        Some(cb) => if count_in(m, ch) < u32::MAX {
            success_ack_bytes((count_in(m, ch) + 1) as u32, cb)
        } else {
            failure_ack_bytes(ContractError::CounterOverflow.text())
        },
    }
}

/// The error that processing a packet with body `data` on channel `ch`
/// meets, if any.
pub open spec fn receive_error(m: Map<Seq<char>, u32>, ch: Seq<char>, data: Seq<u8>) -> Option<
    ContractError,
> {
    if requested_callback(data) is None {
        Some(ContractError::InvalidPacket)
    } else if count_in(m, ch) == u32::MAX {
        Some(ContractError::CounterOverflow)
    } else {
        None
    }
}

/// Increments the channel's counter and acknowledges with the new count.
pub fn execute_increment(store: &mut CounterStore, channel: String, callback: bool) -> (r: Result<
    IbcReceiveResponse,
    ContractError,
>)
    requires
        old(store).wf(),
    ensures
        final(store).wf(),
        r is Ok <==> old(store).value_of(channel@) < u32::MAX,
        r matches Ok(resp) ==> final(store)@ == old(store)@.insert(
            channel@,
            (old(store).value_of(channel@) + 1) as u32,
        ) && resp.acknowledgement@ == success_ack_bytes(
            (old(store).value_of(channel@) + 1) as u32,
            callback,
        ) && attrs_view(resp.attributes@) == seq![
            ("method"@, "execute_increment"@),
            ("count"@, dec_chars((old(store).value_of(channel@) + 1) as nat)),
        ],
        r matches Err(e) ==> e == ContractError::CounterOverflow && final(store)@ == old(store)@,
{
    let count = match increment_counter(store, &channel) {
        Ok(n) => n,
        Err(e) => return Err(e),
    };
    let ack = make_ack_success(count, callback);
    let mut attributes: Vec<Attribute> = Vec::new();
    attributes.push(attr("method", String::from_str("execute_increment")));
    attributes.push(attr("count", decimal_text(count)));
    assert(attrs_view(attributes@) =~= seq![
        ("method"@, "execute_increment"@),
        ("count"@, dec_chars(count as nat)),
    ]);
    Ok(IbcReceiveResponse { attributes, acknowledgement: ack })
}

/// Reads the packet body and carries out the request.
pub fn do_ibc_packet_receive(store: &mut CounterStore, channel: String, data: &[u8]) -> (r: Result<
    IbcReceiveResponse,
    ContractError,
>)
    requires
        old(store).wf(),
    ensures
        final(store).wf(),
        final(store)@ == counters_after_receive(old(store)@, channel@, data@),
        r matches Ok(resp) ==> resp.acknowledgement@ == receive_ack(old(store)@, channel@, data@)
            && attrs_view(resp.attributes@) == seq![
            ("method"@, "execute_increment"@),
            ("count"@, dec_chars((old(store).value_of(channel@) + 1) as nat)),
        ],
        r matches Err(e) ==> failure_ack_bytes(e.text()) == receive_ack(
            old(store)@,
            channel@,
            data@,
        ) && receive_error(old(store)@, channel@, data@) == Some(e),
        r is Ok <==> receive_error(old(store)@, channel@, data@) is None,
{
    match IbcExecuteMsg::from_bytes(data) {
        None => Err(ContractError::InvalidPacket),
        Some(IbcExecuteMsg::Increment { callback }) => execute_increment(store, channel, callback),
    }
}

/// Receives a packet on channel `channel`. It always yields an
/// acknowledgement: a failure to process the packet becomes a failure
/// acknowledgement that carries the error's description.
pub fn ibc_packet_receive(store: &mut CounterStore, channel: String, data: &[u8]) -> (r:
    IbcReceiveResponse)
    requires
        old(store).wf(),
    ensures
        final(store).wf(),
        final(store)@ == counters_after_receive(old(store)@, channel@, data@),
        r.acknowledgement@ == receive_ack(old(store)@, channel@, data@),
        receive_error(old(store)@, channel@, data@) matches Some(e) ==> attrs_view(r.attributes@)
            == seq![("method"@, "ibc_packet_receive"@), ("error"@, e.text())],
        receive_error(old(store)@, channel@, data@) is None ==> attrs_view(r.attributes@) == seq![
            ("method"@, "execute_increment"@),
            ("count"@, dec_chars((old(store).value_of(channel@) + 1) as nat)),
        ],
{
    match do_ibc_packet_receive(store, channel, data) {
        Ok(resp) => resp,
        Err(e) => {
            let ghost text = e.text();
            let mut attributes: Vec<Attribute> = Vec::new();
            attributes.push(attr("method", String::from_str("ibc_packet_receive")));
            attributes.push(attr("error", e.message()));
            assert(attrs_view(attributes@) =~= seq![
                ("method"@, "ibc_packet_receive"@),
                ("error"@, text),
            ]);
            IbcReceiveResponse { attributes, acknowledgement: make_ack_fail(e.message()) }
        },
    }
}

/// The reserved key of the local callback counter.
pub open spec fn callback_key() -> Seq<char> {
    CALLBACK_COUNTER@
}

/// Counts a callback that a successful acknowledgement asked for.
pub fn execute_acknowledge_callback(store: &mut CounterStore) -> (r: Result<
    IbcBasicResponse,
    ContractError,
>)
    requires
        old(store).wf(),
    ensures
        final(store).wf(),
        r is Ok <==> old(store).value_of(callback_key()) < u32::MAX,
        r matches Ok(resp) ==> final(store)@ == old(store)@.insert(
            callback_key(),
            (old(store).value_of(callback_key()) + 1) as u32,
        ) && resp.messages@.len() == 0 && attrs_view(resp.attributes@) == seq![
            ("count"@, dec_chars((old(store).value_of(callback_key()) + 1) as nat)),
        ],
        r matches Err(e) ==> e == ContractError::CounterOverflow && final(store)@ == old(store)@,
{
    let key = String::from_str(CALLBACK_COUNTER);
    let count = match increment_counter(store, &key) {
        Ok(n) => n,
        Err(e) => return Err(e),
    };
    let mut attributes: Vec<Attribute> = Vec::new();
    attributes.push(attr("count", decimal_text(count)));
    assert(attrs_view(attributes@) =~= seq![("count"@, dec_chars(count as nat))]);
    Ok(IbcBasicResponse { attributes, messages: Vec::new() })
}

/// Handles the acknowledgement of a packet this side sent. A success that
/// asks for a callback counts it under the reserved key and hands back the
/// callback action addressed to `contract_addr`; a failure is reported in
/// the attributes. An acknowledgement that does not decode is an error.
pub fn ibc_packet_ack(store: &mut CounterStore, data: &[u8], contract_addr: String) -> (r: Result<
    IbcBasicResponse,
    ContractError,
>)
    requires
        old(store).wf(),
    ensures
        final(store).wf(),
        forall|c: u32|
            #![trigger success_ack_bytes(c, true)]
            success_ack_bytes(c, true) == data@ ==> if old(store).value_of(callback_key())
                < u32::MAX {
                r matches Ok(resp) && final(store)@ == old(store)@.insert(
                    callback_key(),
                    (old(store).value_of(callback_key()) + 1) as u32,
                ) && resp.messages@.len() == 1 && is_callback_to(resp.messages@[0], contract_addr@)
                    && attrs_view(resp.attributes@) == seq![("ack"@, "success"@)]
            } else {
                r == Err::<IbcBasicResponse, ContractError>(ContractError::CounterOverflow)
                    && final(store)@ == old(store)@
            },
        forall|c: u32|
            #![trigger success_ack_bytes(c, false)]
            success_ack_bytes(c, false) == data@ ==> (r matches Ok(resp) && final(store)@ == old(
                store,
            )@ && resp.messages@.len() == 0 && attrs_view(resp.attributes@) == seq![
                ("ack"@, "success"@),
            ]),
        forall|m: Seq<char>|
            #![trigger failure_ack_bytes(m)]
            failure_ack_bytes(m) == data@ ==> (r matches Ok(resp) && final(store)@ == old(store)@
                && resp.messages@.len() == 0 && attrs_view(resp.attributes@) == seq![
                ("ack"@, "failed"@),
                ("error"@, m),
            ]),
        (forall|a: AckModel| #[trigger] ack_bytes(a) != data@) ==> r == Err::<
            IbcBasicResponse,
            ContractError,
        >(ContractError::InvalidAcknowledgement) && final(store)@ == old(store)@,
        forall|p: Seq<u8>|
            #![trigger ack_bytes(AckModel::Result(p))]
            ack_bytes(AckModel::Result(p)) == data@ && (forall|c: u32, cb: bool|
                #[trigger] payload_bytes(c, cb) != p) ==> r == Err::<
                IbcBasicResponse,
                ContractError,
            >(ContractError::InvalidAcknowledgement) && final(store)@ == old(store)@,
{
    let ack = match Ack::from_bytes(data) {
        Some(a) => a,
        None => return Err(ContractError::InvalidAcknowledgement),
    };
    match ack {
        Ack::Result(payload) => {
            let content = match IncrementMsgAcknowledgement::from_bytes(payload.as_slice()) {
                Some(c) => c,
                None => return Err(ContractError::InvalidAcknowledgement),
            };
            let mut attributes: Vec<Attribute> = Vec::new();
            attributes.push(attr("ack", String::from_str("success")));
            let mut messages: Vec<WasmMsg> = Vec::new();
            if content.callback {
                match execute_acknowledge_callback(store) {
                    Ok(_) => {},
                    Err(e) => return Err(e),
                }
                messages.push(build_callback(content.count, contract_addr));
            }
            let resp = IbcBasicResponse { attributes, messages };
            assert(attrs_view(resp.attributes@) =~= seq![("ack"@, "success"@)]);
            Ok(resp)
        },
        Ack::Error(e) => {
            let ghost m = e@;
            let mut attributes: Vec<Attribute> = Vec::new();
            attributes.push(attr("ack", String::from_str("failed")));
            attributes.push(attr("error", e));
            let resp = IbcBasicResponse { attributes, messages: Vec::new() };
            assert(attrs_view(resp.attributes@) =~= seq![("ack"@, "failed"@), ("error"@, m)]);
            Ok(resp)
        },
    }
}

/// A packet this side sent timed out. Nothing is undone: the counters stay
/// as they are.
pub fn ibc_packet_timeout() -> (r: IbcBasicResponse)
    ensures
        r.messages@.len() == 0,
        attrs_view(r.attributes@) == seq![("method"@, "ibc_packet_timeout"@)],
{
    let mut attributes: Vec<Attribute> = Vec::new();
    attributes.push(attr("method", String::from_str("ibc_packet_timeout")));
    let r = IbcBasicResponse { attributes, messages: Vec::new() };
    assert(attrs_view(r.attributes@) =~= seq![("method"@, "ibc_packet_timeout"@)]);
    r
}

/// The counters after the packets `datas` arrive in turn on channel `ch`.
pub open spec fn counters_after_receives(
    m: Map<Seq<char>, u32>,
    ch: Seq<char>,
    datas: Seq<Seq<u8>>,
) -> Map<Seq<char>, u32>
    decreases datas.len(),
{
    if datas.len() == 0 {
        m
    } else {
        counters_after_receive(counters_after_receives(m, ch, datas.drop_last()), ch, datas.last())
    }
}

/// On a freshly connected channel (counter seeded at zero), after `n` valid
/// requests the counter is `n`, and the `n`-th request is acknowledged with
/// count `n` and its own callback flag.
pub proof fn lemma_nth_receive_counts(m: Map<Seq<char>, u32>, ch: Seq<char>, datas: Seq<Seq<u8>>)
    requires
        datas.len() <= u32::MAX,
        forall|i: int| 0 <= i < datas.len() ==> (#[trigger] requested_callback(datas[i])) is Some,
    ensures
        count_in(counters_after_receives(m.insert(ch, 0u32), ch, datas), ch) == datas.len(),
        datas.len() > 0 ==> receive_ack(
            counters_after_receives(m.insert(ch, 0u32), ch, datas.drop_last()),
            ch,
            datas.last(),
        ) == success_ack_bytes(datas.len() as u32, requested_callback(datas.last())->Some_0),
    decreases datas.len(),
{
    if datas.len() > 0 {
        let prev = datas.drop_last();
        assert forall|i: int| 0 <= i < prev.len() implies (#[trigger] requested_callback(
            prev[i],
        )) is Some by {
            assert(prev[i] == datas[i]);
        }
        lemma_nth_receive_counts(m, ch, prev);
        assert(requested_callback(datas[datas.len() - 1]) is Some);
    }
}

/// Every error has a non-empty description.
pub proof fn lemma_error_text_nonempty(e: ContractError)
    ensures
        e.text().len() > 0,
{
    reveal_strlit("only unordered channels are supported");
    reveal_strlit("invalid IBC channel version - got (");
    reveal_strlit("Error parsing into type IbcExecuteMsg: invalid packet");
    reveal_strlit("Error parsing into type Ack: invalid acknowledgement");
    reveal_strlit("Overflow: cannot increment counter");
}

/// A packet body that is no request leaves the counters as they are and is
/// answered by a failure acknowledgement with a non-empty message.
pub proof fn lemma_malformed_packet_fails(m: Map<Seq<char>, u32>, ch: Seq<char>, data: Seq<u8>)
    requires
        requested_callback(data) is None,
    ensures
        counters_after_receive(m, ch, data) == m,
        exists|msg: Seq<char>| msg.len() > 0 && receive_ack(m, ch, data) == failure_ack_bytes(msg),
{
    lemma_error_text_nonempty(ContractError::InvalidPacket);
    let msg = ContractError::InvalidPacket.text();
    assert(receive_ack(m, ch, data) == failure_ack_bytes(msg));
}

/// After a channel is closed its count reads as zero, as for a channel that
/// was never opened.
pub proof fn lemma_closed_channel_reads_zero(m: Map<Seq<char>, u32>, ch: Seq<char>)
    ensures
        count_in(m.remove(ch), ch) == 0,
        !m.remove(ch).contains_key(ch),
{
}

} // verus!
