//! The messages of the protocol and their wire encoding.
use vstd::prelude::*;
use crate::bytes::{bytes_eq};

verus! {

/// The message that sets the library up; it carries nothing.
#[derive(Clone, Debug, PartialEq, Eq)]
pub struct InstantiateMsg {}

/// The local actions.
#[derive(Clone, Debug, PartialEq, Eq)]
pub enum ExecuteMsg {
    /// Ask the counterparty on `channel` to increment its counter, and to ask
    /// back for a callback when `callback` is set.
    Increment { channel: String, callback: bool },
    /// The callback that a successful acknowledgement may trigger.
    FirstIncrementCallback {},
}

/// The request that travels inside a packet.
#[derive(Clone, Copy, Debug, PartialEq, Eq)]
pub enum IbcExecuteMsg {
    Increment { callback: bool },
}

/// The queries.
#[derive(Clone, Debug, PartialEq, Eq)]
pub enum QueryMsg {
    /// The counter of the channel (or reserved key) named by `count`.
    GetCount { count: String },
}

/// The answer to a count query.
#[derive(Clone, Copy, Debug, PartialEq, Eq)]
pub struct GetCountResponse {
    pub count: u32,
}

/// `{"increment":{"callback":true}}`
pub open spec fn packet_true() -> Seq<u8> {
    seq![123u8, 34, 105, 110, 99, 114, 101, 109, 101, 110, 116, 34, 58, 123, 34, 99, 97, 108, 108,
        98, 97, 99, 107, 34, 58, 116, 114, 117, 101, 125, 125]
}

/// `{"increment":{"callback":false}}`
pub open spec fn packet_false() -> Seq<u8> {
    seq![123u8, 34, 105, 110, 99, 114, 101, 109, 101, 110, 116, 34, 58, 123, 34, 99, 97, 108, 108,
        98, 97, 99, 107, 34, 58, 102, 97, 108, 115, 101, 125, 125]
}

/// The wire form of a packet request.
pub open spec fn packet_bytes(m: IbcExecuteMsg) -> Seq<u8> {
    match m {
        IbcExecuteMsg::Increment { callback } => if callback {
            packet_true()
        } else {
            packet_false()
        },
    }
}

/// The callback flag of the request that `data` encodes, if it encodes one.
pub open spec fn requested_callback(data: Seq<u8>) -> Option<bool> {
    if data == packet_true() {
        Some(true)
    } else if data == packet_false() {
        Some(false)
    } else {
        None
    }
}

/// `{"first_increment_callback":{}}`
pub open spec fn first_increment_callback_bytes() -> Seq<u8> {
    seq![123u8, 34, 102, 105, 114, 115, 116, 95, 105, 110, 99, 114, 101, 109, 101, 110, 116, 95,
        99, 97, 108, 108, 98, 97, 99, 107, 34, 58, 123, 125, 125]
}

fn packet_true_exec() -> (r: Vec<u8>)
    ensures
        r@ == packet_true(),
{
    let r: Vec<u8> = vec![123u8, 34, 105, 110, 99, 114, 101, 109, 101, 110, 116, 34, 58, 123, 34, 99, 97, 108, 108,
        98, 97, 99, 107, 34, 58, 116, 114, 117, 101, 125, 125];
    assert(r@ =~= packet_true());
    r
}

fn packet_false_exec() -> (r: Vec<u8>)
    ensures
        r@ == packet_false(),
{
    let r: Vec<u8> = vec![123u8, 34, 105, 110, 99, 114, 101, 109, 101, 110, 116, 34, 58, 123, 34, 99, 97, 108, 108,
        98, 97, 99, 107, 34, 58, 102, 97, 108, 115, 101, 125, 125];
    assert(r@ =~= packet_false());
    r
}

impl IbcExecuteMsg {
    /// The wire form of the request.
    pub fn to_bytes(&self) -> (r: Vec<u8>)
        ensures
            r@ == packet_bytes(*self),
    {
        match self {
            IbcExecuteMsg::Increment { callback } => if *callback {
                packet_true_exec()
            } else {
                packet_false_exec()
            },
        }
    }

    /// Reads a packet request; accepts exactly the wire forms of requests.
    pub fn from_bytes(b: &[u8]) -> (r: Option<IbcExecuteMsg>)
        ensures
            r matches Some(m) ==> packet_bytes(m) == b@,
            forall|m: IbcExecuteMsg| packet_bytes(m) == b@ ==> r == Some(m),
            r == (match requested_callback(b@) {
                Some(callback) => Some(IbcExecuteMsg::Increment { callback }),
                None => None,
            }),
    {
        let t = packet_true_exec();
        if bytes_eq(b, t.as_slice()) {
            return Some(IbcExecuteMsg::Increment { callback: true });
        }
        let f = packet_false_exec();
        if bytes_eq(b, f.as_slice()) {
            return Some(IbcExecuteMsg::Increment { callback: false });
        }
        None
    }
}

impl ExecuteMsg {
    /// The wire form of the callback action, `{"first_increment_callback":{}}`.
    pub fn first_increment_callback_msg() -> (r: Vec<u8>)
        ensures
            r@ == first_increment_callback_bytes(),
    {
        let r: Vec<u8> = vec![123u8, 34, 102, 105, 114, 115, 116, 95, 105, 110, 99, 114, 101, 109, 101, 110, 116, 95,
            99, 97, 108, 108, 98, 97, 99, 107, 34, 58, 123, 125, 125];
        assert(r@ =~= first_increment_callback_bytes());
        r
    }
}

} // verus!
