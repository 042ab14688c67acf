//! What the library hands back to the host: attributes to log, messages to
//! dispatch and acknowledgements to commit.
use vstd::prelude::*;

verus! {

/// A key-value pair that describes what an operation did.
#[derive(Clone, Debug, PartialEq, Eq)]
pub struct Attribute {
    pub key: String,
    pub value: String,
}

/// The attributes as pairs of character sequences.
pub open spec fn attrs_view(a: Seq<Attribute>) -> Seq<(Seq<char>, Seq<char>)> {
    a.map_values(|x: Attribute| (x.key@, x.value@))
}

/// The attribute `key = value`.
pub fn attr(key: &str, value: String) -> (r: Attribute)
    ensures
        r.key@ == key@,
        r.value@ == value@,
{
    Attribute { key: String::from_str(key), value }
}

/// A follow-up action: a call of a contract with an encoded message and no
/// funds attached.
#[derive(Clone, Debug, PartialEq, Eq)]
pub enum WasmMsg {
    Execute { contract_addr: String, msg: Vec<u8> },
}

/// A packet to send over a channel, with the time (in nanoseconds) after
/// which it times out.
#[derive(Clone, Debug, PartialEq, Eq)]
pub enum IbcMsg {
    SendPacket { channel_id: String, data: Vec<u8>, timeout_nanos: u64 },
}

/// The outcome of a local action.
#[derive(Clone, Debug, PartialEq, Eq)]
pub struct Response {
    pub attributes: Vec<Attribute>,
    pub messages: Vec<IbcMsg>,
}

/// The outcome of a handshake step, an acknowledgement or a timeout.
#[derive(Clone, Debug, PartialEq, Eq)]
pub struct IbcBasicResponse {
    pub attributes: Vec<Attribute>,
    pub messages: Vec<WasmMsg>,
}

/// The outcome of a packet receive: the acknowledgement to commit.
#[derive(Clone, Debug, PartialEq, Eq)]
pub struct IbcReceiveResponse {
    pub attributes: Vec<Attribute>,
    pub acknowledgement: Vec<u8>,
}

} // verus!
