//! The errors of the protocol.
use vstd::prelude::*;

verus! {

/// Why a handshake step, a packet or an acknowledgement was refused.
#[derive(Clone, Debug, PartialEq, Eq)]
pub enum ContractError {
    /// The channel asked for ordered delivery; only unordered channels work.
    OrderedChannel,
    /// A version string differs from the protocol's own.
    InvalidVersion { actual: String, expected: String },
    /// A packet body is not an encoded request.
    InvalidPacket,
    /// An acknowledgement is not an encoded envelope or success payload.
    InvalidAcknowledgement,
    /// A counter is at its largest value and cannot be incremented.
    CounterOverflow,
}

impl ContractError {
    /// The human-readable description of the error.
    pub open spec fn text(&self) -> Seq<char> {
        match self {
            ContractError::OrderedChannel => "only unordered channels are supported"@,
            ContractError::InvalidVersion { actual, expected } => "invalid IBC channel version - got ("@
                + actual@ + "), expected ("@ + expected@ + ")"@,
            ContractError::InvalidPacket => "Error parsing into type IbcExecuteMsg: invalid packet"@,
            ContractError::InvalidAcknowledgement => "Error parsing into type Ack: invalid acknowledgement"@,
            ContractError::CounterOverflow => "Overflow: cannot increment counter"@,
        }
    }

    /// The human-readable description of the error.
    pub fn message(&self) -> (r: String)
        ensures
            r@ == self.text(),
            r@.len() > 0,
    {
        proof {
            reveal_strlit("only unordered channels are supported");
            reveal_strlit("invalid IBC channel version - got (");
            reveal_strlit("Error parsing into type IbcExecuteMsg: invalid packet");
            reveal_strlit("Error parsing into type Ack: invalid acknowledgement");
            reveal_strlit("Overflow: cannot increment counter");
        }
        match self {
            ContractError::OrderedChannel => String::from_str("only unordered channels are supported"),
            ContractError::InvalidVersion { actual, expected } => {
                let mut s = String::from_str("invalid IBC channel version - got (");
                s.append(actual.as_str());
                s.append("), expected (");
                s.append(expected.as_str());
                s.append(")");
                s
            },
            ContractError::InvalidPacket => String::from_str(
                "Error parsing into type IbcExecuteMsg: invalid packet",
            ),
            ContractError::InvalidAcknowledgement => String::from_str(
                "Error parsing into type Ack: invalid acknowledgement",
            ),
            ContractError::CounterOverflow => String::from_str("Overflow: cannot increment counter"),
        }
    }
}

} // verus!
