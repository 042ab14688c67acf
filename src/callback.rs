//! The follow-up action that a successful acknowledgement may trigger.
use vstd::prelude::*;
use crate::msg::{first_increment_callback_bytes, ExecuteMsg};
use crate::response::WasmMsg;

verus! {

/// Whether `m` calls `contract_addr` with the first-increment callback.
pub open spec fn is_callback_to(m: WasmMsg, contract_addr: Seq<char>) -> bool {
    match m {
        WasmMsg::Execute { contract_addr: a, msg } => a@ == contract_addr && msg@
            == first_increment_callback_bytes(),
    }
}

/// The callback action addressed to `contract_addr`. The count is accepted
/// for callers that pick among callbacks by count; there is one callback.
pub fn build_callback(_count: u32, contract_addr: String) -> (r: WasmMsg)
    ensures
        is_callback_to(r, contract_addr@),
{
    let msg = ExecuteMsg::first_increment_callback_msg();
    WasmMsg::Execute { contract_addr, msg }
}

} // verus!
