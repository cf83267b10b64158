//! Node configuration.

use vstd::prelude::*;

verus! {

/// How a node is launched: addresses, tick period, and the optional
/// base-chain hooks.
#[derive(Debug)]
pub struct ValidatorConfig {
    pub rpc_addr: String,
    pub ws_addr: String,
    pub block_time_ms: u64,
    pub l1_rpc_url: Option<String>,
    pub delegation_program_id: Option<String>,
}

impl Default for ValidatorConfig {
    fn default() -> (r: Self)
        ensures
            r.rpc_addr@ == "127.0.0.1:8899"@,
            r.ws_addr@ == "127.0.0.1:8900"@,
            r.block_time_ms == crate::BLOCK_TIME_MS,
            r.l1_rpc_url is None,
            r.delegation_program_id is None,
    {
        ValidatorConfig {
            rpc_addr: String::from_str("127.0.0.1:8899"),
            ws_addr: String::from_str("127.0.0.1:8900"),
            block_time_ms: crate::BLOCK_TIME_MS,
            l1_rpc_url: None,
            delegation_program_id: None,
        }
    }
}

} // verus!
