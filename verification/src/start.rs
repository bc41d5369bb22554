//! The options of the node's `start` command.
use vstd::prelude::*;

verus! {

/// Options of the `start` command that runs a node.
#[derive(Debug, Clone, Default, PartialEq)]
pub struct StartCmd {
    pub start_height: Option<u64>,
    /// Address of the staking contract for dynamic validator sets
    pub staking_contract: Option<String>,
    /// Host for the execution layer (default: localhost)
    pub el_host: String,
    /// Port offset for execution layer ports (default: 0)
    pub el_port_offset: u16,
    /// Path to JWT secret file for engine API authentication
    pub jwt_secret_path: String,
}

} // verus!
