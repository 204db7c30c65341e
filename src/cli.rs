use vstd::prelude::*;

verus! {

/// The networks whose genesis parameters the database can be opened with.
#[derive(Clone, Copy, Debug, PartialEq, Eq, Structural)]
pub enum Chain {
    Mainnet,
    Sepolia,
    Holesky,
}

/// The monitor's settings.
#[derive(Clone, Debug)]
pub struct Args {
    /// WebSocket RPC URL for block subscriptions.
    pub rpc_ws: String,
    /// Path to the node's data directory.
    pub db_path: String,
    /// The network the database belongs to.
    pub chain: Chain,
    /// Wait for persistence events before verifying buffered heads.
    pub subscribe_persisted_blocks: bool,
}

} // verus!
