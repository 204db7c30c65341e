use vstd::prelude::*;

verus! {

/// What the network node says of its own sync progress.
#[derive(Clone, Copy, Debug, PartialEq, Eq, Structural)]
pub enum SyncStatus {
    Synced,
    Syncing { current_block: u64, highest_block: u64 },
}

/// What the sync gate does after a status poll.
#[derive(Clone, Copy, Debug, PartialEq, Eq, Structural)]
pub enum SyncAction {
    /// The node is synced: monitoring may start.
    Start,
    /// The node is still syncing: wait one poll interval and ask again.
    PollAgain,
}

pub fn next_sync_action(status: &SyncStatus) -> (r: SyncAction)
    ensures
        r == SyncAction::Start <==> *status == SyncStatus::Synced,
{
    match status {
        SyncStatus::Synced => SyncAction::Start,
        SyncStatus::Syncing { .. } => SyncAction::PollAgain,
    }
}

} // verus!
