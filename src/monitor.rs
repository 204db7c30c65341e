use vstd::prelude::*;

use crate::hash::BlockHash;
use crate::ledger::{drained_split, sorted_by_height, PendingHeader, PendingLedger};

verus! {

/// One event of the merged network feed.
#[derive(Clone, Copy, Debug, PartialEq, Eq, Structural)]
pub enum ChainEvent {
    /// A new canonical head.
    Head { height: u64, hash: BlockHash },
    /// The remote node durably persisted the chain up to `height`.
    Persisted { height: u64, hash: BlockHash },
}

/// The decisions of the monitoring loop: which announced blocks to verify, and
/// when.
pub struct Monitor {
    /// Heads wait in the ledger for a persistence event (both subscriptions
    /// are on); otherwise each head is verified as it arrives.
    pub buffer_heads: bool,
    pub ledger: PendingLedger,
}

impl Monitor {
    pub open spec fn wf(&self) -> bool {
        self.ledger.wf()
    }

    pub fn new(buffer_heads: bool) -> (r: Monitor)
        ensures
            r.buffer_heads == buffer_heads,
            r.ledger@ == Seq::<PendingHeader>::empty(),
            r.wf(),
    {
        Monitor { buffer_heads, ledger: PendingLedger::new() }
    }

    /// Whether more heads wait for persistence than `limit`: the ledger has
    /// no bound of its own, so a feed that stops confirming persistence
    /// shows here.
    pub fn backlog_exceeds(&self, limit: usize) -> (r: bool)
        ensures
            r == (self.ledger@.len() > limit),
    {
        self.ledger.len() > limit
    }

    /// Takes one event, arrived at `now`, and returns the blocks to verify
    /// now, lowest first. With heads buffered, a head is recorded in the
    /// ledger and a persistence event at `h` drains every entry at or below
    /// `h`; otherwise a head is verified at once.
    pub fn on_event(&mut self, event: ChainEvent, now: u64) -> (r: Vec<PendingHeader>)
        requires
            old(self).wf(),
        ensures
            final(self).wf(),
            final(self).buffer_heads == old(self).buffer_heads,
            sorted_by_height(r@),
            match event {
                ChainEvent::Head { height, hash } => if old(self).buffer_heads {
                    &&& r@.len() == 0
                    &&& forall|e: PendingHeader|
                        #[trigger] final(self).ledger@.contains(e) <==> (e == (PendingHeader {
                            height,
                            hash,
                            arrival: now,
                        }) || (old(self).ledger@.contains(e) && e.height != height))
                } else {
                    &&& r@ == seq![PendingHeader { height, hash, arrival: now }]
                    &&& final(self).ledger@ == old(self).ledger@
                },
                ChainEvent::Persisted { height, .. } => if old(self).buffer_heads {
                    drained_split(old(self).ledger@, r@, final(self).ledger@, height)
                } else {
                    &&& r@.len() == 0
                    &&& final(self).ledger@ == old(self).ledger@
                },
            },
    {
        match event {
            ChainEvent::Head { height, hash } => {
                if self.buffer_heads {
                    self.ledger.record(height, hash, now);
                    Vec::new()
                } else {
                    let mut out: Vec<PendingHeader> = Vec::new();
                    out.push(PendingHeader { height, hash, arrival: now });
                    proof {
                        assert(out@ =~= seq![PendingHeader { height, hash, arrival: now }]);
                    }
                    out
                }
            },
            ChainEvent::Persisted { height, .. } => {
                if self.buffer_heads {
                    self.ledger.drain_up_to(height)
                } else {
                    Vec::new()
                }
            },
        }
    }
}

} // verus!
