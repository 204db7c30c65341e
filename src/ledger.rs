use vstd::prelude::*;

use crate::hash::BlockHash;

verus! {

/// A head announced by the network and not yet confirmed persisted, with the
/// time it arrived (milliseconds on a monotonic clock).
#[derive(Clone, Copy, Debug, PartialEq, Eq, Structural)]
pub struct PendingHeader {
    pub height: u64,
    pub hash: BlockHash,
    pub arrival: u64,
}

/// Heights strictly increase along `s`.
pub open spec fn sorted_by_height(s: Seq<PendingHeader>) -> bool {
    forall|i: int, j: int| 0 <= i < j < s.len() ==> s[i].height < s[j].height
}

/// `before` splits into `out`, the entries at or below `h`, followed by
/// `after`, the entries above it.
pub open spec fn drained_split(
    before: Seq<PendingHeader>,
    out: Seq<PendingHeader>,
    after: Seq<PendingHeader>,
    h: u64,
) -> bool {
    &&& out + after == before
    &&& forall|i: int| 0 <= i < out.len() ==> out[i].height <= h
    &&& forall|i: int| 0 <= i < after.len() ==> after[i].height > h
}

/// `now - then`, or zero for a `then` in the future.
pub open spec fn elapsed(now: u64, then: u64) -> u64 {
    if now >= then {
        (now - then) as u64
    } else {
        0
    }
}

/// Buffered heads, one per height, in increasing height order.
pub struct PendingLedger {
    entries: Vec<PendingHeader>,
}

impl View for PendingLedger {
    type V = Seq<PendingHeader>;

    closed spec fn view(&self) -> Seq<PendingHeader> {
        self.entries@
    }
}

impl PendingLedger {
    pub open spec fn wf(&self) -> bool {
        sorted_by_height(self@)
    }

    pub fn new() -> (r: PendingLedger)
        ensures
            r@ == Seq::<PendingHeader>::empty(),
            r.wf(),
    {
        PendingLedger { entries: Vec::new() }
    }

    pub fn len(&self) -> (r: usize)
        ensures
            r == self@.len(),
    {
        self.entries.len()
    }

    /// The buffered entries, lowest height first.
    pub fn entries(&self) -> (r: &Vec<PendingHeader>)
        ensures
            r@ == self@,
    {
        &self.entries
    }

    /// Buffers the head `(height, hash)` as arrived at `now`. An entry already
    /// held for `height` is replaced: the entries are the old ones but the one
    /// at `height`, plus the new one.
    pub fn record(&mut self, height: u64, hash: BlockHash, now: u64)
        requires
            old(self).wf(),
        ensures
            final(self).wf(),
            forall|e: PendingHeader|
                #[trigger] final(self)@.contains(e) <==> (e == (PendingHeader { height, hash, arrival: now })
                    || (old(self)@.contains(e) && e.height != height)),
    {
        let entry = PendingHeader { height, hash, arrival: now };
        let ghost s = self.entries@;
        let mut i: usize = 0;
        while i < self.entries.len() && self.entries[i].height < height
            invariant
                0 <= i <= s.len(),
                self.entries@ == s,
                forall|j: int| 0 <= j < i ==> s[j].height < height,
            decreases s.len() - i,
        {
            i = i + 1;
        }
        if i < self.entries.len() && self.entries[i].height == height {
            self.entries.set(i, entry);
            proof {
                let t = self.entries@;
                assert forall|a: int, b: int| 0 <= a < b < t.len() implies t[a].height < t[b].height by {
                    if a != i && b != i {
                        assert(s[a].height < s[b].height);
                    } else if a == i {
                        assert(s[a].height < s[b].height);
                    } else {
                        assert(s[a].height < s[b].height);
                    }
                }
                assert forall|e: PendingHeader|
                    t.contains(e) <==> (e == entry || (s.contains(e) && e.height != height)) by {
                    if t.contains(e) {
                        let k = choose|k: int| 0 <= k < t.len() && t[k] == e;
                        if k != i {
                            assert(s[k] == e);
                            assert(s.contains(e));
                            if k < i {
                                assert(s[k].height < s[i as int].height);
                            } else {
                                assert(s[i as int].height < s[k].height);
                            }
                        }
                    }
                    if e == entry {
                        assert(t[i as int] == e);
                    } else if s.contains(e) && e.height != height {
                        let k = choose|k: int| 0 <= k < s.len() && s[k] == e;
                        assert(k != i);
                        assert(t[k] == e);
                    }
                }
            }
        } else {
            proof {
                assert forall|j: int| i <= j < s.len() implies s[j].height > height by {
                    assert(s[i as int].height <= s[j].height);
                }
            }
            self.entries.insert(i, entry);
            proof {
                let t = self.entries@;
                s.insert_ensures(i as int, entry);
                assert(t == s.insert(i as int, entry));
                assert forall|a: int, b: int| 0 <= a < b < t.len() implies t[a].height < t[b].height by {
                    if b < i {
                        assert(s[a].height < s[b].height);
                    } else if b == i {
                    } else if a < i {
                        assert(t[b] == s[b - 1]);
                    } else if a == i {
                        assert(t[b] == s[b - 1]);
                    } else {
                        assert(t[a] == s[a - 1]);
                        assert(t[b] == s[b - 1]);
                        assert(s[a - 1].height < s[b - 1].height);
                    }
                }
                assert forall|e: PendingHeader|
                    t.contains(e) <==> (e == entry || (s.contains(e) && e.height != height)) by {
                    if t.contains(e) {
                        let k = choose|k: int| 0 <= k < t.len() && t[k] == e;
                        if k < i {
                            assert(s[k] == e);
                            assert(s.contains(e));
                        } else if k > i {
                            assert(s[k - 1] == e);
                            assert(s.contains(e));
                        }
                    }
                    if e == entry {
                        assert(t[i as int] == e);
                    } else if s.contains(e) && e.height != height {
                        let k = choose|k: int| 0 <= k < s.len() && s[k] == e;
                        if k < i {
                            assert(t[k] == e);
                        } else {
                            assert(t[k + 1] == e);
                        }
                    }
                }
            }
        }
    }

    /// Removes and returns every entry at or below `height`, lowest first.
    pub fn drain_up_to(&mut self, height: u64) -> (r: Vec<PendingHeader>)
        requires
            old(self).wf(),
        ensures
            final(self).wf(),
            sorted_by_height(r@),
            drained_split(old(self)@, r@, final(self)@, height),
    {
        let ghost s = self.entries@;
        let mut k: usize = 0;
        while k < self.entries.len() && self.entries[k].height <= height
            invariant
                0 <= k <= s.len(),
                self.entries@ == s,
                forall|j: int| 0 <= j < k ==> s[j].height <= height,
            decreases s.len() - k,
        {
            k = k + 1;
        }
        let mut rest = self.entries.split_off(k);
        std::mem::swap(&mut self.entries, &mut rest);
        proof {
            assert forall|j: int| 0 <= j < self.entries@.len() implies self.entries@[j].height > height by {
                assert(self.entries@[j] == s[k + j]);
                if j > 0 {
                    assert(s[k as int].height < s[k + j].height);
                }
            }
            assert(rest@ + self.entries@ =~= s);
        }
        rest
    }
}

/// `r` is the largest `elapsed(now, arrival)` among the entries of `batch`, or
/// zero for an empty batch.
pub open spec fn is_max_latency(batch: Seq<PendingHeader>, now: u64, r: u64) -> bool {
    &&& forall|i: int| 0 <= i < batch.len() ==> r >= elapsed(now, #[trigger] batch[i].arrival)
    &&& batch.len() == 0 ==> r == 0
    &&& batch.len() > 0 ==> exists|i: int| 0 <= i < batch.len() && r == elapsed(now, #[trigger] batch[i].arrival)
}

/// The longest wait, at `now`, of the entries of `batch`.
pub fn max_latency(batch: &Vec<PendingHeader>, now: u64) -> (r: u64)
    ensures
        is_max_latency(batch@, now, r),
{
    let mut best: u64 = 0;
    let mut i: usize = 0;
    while i < batch.len()
        invariant
            0 <= i <= batch@.len(),
            forall|j: int| 0 <= j < i ==> best >= elapsed(now, #[trigger] batch@[j].arrival),
            i == 0 ==> best == 0,
            i > 0 ==> exists|j: int| 0 <= j < i && best == elapsed(now, #[trigger] batch@[j].arrival),
        decreases batch@.len() - i,
    {
        let arrival = batch[i].arrival;
        let waited: u64 = if now >= arrival {
            now - arrival
        } else {
            0
        };
        if i == 0 || waited > best {
            best = waited;
        }
        i = i + 1;
    }
    best
}

/// Draining twice at the same height: the second drain returns nothing and
/// leaves the ledger as the first left it, so no entry is returned twice.
pub proof fn lemma_drain_twice_is_empty(
    before: Seq<PendingHeader>,
    first: Seq<PendingHeader>,
    middle: Seq<PendingHeader>,
    second: Seq<PendingHeader>,
    after: Seq<PendingHeader>,
    h: u64,
)
    requires
        drained_split(before, first, middle, h),
        drained_split(middle, second, after, h),
    ensures
        second.len() == 0,
        after == middle,
{
    if second.len() > 0 {
        assert((second + after)[0] == second[0]);
        assert(middle[0].height > h);
    }
    assert(second =~= Seq::<PendingHeader>::empty());
    assert(after =~= second + after);
}

/// The latency reported for a batch is at least the wait `now - arrival` of
/// every entry in it (and, being unsigned, never negative).
pub proof fn lemma_latency_covers_entry(batch: Seq<PendingHeader>, now: u64, reported: u64, i: int)
    requires
        0 <= i < batch.len(),
        is_max_latency(batch, now, reported),
    ensures
        batch[i].arrival <= now ==> reported >= now - batch[i].arrival,
{
    assert(reported >= elapsed(now, batch[i].arrival));
}

} // verus!
