use vstd::prelude::*;

use crate::hash::BlockHash;

verus! {

/// How many trailing block hashes must stay readable: the reach of the EVM's
/// `BLOCKHASH` opcode.
pub const HASH_WINDOW: u64 = 256;

/// A failure reported by the storage engine while it was being read.
#[derive(Clone, Debug, PartialEq, Eq)]
pub struct StorageFault {
    pub message: String,
}

/// Why the trailing hash window of a database is not usable.
#[derive(Clone, Debug, PartialEq, Eq)]
pub enum HistoricalBlockError {
    /// The storage engine failed while a hash was being read.
    ProviderError(StorageFault),
    /// The hash of `missing_hash_block` could not be found although the
    /// database reports `latest_block` as its last block.
    MissingHash { missing_hash_block: u64, latest_block: u64 },
}

/// Number of heights the scan below `latest` reads: `min(latest, 256)`.
pub open spec fn window_len(latest: u64) -> u64 {
    if latest < HASH_WINDOW {
        latest
    } else {
        HASH_WINDOW
    }
}

/// The first height found missing from `present`, reading `latest - i`,
/// `latest - i - 1`, ... down to the bottom of the window.
pub open spec fn first_missing_from(latest: u64, i: u64, present: Set<u64>) -> Option<u64>
    decreases window_len(latest) - i,
{
    if i >= window_len(latest) {
        None
    } else if !present.contains((latest - i) as u64) {
        Some((latest - i) as u64)
    } else {
        first_missing_from(latest, (i + 1) as u64, present)
    }
}

/// What the scan of a database whose last block is `latest` and whose stored
/// hashes are those of the heights in `present` concludes.
pub open spec fn health_spec(latest: u64, present: Set<u64>) -> Result<(), HistoricalBlockError> {
    match first_missing_from(latest, 0, present) {
        None => Ok(()),
        Some(m) => Err(HistoricalBlockError::MissingHash { missing_hash_block: m, latest_block: latest }),
    }
}

/// Reads before position `c` that all succeeded do not change where the scan
/// first finds a gap.
proof fn lemma_scan_skips_present(latest: u64, i: u64, c: u64, present: Set<u64>)
    requires
        i <= c <= window_len(latest),
        forall|h: u64| latest - c < h <= latest - i ==> present.contains(h),
    ensures
        first_missing_from(latest, i, present) == first_missing_from(latest, c, present),
    decreases c - i,
{
    if i < c {
        assert(present.contains((latest - i) as u64));
        lemma_scan_skips_present(latest, (i + 1) as u64, c, present);
    }
}

/// Whether `reply` is a successful read of height `h` from a database holding
/// the hashes of the heights in `present`.
pub open spec fn reply_agrees(
    reply: Result<Option<BlockHash>, StorageFault>,
    present: Set<u64>,
    h: u64,
) -> bool {
    match reply {
        Ok(found) => found is Some <==> present.contains(h),
        Err(_) => false,
    }
}

/// The scan of the hash window below a database's last block, one read at a time.
#[derive(Clone, Copy, Debug, PartialEq, Eq, Structural)]
pub struct HealthScan {
    /// The database's last block.
    pub latest_block: u64,
    /// How many heights, from the top down, were read and found present.
    pub checked: u64,
}

/// What the scan wants next: the hash of a height, or nothing more.
#[derive(Debug, PartialEq, Eq)]
pub enum ScanStep {
    ReadHash(u64),
    Finished(Result<(), HistoricalBlockError>),
}

impl HealthScan {
    pub open spec fn wf(&self) -> bool {
        self.checked <= window_len(self.latest_block)
    }

    pub open spec fn is_done(&self) -> bool {
        self.checked == window_len(self.latest_block)
    }

    /// The height whose hash the scan reads next.
    pub open spec fn next_height(&self) -> u64 {
        (self.latest_block - self.checked) as u64
    }

    /// Every height read so far is in `present`.
    pub open spec fn agrees_with(&self, present: Set<u64>) -> bool {
        forall|h: u64| self.latest_block - self.checked < h <= self.latest_block ==> present.contains(h)
    }

    pub open spec fn step_spec(&self) -> ScanStep {
        if self.is_done() {
            ScanStep::Finished(Ok(()))
        } else {
            ScanStep::ReadHash(self.next_height())
        }
    }

    pub fn new(latest_block: u64) -> (r: HealthScan)
        ensures
            r.latest_block == latest_block,
            r.checked == 0,
            r.wf(),
    {
        HealthScan { latest_block, checked: 0 }
    }

    pub fn window(&self) -> (r: u64)
        ensures
            r == window_len(self.latest_block),
    {
        if self.latest_block < HASH_WINDOW {
            self.latest_block
        } else {
            HASH_WINDOW
        }
    }

    /// What a scan that has not been answered yet asks for.
    pub fn first_step(&self) -> (r: ScanStep)
        requires
            self.wf(),
        ensures
            r == self.step_spec(),
    {
        if self.checked == self.window() {
            ScanStep::Finished(Ok(()))
        } else {
            ScanStep::ReadHash(self.latest_block - self.checked)
        }
    }
}

/// Takes the storage engine's answer for the height the scan asked for, and
/// says what the scan wants next or how it ended: the first height found
/// missing, counting down from the last block, ends it with `MissingHash`; a
/// storage failure ends it with `ProviderError`; once `min(latest, 256)`
/// heights were found present it ends with `Ok`.
pub fn check_block_hash_reader_health(
    scan: &mut HealthScan,
    reply: Result<Option<BlockHash>, StorageFault>,
) -> (r: ScanStep)
    requires
        old(scan).wf(),
        !old(scan).is_done(),
    ensures
        final(scan).latest_block == old(scan).latest_block,
        final(scan).wf(),
        match reply {
            Err(e) => r == ScanStep::Finished(Err(HistoricalBlockError::ProviderError(e)))
                && *final(scan) == *old(scan),
            Ok(None) => r == ScanStep::Finished(
                Err(
                    HistoricalBlockError::MissingHash {
                        missing_hash_block: old(scan).next_height(),
                        latest_block: old(scan).latest_block,
                    },
                ),
            ) && *final(scan) == *old(scan),
            Ok(Some(_)) => final(scan).checked == old(scan).checked + 1 && r == final(scan).step_spec(),
        },
        forall|present: Set<u64>|
            #![trigger old(scan).agrees_with(present)]
            old(scan).agrees_with(present) && reply_agrees(reply, present, old(scan).next_height())
                ==> match r {
                ScanStep::Finished(x) => x == health_spec(old(scan).latest_block, present),
                ScanStep::ReadHash(_) => final(scan).agrees_with(present),
            },
{
    let latest = scan.latest_block;
    let missing = latest - scan.checked;
    let ghost c = scan.checked;
    proof {
        assert forall|present: Set<u64>| old(scan).agrees_with(present) implies first_missing_from(
            latest,
            0,
            present,
        ) == first_missing_from(latest, c, present) by {
            lemma_scan_skips_present(latest, 0, c, present);
        }
    }
    match reply {
        Err(e) => ScanStep::Finished(Err(HistoricalBlockError::ProviderError(e))),
        Ok(None) => {
            proof {
                assert forall|present: Set<u64>|
                    old(scan).agrees_with(present) && !present.contains(missing) implies first_missing_from(
                        latest,
                        c,
                        present,
                    ) == Some(missing) by {}
            }
            ScanStep::Finished(
                Err(HistoricalBlockError::MissingHash { missing_hash_block: missing, latest_block: latest }),
            )
        },
        Ok(Some(_)) => {
            scan.checked = scan.checked + 1;
            proof {
                assert forall|present: Set<u64>|
                    old(scan).agrees_with(present) && present.contains(old(scan).next_height())
                        implies scan.agrees_with(present) by {
                    assert forall|h: u64| latest - scan.checked < h <= latest implies present.contains(h) by {
                        if h == latest - c {
                        } else {
                            assert(latest - c < h);
                        }
                    }
                }
            }
            proof {
                assert forall|present: Set<u64>|
                    old(scan).agrees_with(present) && present.contains(missing) implies first_missing_from(
                        latest,
                        c,
                        present,
                    ) == first_missing_from(latest, scan.checked, present) by {}
            }
            scan.first_step()
        },
    }
}

/// What the scan from position `i` down concludes, in terms of the heights it
/// can still read: `latest - i` down to just above `latest - window_len(latest)`.
proof fn lemma_scan_from(latest: u64, i: u64, present: Set<u64>)
    requires
        i <= window_len(latest),
    ensures
        first_missing_from(latest, i, present) is None <==> forall|h: u64|
            latest - window_len(latest) < h <= latest - i ==> present.contains(h),
        match first_missing_from(latest, i, present) {
            Some(m) => {
                &&& latest - window_len(latest) < m <= latest - i
                &&& !present.contains(m)
                &&& forall|h: u64| m < h <= latest - i ==> present.contains(h)
            },
            None => true,
        },
    decreases window_len(latest) - i,
{
    if i < window_len(latest) {
        lemma_scan_from(latest, (i + 1) as u64, present);
        if present.contains((latest - i) as u64) {
            assert forall|h: u64|
                latest - window_len(latest) < h <= latest - i && (forall|g: u64|
                    latest - window_len(latest) < g <= latest - (i + 1) ==> present.contains(g))
                    implies present.contains(h) by {
                if h != latest - i {
                    assert(h <= latest - (i + 1));
                }
            }
        }
    }
}

/// The scan reads exactly the `min(latest, 256)` heights ending at `latest`:
/// it passes if and only if every one of them is present, and heights outside
/// that window never change what it concludes.
pub proof fn lemma_scan_covers_window(latest: u64, present: Set<u64>, other: Set<u64>)
    ensures
        latest <= HASH_WINDOW ==> window_len(latest) == latest,
        latest > HASH_WINDOW ==> window_len(latest) == HASH_WINDOW,
        health_spec(latest, present) is Ok <==> forall|h: u64|
            latest - window_len(latest) < h <= latest ==> present.contains(h),
        (forall|h: u64| latest - window_len(latest) < h <= latest ==> (present.contains(h) <==> other.contains(h)))
            ==> health_spec(latest, present) == health_spec(latest, other),
{
    lemma_scan_from(latest, 0, present);
    lemma_scan_from(latest, 0, other);
    if forall|h: u64| latest - window_len(latest) < h <= latest ==> (present.contains(h) <==> other.contains(h)) {
        match (first_missing_from(latest, 0, present), first_missing_from(latest, 0, other)) {
            (Some(m1), Some(m2)) => {
                if m1 < m2 {
                    assert(present.contains(m2));
                } else if m2 < m1 {
                    assert(other.contains(m1));
                }
            },
            (Some(m1), None) => {
                assert(other.contains(m1));
            },
            (None, Some(m2)) => {
                assert(present.contains(m2));
            },
            (None, None) => {},
        }
    }
}

/// The scan reports the first gap met counting down from `latest`: the highest
/// missing height of the window, above which every height is present.
pub proof fn lemma_first_gap_is_highest(latest: u64, present: Set<u64>)
    ensures
        match health_spec(latest, present) {
            Err(HistoricalBlockError::MissingHash { missing_hash_block: m, latest_block }) => {
                &&& latest_block == latest
                &&& latest - window_len(latest) < m <= latest
                &&& !present.contains(m)
                &&& forall|h: u64| m < h <= latest ==> present.contains(h)
            },
            Err(_) => false,
            Ok(()) => true,
        },
{
    lemma_scan_from(latest, 0, present);
}

} // verus!
