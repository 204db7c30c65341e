use vstd::prelude::*;

use crate::hash::BlockHash;
use crate::integrity::{
    check_block_hash_reader_health, first_missing_from, lemma_scan_covers_window, reply_agrees, window_len, HealthScan,
    HistoricalBlockError, ScanStep, StorageFault,
};

verus! {

/// How the check of one announced block ended.
#[derive(Clone, Copy, Debug, PartialEq, Eq, Structural)]
pub enum VerificationOutcome {
    /// The database holds the announced hash at the announced height.
    Matched { height: u64, hash: BlockHash },
    /// The database holds another hash at the announced height.
    Mismatched { height: u64, rpc_hash: BlockHash, db_hash: BlockHash },
    /// The database has not reached the announced height yet.
    DbBehind { db_height: u64, rpc_height: u64 },
    /// The database is past the announced height but has no hash for it.
    HashMissing { height: u64 },
    /// The hash window below the database's last block has a gap.
    IntegrityFailure { missing_height: u64, latest_height: u64 },
}

impl VerificationOutcome {
    /// Outcomes after which monitoring must stop: the two sources disagree, or
    /// the database cannot be trusted.
    pub open spec fn is_fatal_spec(&self) -> bool {
        match *self {
            VerificationOutcome::Mismatched { .. } => true,
            VerificationOutcome::HashMissing { .. } => true,
            VerificationOutcome::IntegrityFailure { .. } => true,
            _ => false,
        }
    }

    pub fn is_fatal(&self) -> (r: bool)
        ensures
            r == self.is_fatal_spec(),
    {
        match *self {
            VerificationOutcome::Mismatched { .. } => true,
            VerificationOutcome::HashMissing { .. } => true,
            VerificationOutcome::IntegrityFailure { .. } => true,
            _ => false,
        }
    }
}

/// Why a check could not reach an outcome.
#[derive(Clone, Debug, PartialEq, Eq)]
pub enum VerifyError {
    /// The storage engine failed while it was being read.
    Storage(StorageFault),
    /// The database has no hash for the block it reports as its last one.
    LatestHashMissing { db_height: u64 },
}

/// A read the check asks of a fresh read-only storage handle.
#[derive(Clone, Copy, Debug, PartialEq, Eq, Structural)]
pub enum StorageRead {
    LastBlockNumber,
    BlockHash(u64),
}

/// The storage engine's answer to a `StorageRead`.
#[derive(Debug, PartialEq, Eq)]
pub enum StorageReply {
    LastBlockNumber(Result<u64, StorageFault>),
    BlockHash(Result<Option<BlockHash>, StorageFault>),
}

/// What the check wants next: a read, or nothing more.
#[derive(Debug, PartialEq, Eq)]
pub enum VerifyStep {
    Read(StorageRead),
    Finished(Result<VerificationOutcome, VerifyError>),
}

/// Where a check stands.
#[derive(Clone, Copy, Debug, PartialEq, Eq, Structural)]
pub enum Phase {
    ReadingLast,
    /// The database is behind: its own last hash is read to prove it answers.
    Probing { db_height: u64 },
    Scanning { scan: HealthScan },
    ReadingTarget { db_height: u64 },
    Done,
}

/// The check of one announced `(height, rpc_hash)` against the database.
#[derive(Clone, Debug, PartialEq, Eq)]
pub struct BlockVerification {
    pub height: u64,
    pub rpc_hash: BlockHash,
    pub phase: Phase,
}

/// The stored hash at `h`, if any.
pub open spec fn lookup(store: Map<u64, BlockHash>, h: u64) -> Option<BlockHash> {
    if store.contains_key(h) {
        Some(store[h])
    } else {
        None
    }
}

/// The result of checking `(height, rpc_hash)` against a database whose last
/// block is `db` and whose stored hashes are `store`.
pub open spec fn verify_spec(height: u64, rpc_hash: BlockHash, db: u64, store: Map<u64, BlockHash>) -> Result<
    VerificationOutcome,
    VerifyError,
> {
    if db < height {
        if store.contains_key(db) {
            Ok(VerificationOutcome::DbBehind { db_height: db, rpc_height: height })
        } else {
            Err(VerifyError::LatestHashMissing { db_height: db })
        }
    } else {
        match first_missing_from(db, 0, store.dom()) {
            Some(m) => Ok(VerificationOutcome::IntegrityFailure { missing_height: m, latest_height: db }),
            None => match lookup(store, height) {
                None => Ok(VerificationOutcome::HashMissing { height }),
                Some(h) => if h == rpc_hash {
                    Ok(VerificationOutcome::Matched { height, hash: h })
                } else {
                    Ok(VerificationOutcome::Mismatched { height, rpc_hash, db_hash: h })
                },
            },
        }
    }
}

/// Whether `reply` is the answer of the database `(db, store)` to `read`.
pub open spec fn answers(read: StorageRead, reply: StorageReply, db: u64, store: Map<u64, BlockHash>) -> bool {
    match read {
        StorageRead::LastBlockNumber => reply == StorageReply::LastBlockNumber(Ok(db)),
        StorageRead::BlockHash(h) => reply == StorageReply::BlockHash(Ok(lookup(store, h))),
    }
}

/// Whether `reply` is of the kind `read` asks for.
pub open spec fn fits(read: StorageRead, reply: StorageReply) -> bool {
    match read {
        StorageRead::LastBlockNumber => reply is LastBlockNumber,
        StorageRead::BlockHash(_) => reply is BlockHash,
    }
}

impl BlockVerification {
    pub open spec fn wf(&self) -> bool {
        match self.phase {
            Phase::Scanning { scan } => scan.wf() && !scan.is_done(),
            _ => true,
        }
    }

    pub open spec fn is_finished(&self) -> bool {
        self.phase is Done
    }

    /// The read an unfinished check waits for.
    pub open spec fn pending_read(&self) -> StorageRead {
        match self.phase {
            Phase::ReadingLast => StorageRead::LastBlockNumber,
            Phase::Probing { db_height } => StorageRead::BlockHash(db_height),
            Phase::Scanning { scan } => StorageRead::BlockHash(scan.next_height()),
            Phase::ReadingTarget { .. } => StorageRead::BlockHash(self.height),
            Phase::Done => StorageRead::LastBlockNumber,
        }
    }

    /// Every answer so far came from the database `(db, store)`: then the
    /// check, carried on against that database, ends in `verify_spec`.
    pub open spec fn on_track(&self, db: u64, store: Map<u64, BlockHash>) -> bool {
        match self.phase {
            Phase::ReadingLast => true,
            Phase::Probing { db_height } => db_height == db && db < self.height,
            Phase::Scanning { scan } => scan.latest_block == db && db >= self.height
                && scan.agrees_with(store.dom()),
            Phase::ReadingTarget { db_height } => db_height == db && db >= self.height
                && first_missing_from(db, 0, store.dom()) is None,
            Phase::Done => false,
        }
    }

    /// An upper bound on the reads still to come.
    pub open spec fn reads_left(&self) -> nat {
        match self.phase {
            Phase::ReadingLast => 260,
            Phase::Probing { .. } => 1,
            Phase::Scanning { scan } => (window_len(scan.latest_block) - scan.checked + 1) as nat,
            Phase::ReadingTarget { .. } => 1,
            Phase::Done => 0,
        }
    }

    pub fn new(height: u64, rpc_hash: BlockHash) -> (r: BlockVerification)
        ensures
            r.height == height,
            r.rpc_hash == rpc_hash,
            r.phase == Phase::ReadingLast,
            r.wf(),
    {
        BlockVerification { height, rpc_hash, phase: Phase::ReadingLast }
    }

    /// The read the check waits for.
    pub fn next_read(&self) -> (r: StorageRead)
        requires
            self.wf(),
            !self.is_finished(),
        ensures
            r == self.pending_read(),
    {
        match &self.phase {
            Phase::ReadingLast => StorageRead::LastBlockNumber,
            Phase::Probing { db_height } => StorageRead::BlockHash(*db_height),
            Phase::Scanning { scan } => StorageRead::BlockHash(scan.latest_block - scan.checked),
            Phase::ReadingTarget { .. } => StorageRead::BlockHash(self.height),
            Phase::Done => StorageRead::LastBlockNumber,
        }
    }
}

/// Takes the storage engine's answer to the read the check asked for, and
/// says which read comes next or how the check ended.
///
/// The order is: the database's last block; if it is below the announced
/// height, the hash of that last block and `DbBehind`; otherwise the hash
/// window below the last block, from the top down, where a gap ends the check
/// with `IntegrityFailure`; then the hash at the announced height, which gives
/// `HashMissing`, `Matched` or `Mismatched`. A storage failure ends it at once.
pub fn process_block(v: &mut BlockVerification, reply: StorageReply) -> (r: VerifyStep)
    requires
        old(v).wf(),
        !old(v).is_finished(),
        fits(old(v).pending_read(), reply),
    ensures
        final(v).height == old(v).height,
        final(v).rpc_hash == old(v).rpc_hash,
        final(v).wf(),
        final(v).reads_left() < old(v).reads_left(),
        match r {
            VerifyStep::Read(q) => !final(v).is_finished() && q == final(v).pending_read(),
            VerifyStep::Finished(_) => final(v).is_finished(),
        },
        match reply {
            StorageReply::LastBlockNumber(Err(e)) => r == VerifyStep::Finished(Err(VerifyError::Storage(e))),
            StorageReply::BlockHash(Err(e)) => r == VerifyStep::Finished(Err(VerifyError::Storage(e))),
            _ => true,
        },
        forall|db: u64, store: Map<u64, BlockHash>|
            #![trigger old(v).on_track(db, store)]
            old(v).on_track(db, store) && answers(old(v).pending_read(), reply, db, store) ==> match r {
                VerifyStep::Finished(x) => x == verify_spec(old(v).height, old(v).rpc_hash, db, store),
                VerifyStep::Read(_) => final(v).on_track(db, store),
            },
{
    let height = v.height;
    let rpc_hash = v.rpc_hash;
    let phase = v.phase;
    match phase {
        Phase::ReadingLast => match reply {
            StorageReply::LastBlockNumber(Ok(db)) => {
                if db < height {
                    v.phase = Phase::Probing { db_height: db };
                    VerifyStep::Read(StorageRead::BlockHash(db))
                } else {
                    let scan = HealthScan::new(db);
                    if scan.window() == 0 {
                        v.phase = Phase::ReadingTarget { db_height: db };
                        VerifyStep::Read(StorageRead::BlockHash(height))
                    } else {
                        v.phase = Phase::Scanning { scan };
                        VerifyStep::Read(StorageRead::BlockHash(db))
                    }
                }
            },
            StorageReply::LastBlockNumber(Err(e)) => {
                v.phase = Phase::Done;
                VerifyStep::Finished(Err(VerifyError::Storage(e)))
            },
            // ruled out by `fits`
            StorageReply::BlockHash(_) => {
                v.phase = Phase::Done;
                VerifyStep::Read(StorageRead::LastBlockNumber)
            },
        },
        Phase::Probing { db_height } => {
            v.phase = Phase::Done;
            match reply {
                StorageReply::BlockHash(Ok(Some(_))) => VerifyStep::Finished(
                    Ok(VerificationOutcome::DbBehind { db_height, rpc_height: height }),
                ),
                StorageReply::BlockHash(Ok(None)) => VerifyStep::Finished(
                    Err(VerifyError::LatestHashMissing { db_height }),
                ),
                StorageReply::BlockHash(Err(e)) => VerifyStep::Finished(Err(VerifyError::Storage(e))),
                // ruled out by `fits`
                StorageReply::LastBlockNumber(_) => VerifyStep::Read(StorageRead::LastBlockNumber),
            }
        },
        Phase::Scanning { scan } => match reply {
            StorageReply::BlockHash(res) => {
                let mut next = scan;
                let ghost res_copy = res;
                let step = check_block_hash_reader_health(&mut next, res);
                proof {
                    assert forall|db: u64, store: Map<u64, BlockHash>|
                        old(v).on_track(db, store) && answers(old(v).pending_read(), reply, db, store)
                            implies reply_agrees(res_copy, store.dom(), scan.next_height()) by {}
                }
                match step {
                    ScanStep::ReadHash(h) => {
                        v.phase = Phase::Scanning { scan: next };
                        VerifyStep::Read(StorageRead::BlockHash(h))
                    },
                    ScanStep::Finished(Ok(())) => {
                        v.phase = Phase::ReadingTarget { db_height: scan.latest_block };
                        VerifyStep::Read(StorageRead::BlockHash(height))
                    },
                    ScanStep::Finished(Err(HistoricalBlockError::MissingHash { missing_hash_block, latest_block })) => {
                        v.phase = Phase::Done;
                        VerifyStep::Finished(
                            Ok(
                                VerificationOutcome::IntegrityFailure {
                                    missing_height: missing_hash_block,
                                    latest_height: latest_block,
                                },
                            ),
                        )
                    },
                    ScanStep::Finished(Err(HistoricalBlockError::ProviderError(e))) => {
                        v.phase = Phase::Done;
                        VerifyStep::Finished(Err(VerifyError::Storage(e)))
                    },
                }
            },
            // ruled out by `fits`
            StorageReply::LastBlockNumber(_) => {
                v.phase = Phase::Done;
                VerifyStep::Read(StorageRead::LastBlockNumber)
            },
        },
        Phase::ReadingTarget { .. } => {
            v.phase = Phase::Done;
            match reply {
                StorageReply::BlockHash(Ok(Some(db_hash))) => {
                    if db_hash == rpc_hash {
                        VerifyStep::Finished(Ok(VerificationOutcome::Matched { height, hash: db_hash }))
                    } else {
                        VerifyStep::Finished(
                            Ok(VerificationOutcome::Mismatched { height, rpc_hash, db_hash }),
                        )
                    }
                },
                StorageReply::BlockHash(Ok(None)) => VerifyStep::Finished(
                    Ok(VerificationOutcome::HashMissing { height }),
                ),
                StorageReply::BlockHash(Err(e)) => VerifyStep::Finished(Err(VerifyError::Storage(e))),
                // ruled out by `fits`
                StorageReply::LastBlockNumber(_) => VerifyStep::Read(StorageRead::LastBlockNumber),
            }
        },
        // ruled out by the precondition
        Phase::Done => VerifyStep::Read(StorageRead::LastBlockNumber),
    }
}

/// A database that is at or past the announced height, keeps its whole hash
/// window and stores the announced hash yields `Matched`, which is not fatal.
pub proof fn lemma_matching_hash_verifies(height: u64, rpc_hash: BlockHash, db: u64, store: Map<u64, BlockHash>)
    requires
        db >= height,
        forall|h: u64| db - window_len(db) < h <= db ==> store.contains_key(h),
        store.contains_key(height),
        store[height] == rpc_hash,
    ensures
        verify_spec(height, rpc_hash, db, store) == Ok::<VerificationOutcome, VerifyError>(
            VerificationOutcome::Matched { height, hash: rpc_hash },
        ),
        !(VerificationOutcome::Matched { height, hash: rpc_hash }).is_fatal_spec(),
{
    lemma_scan_covers_window(db, store.dom(), store.dom());
}

/// A database that is at or past the announced height and keeps its whole hash
/// window but stores another hash there yields `Mismatched`, which is fatal.
pub proof fn lemma_differing_hash_is_fatal(height: u64, rpc_hash: BlockHash, db: u64, store: Map<u64, BlockHash>)
    requires
        db >= height,
        forall|h: u64| db - window_len(db) < h <= db ==> store.contains_key(h),
        store.contains_key(height),
        store[height] != rpc_hash,
    ensures
        verify_spec(height, rpc_hash, db, store) == Ok::<VerificationOutcome, VerifyError>(
            VerificationOutcome::Mismatched { height, rpc_hash, db_hash: store[height] },
        ),
        (VerificationOutcome::Mismatched { height, rpc_hash, db_hash: store[height] }).is_fatal_spec(),
{
    lemma_scan_covers_window(db, store.dom(), store.dom());
}

} // verus!
