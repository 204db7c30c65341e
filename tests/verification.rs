use stale_db_monitor::hash::BlockHash;
use stale_db_monitor::integrity::{
    check_block_hash_reader_health, HealthScan, HistoricalBlockError, ScanStep, StorageFault,
};
use stale_db_monitor::verify::{
    process_block, BlockVerification, StorageRead, StorageReply, VerificationOutcome, VerifyError,
    VerifyStep,
};

fn hash_of(n: u64) -> BlockHash {
    BlockHash::from_words(n, n.wrapping_mul(31), 7, 9)
}

/// An in-memory database: its last block and the heights whose hashes it holds.
struct FakeDb {
    last: u64,
    missing: Vec<u64>,
    overrides: Vec<(u64, BlockHash)>,
    fail_at: Option<u64>,
}

impl FakeDb {
    fn full(last: u64) -> FakeDb {
        FakeDb { last, missing: vec![], overrides: vec![], fail_at: None }
    }

    fn hash_at(&self, h: u64) -> Result<Option<BlockHash>, StorageFault> {
        if self.fail_at == Some(h) {
            return Err(StorageFault { message: format!("read of {} failed", h) });
        }
        if h > self.last || self.missing.contains(&h) {
            return Ok(None);
        }
        for (k, v) in &self.overrides {
            if *k == h {
                return Ok(Some(*v));
            }
        }
        Ok(Some(hash_of(h)))
    }
}

/// Runs one check against `db`; returns its result and the heights whose
/// hashes were read, in order.
fn run(db: &FakeDb, height: u64, rpc_hash: BlockHash) -> (Result<VerificationOutcome, VerifyError>, Vec<u64>) {
    let mut v = BlockVerification::new(height, rpc_hash);
    let mut read = v.next_read();
    let mut heights = vec![];
    loop {
        let reply = match read {
            StorageRead::LastBlockNumber => StorageReply::LastBlockNumber(Ok(db.last)),
            StorageRead::BlockHash(h) => {
                heights.push(h);
                StorageReply::BlockHash(db.hash_at(h))
            }
        };
        match process_block(&mut v, reply) {
            VerifyStep::Read(next) => read = next,
            VerifyStep::Finished(result) => return (result, heights),
        }
    }
}

#[test]
fn matched_when_hashes_agree() {
    let db = FakeDb::full(100);
    let (result, _) = run(&db, 100, hash_of(100));
    let outcome = result.unwrap();
    assert_eq!(outcome, VerificationOutcome::Matched { height: 100, hash: hash_of(100) });
    assert!(!outcome.is_fatal());
}

#[test]
fn matched_below_the_database_tip() {
    let db = FakeDb::full(400);
    let (result, _) = run(&db, 390, hash_of(390));
    assert_eq!(result.unwrap(), VerificationOutcome::Matched { height: 390, hash: hash_of(390) });
}

#[test]
fn mismatched_is_fatal() {
    let mut db = FakeDb::full(120);
    let other = BlockHash::from_words(1, 1, 1, 1);
    db.overrides.push((110, other));
    let (result, _) = run(&db, 110, hash_of(110));
    let outcome = result.unwrap();
    assert_eq!(
        outcome,
        VerificationOutcome::Mismatched { height: 110, rpc_hash: hash_of(110), db_hash: other }
    );
    assert!(outcome.is_fatal());
}

#[test]
fn db_behind_is_not_fatal() {
    let db = FakeDb::full(95);
    let (result, heights) = run(&db, 100, hash_of(100));
    let outcome = result.unwrap();
    assert_eq!(outcome, VerificationOutcome::DbBehind { db_height: 95, rpc_height: 100 });
    assert!(!outcome.is_fatal());
    assert_eq!(heights, vec![95]);
}

#[test]
fn db_behind_without_its_own_hash_is_an_error() {
    let mut db = FakeDb::full(95);
    db.missing.push(95);
    let (result, _) = run(&db, 100, hash_of(100));
    assert_eq!(result, Err(VerifyError::LatestHashMissing { db_height: 95 }));
}

#[test]
fn integrity_gap_is_fatal() {
    let mut db = FakeDb::full(300);
    db.missing.push(200);
    let (result, heights) = run(&db, 300, hash_of(300));
    let outcome = result.unwrap();
    assert_eq!(outcome, VerificationOutcome::IntegrityFailure { missing_height: 200, latest_height: 300 });
    assert!(outcome.is_fatal());
    assert_eq!(heights.len(), 101);
    assert_eq!(*heights.last().unwrap(), 200);
}

#[test]
fn integrity_reports_the_highest_gap() {
    let mut db = FakeDb::full(300);
    db.missing.push(150);
    db.missing.push(250);
    let (result, _) = run(&db, 300, hash_of(300));
    assert_eq!(
        result.unwrap(),
        VerificationOutcome::IntegrityFailure { missing_height: 250, latest_height: 300 }
    );
}

#[test]
fn integrity_scans_against_the_database_tip() {
    let mut db = FakeDb::full(300);
    db.missing.push(290);
    let (result, _) = run(&db, 100, hash_of(100));
    assert_eq!(
        result.unwrap(),
        VerificationOutcome::IntegrityFailure { missing_height: 290, latest_height: 300 }
    );
}

#[test]
fn gap_below_the_window_is_ignored() {
    let mut db = FakeDb::full(300);
    db.missing.push(44);
    let (result, heights) = run(&db, 300, hash_of(300));
    assert_eq!(result.unwrap(), VerificationOutcome::Matched { height: 300, hash: hash_of(300) });
    assert_eq!(heights.len(), 257);
    assert!(!heights.contains(&44));
}

#[test]
fn hash_missing_below_the_window() {
    let mut db = FakeDb::full(300);
    db.missing.push(10);
    let (result, _) = run(&db, 10, hash_of(10));
    let outcome = result.unwrap();
    assert_eq!(outcome, VerificationOutcome::HashMissing { height: 10 });
    assert!(outcome.is_fatal());
}

#[test]
fn storage_fault_ends_the_check() {
    let mut db = FakeDb::full(300);
    db.fail_at = Some(280);
    let (result, _) = run(&db, 300, hash_of(300));
    assert_eq!(
        result,
        Err(VerifyError::Storage(StorageFault { message: "read of 280 failed".to_string() }))
    );
}

#[test]
fn genesis_database_checks_no_window() {
    let db = FakeDb::full(0);
    let (result, heights) = run(&db, 0, hash_of(0));
    assert_eq!(result.unwrap(), VerificationOutcome::Matched { height: 0, hash: hash_of(0) });
    assert_eq!(heights, vec![0]);
}

/// Runs a bare scan against `db`; returns its end and the heights read.
fn scan(db: &FakeDb) -> (Result<(), HistoricalBlockError>, Vec<u64>) {
    let mut s = HealthScan::new(db.last);
    let mut step = s.first_step();
    let mut heights = vec![];
    loop {
        match step {
            ScanStep::Finished(r) => return (r, heights),
            ScanStep::ReadHash(h) => {
                heights.push(h);
                step = check_block_hash_reader_health(&mut s, db.hash_at(h));
            }
        }
    }
}

#[test]
fn scan_reads_every_height_of_a_short_chain() {
    let (result, heights) = scan(&FakeDb::full(100));
    assert_eq!(result, Ok(()));
    assert_eq!(heights, (1..=100).rev().collect::<Vec<u64>>());
}

#[test]
fn scan_reads_exactly_256_heights_of_a_long_chain() {
    let (result, heights) = scan(&FakeDb::full(1000));
    assert_eq!(result, Ok(()));
    assert_eq!(heights, (745..=1000).rev().collect::<Vec<u64>>());
}

#[test]
fn scan_reads_256_heights_at_the_boundary() {
    let (result, heights) = scan(&FakeDb::full(256));
    assert_eq!(result, Ok(()));
    assert_eq!(heights.len(), 256);
    assert_eq!(*heights.last().unwrap(), 1);
}

#[test]
fn scan_of_empty_chain_passes_at_once() {
    let (result, heights) = scan(&FakeDb::full(0));
    assert_eq!(result, Ok(()));
    assert!(heights.is_empty());
}

#[test]
fn scan_stops_at_first_gap() {
    let mut db = FakeDb::full(300);
    db.missing.push(120);
    db.missing.push(200);
    let (result, heights) = scan(&db);
    assert_eq!(
        result,
        Err(HistoricalBlockError::MissingHash { missing_hash_block: 200, latest_block: 300 })
    );
    assert_eq!(heights.len(), 101);
}

#[test]
fn scan_reports_provider_error() {
    let mut db = FakeDb::full(50);
    db.fail_at = Some(49);
    let (result, _) = scan(&db);
    assert_eq!(
        result,
        Err(HistoricalBlockError::ProviderError(StorageFault { message: "read of 49 failed".to_string() }))
    );
}
