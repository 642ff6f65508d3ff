//! The ToyKV adapter: what its switches allow, how it scans, and how the store is set up.
use crate::failure::Failure;
use crate::operation::Scan;
use crate::phase;
use crate::selector;
use crate::selector::KeySelector;
use vstd::prelude::*;

verus! {

/// What a scan hands out.
#[derive(Clone, Copy, Debug, PartialEq, Eq, Structural)]
pub enum Projection {
    Id,
    Full,
    Count,
}

/// What is left of a scan once the entries before its start are skipped.
#[derive(Clone, Copy, Debug, PartialEq, Eq, Structural)]
pub enum ScanVisit {
    /// The scan starts behind the last entry: it counts nothing.
    Nothing,
    /// Visit the keys of so many entries at most.
    Keys { limit: usize },
    /// Visit the values of so many entries at most.
    Values { limit: usize },
    /// Count so many entries at most.
    Count { limit: usize },
}

/// The switches of a ToyKV client.
#[derive(Clone, Copy, Debug, PartialEq, Eq, Structural)]
pub struct ToyKvClient {
    /// Writes and deletes do nothing.
    pub reads_only: bool,
    /// The data directory is kept.
    pub preserve_db: bool,
    /// Deletes do nothing.
    pub load_only: bool,
}

pub open spec fn start_of(scan: Scan) -> usize {
    match scan.start {
        Some(s) => s,
        None => 0,
    }
}

pub open spec fn limit_of(scan: Scan) -> usize {
    match scan.limit {
        Some(l) => l,
        None => usize::MAX,
    }
}

/// What a scan visits where `skipped` entries were there to skip: nothing where its start lies beyond
/// the last entry.
pub open spec fn visit_of(scan: Scan, projection: Projection, skipped: usize) -> ScanVisit {
    if skipped < start_of(scan) {
        ScanVisit::Nothing
    } else {
        match projection {
            Projection::Id => ScanVisit::Keys { limit: limit_of(scan) },
            Projection::Full => ScanVisit::Values { limit: limit_of(scan) },
            Projection::Count => ScanVisit::Count { limit: limit_of(scan) },
        }
    }
}

impl ToyKvClient {
    /// Whether records are written.
    pub fn writes(&self) -> (r: bool)
        ensures
            r == !self.reads_only,
    {
        !self.reads_only
    }

    /// Whether records are deleted.
    pub fn deletes(&self) -> (r: bool)
        ensures
            r == (!self.reads_only && !self.load_only),
    {
        !(self.reads_only || self.load_only)
    }

    /// Whether the data directory is removed, before the first run and after the last.
    pub fn removes_directory(&self) -> (r: bool)
        ensures
            r == (!self.reads_only && !self.preserve_db),
    {
        !self.reads_only && !self.preserve_db
    }

    /// How many entries a scan skips. A scan with a condition is unsupported.
    pub fn scan_start(&self, scan: &Scan) -> (r: Result<usize, Failure>)
        ensures
            match r {
                Ok(start) => scan.condition is None && start == start_of(*scan),
                Err(e) => scan.condition is Some && phase::unsupported(e@),
            },
    {
        if scan.condition.is_some() {
            return Err(Failure::new("NotSupported".to_owned()));
        }
        match scan.start {
            Some(start) => Ok(start),
            None => Ok(0),
        }
    }

    /// What a scan visits, once the entries before its start are skipped; `skipped` is how many
    /// there were to skip.
    pub fn do_scan(&self, scan: &Scan, projection: Projection, skipped: usize) -> (r: ScanVisit)
        ensures
            r == visit_of(*scan, projection, skipped),
    {
        let start: usize = match scan.start {
            Some(s) => s,
            None => 0,
        };
        let limit: usize = match scan.limit {
            Some(l) => l,
            None => usize::MAX,
        };
        if skipped < start {
            return ScanVisit::Nothing;
        }
        match projection {
            Projection::Id => ScanVisit::Keys { limit },
            Projection::Full => ScanVisit::Values { limit },
            Projection::Count => ScanVisit::Count { limit },
        }
    }
}

/// How many entries a visit sees when so many are left.
pub open spec fn visited(visit: ScanVisit, left: nat) -> nat {
    match visit {
        ScanVisit::Nothing => 0,
        ScanVisit::Keys { limit } => if left < limit {
            left
        } else {
            limit as nat
        },
        ScanVisit::Values { limit } => if left < limit {
            left
        } else {
            limit as nat
        },
        ScanVisit::Count { limit } => if left < limit {
            left
        } else {
            limit as nat
        },
    }
}

/// A range scan that a selector draws sees, in a store that holds its records, as many entries as
/// the scan expects.
pub proof fn lemma_scan_meets_expectation(keys: KeySelector, scan: Scan, projection: Projection)
    requires
        keys.scans(scan),
        keys.records > 0,
    ensures
        ({
            let skipped = start_of(scan);
            let visit = visit_of(scan, projection, skipped);
            &&& skipped <= keys.records
            &&& scan.expect == Some(visited(visit, (keys.records - skipped) as nat) as usize)
        }),
{
}

/// What reading one key of a batch came to.
pub enum ReadReply {
    Found,
    Missing,
    Failed { reason: String },
}

/// The error of a key that has no value.
pub open spec fn missing_key() -> Seq<char> {
    "key should exist"@
}

pub open spec fn reply_error(reply: ReadReply) -> Option<Seq<char>> {
    match reply {
        ReadReply::Found => None,
        ReadReply::Missing => Some(missing_key()),
        ReadReply::Failed { reason } => Some(reason@),
    }
}

/// The error of the first of the first `n` replies that is one.
pub open spec fn first_reply_error(replies: Seq<ReadReply>, n: nat) -> Option<Seq<char>>
    decreases n,
{
    if n == 0 {
        None
    } else {
        match first_reply_error(replies, (n - 1) as nat) {
            Some(e) => Some(e),
            None => reply_error(replies[n - 1]),
        }
    }
}

proof fn lemma_first_reply_error(replies: Seq<ReadReply>, k: nat, n: nat)
    requires
        k <= n,
        first_reply_error(replies, k) is Some,
    ensures
        first_reply_error(replies, n) == first_reply_error(replies, k),
    decreases n,
{
    if k < n {
        lemma_first_reply_error(replies, k, (n - 1) as nat);
    }
}

/// Checks the replies to a batch of reads: every key must have a value. A single read is a batch of
/// one.
pub fn check_reads(replies: &Vec<ReadReply>) -> (r: Result<(), Failure>)
    ensures
        match (r, first_reply_error(replies@, replies@.len())) {
            (Ok(()), None) => true,
            (Err(e), Some(t)) => e@ == t,
            _ => false,
        },
{
    let mut i: usize = 0;
    #[verifier::loop_isolation(false)]
    while i < replies.len()
        invariant
            i <= replies@.len(),
            first_reply_error(replies@, i as nat) is None,
        decreases replies@.len() - i,
    {
        proof {
            if first_reply_error(replies@, (i + 1) as nat) is Some {
                lemma_first_reply_error(replies@, (i + 1) as nat, replies@.len());
            }
        }
        match &replies[i] {
            ReadReply::Found => {},
            ReadReply::Missing => {
                return Err(Failure::new("key should exist".to_owned()));
            },
            ReadReply::Failed { reason } => {
                return Err(Failure::new(reason.clone()));
            },
        }
        i = i + 1;
    }
    Ok(())
}

/// How the store is set up.
#[derive(Clone, Copy, Debug, PartialEq, Eq, Structural)]
pub struct StorageOptions {
    pub block_size: usize,
    pub target_sst_size: usize,
    pub num_memtable_limit: usize,
    pub level0_file_num_compaction_trigger: usize,
    pub max_levels: usize,
    pub base_level_size_mb: usize,
    pub level_size_multiplier: usize,
    pub enable_wal: bool,
    pub serializable: bool,
    pub separate_values: bool,
    pub min_value_size: usize,
    pub manifest_snapshot_threshold_bytes: u64,
    pub block_cache_capacity: u64,
    pub enable_cache_backfill: bool,
}

/// The settings of the store, with blocks of 64 KiB, tables of 256 MiB and values from 4 KiB on kept
/// apart; the log is written where data is synced.
pub open spec fn storage_settings(sync: bool) -> StorageOptions {
    StorageOptions {
        block_size: 0x1_0000,
        target_sst_size: 0x1000_0000,
        num_memtable_limit: 50,
        level0_file_num_compaction_trigger: 2,
        max_levels: 4,
        base_level_size_mb: 128,
        level_size_multiplier: 2,
        enable_wal: sync,
        serializable: false,
        separate_values: true,
        min_value_size: 0x1000,
        manifest_snapshot_threshold_bytes: 0x40_0000,
        block_cache_capacity: 524_288,
        enable_cache_backfill: true,
    }
}

/// How the store is set up.
pub fn storage_options(sync: bool) -> (r: StorageOptions)
    ensures
        r == storage_settings(sync),
{
    StorageOptions {
        block_size: 64 * 1024,
        target_sst_size: 256 * 1024 * 1024,
        num_memtable_limit: 50,
        level0_file_num_compaction_trigger: 2,
        max_levels: 4,
        base_level_size_mb: 128,
        level_size_multiplier: 2,
        enable_wal: sync,
        serializable: false,
        separate_values: true,
        min_value_size: 4 * 1024,
        manifest_snapshot_threshold_bytes: 4 * 1024 * 1024,
        block_cache_capacity: 524_288,
        enable_cache_backfill: true,
    }
}

} // verus!
