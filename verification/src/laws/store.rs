//! The ToyKV adapter: what a scan sees, and what a batch of reads comes to.
use crate::operation::Scan;
use crate::toykv;
use crate::toykv::{Projection, ReadReply};
use vstd::prelude::*;

verus! {

/// A scan of a store with so many entries sees those from its start on, up to its limit: so many at
/// most, and all that are left where there are fewer. It sees nothing of a store that ends before
/// its start.
pub proof fn lemma_scan_sees(scan: Scan, projection: Projection, entries: usize)
    ensures
        ({
            let start = match scan.start {
                Some(s) => s as int,
                None => 0,
            };
            let skipped: int = if start < entries {
                start
            } else {
                entries as int
            };
            let visit = toykv::visit_of(scan, projection, skipped as usize);
            let seen = toykv::visited(visit, (entries - skipped) as nat);
            &&& seen <= entries - skipped
            &&& scan.limit matches Some(limit) ==> seen <= limit
            &&& start <= entries ==> seen == entries - start || (scan.limit matches Some(limit)
                && seen == limit)
            &&& start > entries ==> visit is Nothing && seen == 0
            &&& start <= entries ==> {
                &&& projection is Id <==> visit is Keys
                &&& projection is Full <==> visit is Values
                &&& projection is Count <==> visit is Count
            }
        }),
{
}

/// A batch of reads succeeds exactly where every key was found; else it fails with the first reply
/// that is not a value: as it failed, or because the key should exist.
pub proof fn lemma_reads_checked(replies: Seq<ReadReply>, n: nat)
    requires
        n <= replies.len(),
    ensures
        match toykv::first_reply_error(replies, n) {
            None => forall|i: int| 0 <= i < n ==> (#[trigger] replies[i]) is Found,
            Some(error) => exists|k: int|
                {
                    &&& 0 <= k < n
                    &&& match #[trigger] replies[k] {
                        ReadReply::Found => false,
                        ReadReply::Missing => error == "key should exist"@,
                        ReadReply::Failed { reason } => error == reason@,
                    }
                    &&& forall|i: int| 0 <= i < k ==> (#[trigger] replies[i]) is Found
                },
        },
    decreases n,
{
    if n > 0 {
        lemma_reads_checked(replies, (n - 1) as nat);
        assert(replies[n - 1] is Found || replies[n - 1] is Missing || replies[n - 1] is Failed);
    }
}

/// The log of the store is written exactly where data is synced; nothing else follows from that.
pub proof fn lemma_store_set_up(sync: bool)
    ensures
        ({
            let o = toykv::storage_settings(sync);
            &&& o.enable_wal == sync
            &&& o.block_size == 64 * 1024
            &&& o.target_sst_size == 256 * 1024 * 1024
            &&& o.min_value_size == 4 * 1024
            &&& o.manifest_snapshot_threshold_bytes == 4 * 1024 * 1024
            &&& o.block_cache_capacity == 512 * 1024
            &&& o.num_memtable_limit == 50
            &&& o.level0_file_num_compaction_trigger == 2
            &&& o.max_levels == 4
            &&& o.base_level_size_mb == 128
            &&& o.level_size_multiplier == 2
            &&& !o.serializable && o.separate_values && o.enable_cache_backfill
        }),
{
}

} // verus!
