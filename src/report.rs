use vstd::prelude::*;
use crate::object::ObjectDescriptor;
use crate::plan::views;
use crate::stats::{capped, sum_sizes, BucketMigrationError, BucketMigrationStats};

verus! {

/// Why a bucket's migration ended without plain stats.
pub enum BucketFailure {
    /// Some objects failed; the stats of the rest are kept.
    Objects(BucketMigrationError),
    /// Listing or provisioning failed; nothing was planned.
    Fatal(String),
}

/// What a bucket's migration ended with.
pub type BucketOutcome = Result<BucketMigrationStats, BucketFailure>;

/// The stats a bucket's outcome carries, if any.
pub open spec fn stats_view(o: BucketOutcome) -> Option<BucketMigrationStats> {
    match o {
        Ok(s) => Some(s),
        Err(BucketFailure::Objects(e)) => Some(e.stats),
        Err(BucketFailure::Fatal(_)) => None,
    }
}

/// Sum of the byte totals of the outcomes that carry stats.
pub open spec fn synced_bytes(outcomes: Seq<BucketOutcome>) -> nat
    decreases outcomes.len(),
{
    if outcomes.len() == 0 {
        0
    } else {
        synced_bytes(outcomes.drop_last()) + match stats_view(outcomes.last()) {
            Some(s) => s.synchronization_size as nat,
            None => 0,
        }
    }
}

/// The stats of a bucket's outcome, if it carries any.
pub fn stats_of(o: &BucketOutcome) -> (r: Option<&BucketMigrationStats>)
    ensures
        r matches Some(s) ==> stats_view(*o) == Some(*s),
        r is None <==> stats_view(*o) is None,
{
    match o {
        Ok(s) => Some(s),
        Err(BucketFailure::Objects(e)) => Some(&e.stats),
        Err(BucketFailure::Fatal(_)) => None,
    }
}

/// Bytes copied over all buckets, saturating at the largest `u64`.
pub fn total_synchronization_size(outcomes: &Vec<BucketOutcome>) -> (r: u64)
    ensures
        r == capped(synced_bytes(outcomes@)),
{
    let mut total: u64 = 0;
    let mut i: usize = 0;
    while i < outcomes.len()
        invariant
            i <= outcomes@.len(),
            total == capped(synced_bytes(outcomes@.take(i as int))),
        decreases outcomes@.len() - i,
    {
        let add: u64 = match stats_of(&outcomes[i]) {
            Some(s) => s.synchronization_size,
            None => 0,
        };
        total = total.saturating_add(add);
        proof {
            assert(outcomes@.take(i as int + 1).drop_last() =~= outcomes@.take(i as int));
        }
        i = i + 1;
    }
    assert(outcomes@.take(outcomes@.len() as int) =~= outcomes@);
    total
}

/// Total size of the objects, saturating at the largest `u64`.
pub fn total_size(objs: &Vec<ObjectDescriptor>) -> (r: u64)
    ensures
        r == capped(sum_sizes(views(objs@))),
{
    let mut total: u64 = 0;
    let mut i: usize = 0;
    while i < objs.len()
        invariant
            i <= objs@.len(),
            total == capped(sum_sizes(views(objs@).take(i as int))),
        decreases objs@.len() - i,
    {
        total = total.saturating_add(objs[i].size);
        proof {
            assert(views(objs@).take(i as int + 1).drop_last() =~= views(objs@).take(i as int));
        }
        i = i + 1;
    }
    assert(views(objs@).take(objs@.len() as int) =~= views(objs@));
    total
}

/// Bytes per second for `bytes` moved in `elapsed_millis` milliseconds,
/// rounded down and saturating; none when no time has elapsed.
pub fn throughput(bytes: u64, elapsed_millis: u64) -> (r: Option<u64>)
    ensures
        elapsed_millis == 0 <==> r is None,
        r matches Some(t) ==> t == capped(((bytes * 1000) as int / elapsed_millis as int) as nat),
{
    if elapsed_millis == 0 {
        return None;
    }
    let wide: u128 = (bytes as u128) * 1000 / (elapsed_millis as u128);
    if wide > u64::MAX as u128 {
        Some(u64::MAX)
    } else {
        Some(wide as u64)
    }
}

} // verus!
