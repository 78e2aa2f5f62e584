use vstd::prelude::*;
use crate::object::{ObjectDescriptor, ObjectView};
use crate::plan::views;

verus! {

/// A failure on one object: its key and what the backend reported.
pub struct ObjectError {
    pub key: String,
    pub detail: String,
}

/// How the work on one object of a plan ended.
pub enum ObjectOutcome {
    Done,
    Failed(String),
}

/// Outcome of one bucket's migration: objects copied (or, in a dry run, to
/// be copied) and their total size, objects deleted (or to be deleted), and
/// the failures met along the way.
pub struct BucketMigrationStats {
    pub bucket: String,
    pub objects: Vec<ObjectDescriptor>,
    pub objects_to_delete: Vec<ObjectDescriptor>,
    pub synchronization_size: u64,
    pub errors: Vec<ObjectError>,
}

/// A bucket's migration that met object failures, with what it achieved.
pub struct BucketMigrationError {
    pub stats: BucketMigrationStats,
    pub errors: Vec<ObjectError>,
}

/// Total size of the objects.
pub open spec fn sum_sizes(s: Seq<ObjectView>) -> nat
    decreases s.len(),
{
    if s.len() == 0 {
        0
    } else {
        sum_sizes(s.drop_last()) + s.last().size as nat
    }
}

/// A byte count held in a `u64`, saturating at its largest value.
pub open spec fn capped(n: nat) -> u64 {
    if n > u64::MAX {
        u64::MAX
    } else {
        n as u64
    }
}

/// Errors as pairs of key and detail.
pub open spec fn errors_view(e: Seq<ObjectError>) -> Seq<(Seq<char>, Seq<char>)> {
    e.map_values(|x: ObjectError| (x.key@, x.detail@))
}

/// What a failed outcome reports; empty for a success.
pub open spec fn failure_detail(o: ObjectOutcome) -> Seq<char> {
    match o {
        ObjectOutcome::Failed(d) => d@,
        ObjectOutcome::Done => Seq::empty(),
    }
}

/// Whether the outcome is a success.
pub open spec fn is_done(o: ObjectOutcome) -> bool {
    o is Done
}

/// The first `n` objects whose outcome is a success, in order.
pub open spec fn done_objects(objs: Seq<ObjectView>, outs: Seq<ObjectOutcome>, n: int) -> Seq<
    ObjectView,
>
    decreases n,
{
    if n <= 0 {
        Seq::empty()
    } else if is_done(outs[n - 1]) {
        done_objects(objs, outs, n - 1).push(objs[n - 1])
    } else {
        done_objects(objs, outs, n - 1)
    }
}

/// Key and detail of each of the first `n` objects whose outcome is a
/// failure, in order.
pub open spec fn failures(objs: Seq<ObjectView>, outs: Seq<ObjectOutcome>, n: int) -> Seq<
    (Seq<char>, Seq<char>),
>
    decreases n,
{
    if n <= 0 {
        Seq::empty()
    } else if is_done(outs[n - 1]) {
        failures(objs, outs, n - 1)
    } else {
        failures(objs, outs, n - 1).push((objs[n - 1].key, failure_detail(outs[n - 1])))
    }
}

impl BucketMigrationStats {
    /// The records are consistent: the byte total is that of the objects.
    pub open spec fn wf(&self) -> bool {
        self.synchronization_size == capped(sum_sizes(views(self.objects@)))
    }

    /// Empty stats for the bucket.
    pub fn new(bucket: String) -> (r: BucketMigrationStats)
        ensures
            r.wf(),
            r.bucket@ == bucket@,
            r.objects@.len() == 0,
            r.objects_to_delete@.len() == 0,
            r.errors@.len() == 0,
            r.synchronization_size == 0,
    {
        let r = BucketMigrationStats {
            bucket,
            objects: Vec::new(),
            objects_to_delete: Vec::new(),
            synchronization_size: 0,
            errors: Vec::new(),
        };
        assert(views(r.objects@) =~= Seq::<ObjectView>::empty());
        r
    }

    /// Record an object copied: it joins the list and its size the total.
    pub fn record_synced(&mut self, o: &ObjectDescriptor)
        requires
            old(self).wf(),
        ensures
            final(self).wf(),
            views(final(self).objects@) == views(old(self).objects@).push(o@),
            final(self).bucket == old(self).bucket,
            final(self).objects_to_delete == old(self).objects_to_delete,
            final(self).errors == old(self).errors,
    {
        let ghost before = views(self.objects@);
        self.objects.push(o.duplicate());
        self.synchronization_size = self.synchronization_size.saturating_add(o.size);
        proof {
            let now = views(self.objects@);
            assert(now =~= before.push(o@));
            assert(now.drop_last() =~= before);
        }
    }

    /// Record an object deleted from the destination.
    pub fn record_deleted(&mut self, o: &ObjectDescriptor)
        ensures
            views(final(self).objects_to_delete@) == views(old(self).objects_to_delete@).push(o@),
            final(self).bucket == old(self).bucket,
            final(self).objects == old(self).objects,
            final(self).synchronization_size == old(self).synchronization_size,
            final(self).errors == old(self).errors,
    {
        let ghost before = views(self.objects_to_delete@);
        self.objects_to_delete.push(o.duplicate());
        assert(views(self.objects_to_delete@) =~= before.push(o@));
    }

    /// Record a failure on one object; the other records stay as they are.
    pub fn record_failure(&mut self, key: String, detail: String)
        ensures
            errors_view(final(self).errors@) == errors_view(old(self).errors@).push(
                (key@, detail@),
            ),
            final(self).bucket == old(self).bucket,
            final(self).objects == old(self).objects,
            final(self).objects_to_delete == old(self).objects_to_delete,
            final(self).synchronization_size == old(self).synchronization_size,
    {
        let ghost before = errors_view(self.errors@);
        let ghost entry = (key@, detail@);
        self.errors.push(ObjectError { key, detail });
        assert(errors_view(self.errors@) =~= before.push(entry));
    }

    /// The bucket's terminal outcome: the stats, or, when any object failed,
    /// an error that carries them together with the failures.
    pub fn finish(self) -> (r: Result<BucketMigrationStats, BucketMigrationError>)
        ensures
            self.errors@.len() == 0 <==> r is Ok,
            r matches Ok(s) ==> s == self,
            r matches Err(e) ==> {
                &&& errors_view(e.errors@) == errors_view(self.errors@)
                &&& e.stats.bucket == self.bucket
                &&& e.stats.objects == self.objects
                &&& e.stats.objects_to_delete == self.objects_to_delete
                &&& e.stats.synchronization_size == self.synchronization_size
                &&& errors_view(e.stats.errors@) == errors_view(self.errors@)
            },
    {
        if self.errors.len() == 0 {
            return Ok(self);
        }
        let mut copies: Vec<ObjectError> = Vec::new();
        let mut i: usize = 0;
        while i < self.errors.len()
            invariant
                i <= self.errors@.len(),
                errors_view(copies@) == errors_view(self.errors@).take(i as int),
            decreases self.errors@.len() - i,
        {
            let e = &self.errors[i];
            let ghost before = errors_view(copies@);
            copies.push(ObjectError { key: e.key.clone(), detail: e.detail.clone() });
            assert(errors_view(copies@) =~= before.push(
                (self.errors@[i as int].key@, self.errors@[i as int].detail@),
            ));
            assert(errors_view(copies@) =~= errors_view(self.errors@).take(i as int + 1));
            i = i + 1;
        }
        assert(errors_view(self.errors@).take(self.errors@.len() as int) =~= errors_view(
            self.errors@,
        ));
        Err(BucketMigrationError { stats: self, errors: copies })
    }
}

/// Gather the outcomes of a bucket's plan: `outcomes[i]` is that of
/// `to_sync[i]` and `deleted[i]` tells whether `to_delete[i]` was removed
/// (a dry run reports every object as done). Successes are recorded in plan
/// order with their total size, failures by key in plan order; a failed
/// deletion is recorded as a failure on its key.
pub fn tally(
    bucket: String,
    to_sync: &Vec<ObjectDescriptor>,
    outcomes: &Vec<ObjectOutcome>,
    to_delete: &Vec<ObjectDescriptor>,
    deletions: &Vec<ObjectOutcome>,
) -> (r: Result<BucketMigrationStats, BucketMigrationError>)
    requires
        outcomes@.len() == to_sync@.len(),
        deletions@.len() == to_delete@.len(),
    ensures
        ({
            let n = to_sync@.len() as int;
            let m = to_delete@.len() as int;
            let s = match r {
                Ok(s) => s,
                Err(e) => e.stats,
            };
            let errs = failures(views(to_sync@), outcomes@, n) + failures(
                views(to_delete@),
                deletions@,
                m,
            );
            &&& s.wf()
            &&& s.bucket@ == bucket@
            &&& views(s.objects@) == done_objects(views(to_sync@), outcomes@, n)
            &&& s.synchronization_size == capped(
                sum_sizes(done_objects(views(to_sync@), outcomes@, n)),
            )
            &&& views(s.objects_to_delete@) == done_objects(views(to_delete@), deletions@, m)
            &&& errors_view(s.errors@) == errs
            &&& (r is Ok <==> errs.len() == 0)
            &&& (r matches Err(e) ==> errors_view(e.errors@) == errs)
        }),
{
    let mut stats = BucketMigrationStats::new(bucket);
    let ghost sv = views(to_sync@);
    let ghost dv = views(to_delete@);
    let mut i: usize = 0;
    while i < to_sync.len()
        invariant
            sv == views(to_sync@),
            outcomes@.len() == to_sync@.len(),
            i <= to_sync@.len(),
            stats.wf(),
            stats.bucket@ == bucket@,
            views(stats.objects@) == done_objects(sv, outcomes@, i as int),
            stats.objects_to_delete@.len() == 0,
            errors_view(stats.errors@) == failures(sv, outcomes@, i as int),
        decreases to_sync@.len() - i,
    {
        assert(sv[i as int] == to_sync@[i as int]@);
        match &outcomes[i] {
            ObjectOutcome::Done => stats.record_synced(&to_sync[i]),
            ObjectOutcome::Failed(detail) => stats.record_failure(
                to_sync[i].key.clone(),
                detail.clone(),
            ),
        }
        i = i + 1;
    }
    let ghost copy_errors = errors_view(stats.errors@);
    let mut j: usize = 0;
    while j < to_delete.len()
        invariant
            dv == views(to_delete@),
            deletions@.len() == to_delete@.len(),
            j <= to_delete@.len(),
            stats.wf(),
            stats.bucket@ == bucket@,
            views(stats.objects@) == done_objects(sv, outcomes@, to_sync@.len() as int),
            views(stats.objects_to_delete@) == done_objects(dv, deletions@, j as int),
            errors_view(stats.errors@) == copy_errors + failures(dv, deletions@, j as int),
        decreases to_delete@.len() - j,
    {
        assert(dv[j as int] == to_delete@[j as int]@);
        match &deletions[j] {
            ObjectOutcome::Done => stats.record_deleted(&to_delete[j]),
            ObjectOutcome::Failed(detail) => stats.record_failure(
                to_delete[j].key.clone(),
                detail.clone(),
            ),
        }
        j = j + 1;
    }
    assert(views(Seq::<ObjectDescriptor>::empty()) =~= Seq::<ObjectView>::empty());
    stats.finish()
}

/// When exactly one object of a plan fails, every other object is reported
/// copied, in plan order, and the failed one appears once among the
/// failures, alone, with its detail.
pub proof fn law_single_failure_is_isolated(
    objs: Seq<ObjectView>,
    outs: Seq<ObjectOutcome>,
    f: int,
)
    requires
        outs.len() == objs.len(),
        0 <= f < objs.len(),
        !is_done(outs[f]),
        forall|i: int| 0 <= i < outs.len() && i != f ==> is_done(#[trigger] outs[i]),
    ensures
        done_objects(objs, outs, objs.len() as int) == objs.remove(f),
        failures(objs, outs, objs.len() as int) == seq![(objs[f].key, failure_detail(outs[f]))],
{
    lemma_single_failure_prefix(objs, outs, f, objs.len() as int);
}

proof fn lemma_single_failure_prefix(
    objs: Seq<ObjectView>,
    outs: Seq<ObjectOutcome>,
    f: int,
    n: int,
)
    requires
        outs.len() == objs.len(),
        0 <= f < objs.len(),
        0 <= n <= objs.len(),
        !is_done(outs[f]),
        forall|i: int| 0 <= i < outs.len() && i != f ==> is_done(#[trigger] outs[i]),
    ensures
        done_objects(objs, outs, n) == (if n <= f {
            objs.take(n)
        } else {
            objs.take(n).remove(f)
        }),
        failures(objs, outs, n) == (if n <= f {
            Seq::<(Seq<char>, Seq<char>)>::empty()
        } else {
            seq![(objs[f].key, failure_detail(outs[f]))]
        }),
    decreases n,
{
    if n > 0 {
        lemma_single_failure_prefix(objs, outs, f, n - 1);
        if n - 1 == f {
            assert(objs.take(n).remove(f) =~= objs.take(n - 1));
            assert(seq![(objs[f].key, failure_detail(outs[f]))] =~= Seq::<
                (Seq<char>, Seq<char>),
            >::empty().push((objs[f].key, failure_detail(outs[f]))));
        } else if n <= f {
            assert(objs.take(n) =~= objs.take(n - 1).push(objs[n - 1]));
        } else {
            assert(objs.take(n).remove(f) =~= objs.take(n - 1).remove(f).push(objs[n - 1]));
        }
    }
}

/// When every object of a plan is done, as in a dry run, the whole plan is
/// reported, in order, and no failure.
pub proof fn law_all_done_reports_whole_plan(objs: Seq<ObjectView>, outs: Seq<ObjectOutcome>)
    requires
        outs.len() == objs.len(),
        forall|i: int| 0 <= i < outs.len() ==> is_done(#[trigger] outs[i]),
    ensures
        done_objects(objs, outs, objs.len() as int) == objs,
        failures(objs, outs, objs.len() as int) == Seq::<(Seq<char>, Seq<char>)>::empty(),
{
    lemma_all_done_prefix(objs, outs, objs.len() as int);
    assert(objs.take(objs.len() as int) == objs);
}

proof fn lemma_all_done_prefix(objs: Seq<ObjectView>, outs: Seq<ObjectOutcome>, n: int)
    requires
        outs.len() == objs.len(),
        0 <= n <= objs.len(),
        forall|i: int| 0 <= i < outs.len() ==> is_done(#[trigger] outs[i]),
    ensures
        done_objects(objs, outs, n) == objs.take(n),
        failures(objs, outs, n) == Seq::<(Seq<char>, Seq<char>)>::empty(),
    decreases n,
{
    if n > 0 {
        lemma_all_done_prefix(objs, outs, n - 1);
        assert(objs.take(n) =~= objs.take(n - 1).push(objs[n - 1]));
    } else {
        assert(objs.take(0) =~= Seq::<ObjectView>::empty());
    }
}

/// A dry run reports what a fully successful execution reports: when every
/// outcome of both is a success, the same objects, in the same order, with
/// the same total size, and no failure.
pub proof fn law_dry_run_matches_successful_execute(
    objs: Seq<ObjectView>,
    dry: Seq<ObjectOutcome>,
    executed: Seq<ObjectOutcome>,
)
    requires
        dry.len() == objs.len(),
        executed.len() == objs.len(),
        forall|i: int| 0 <= i < dry.len() ==> is_done(#[trigger] dry[i]),
        forall|i: int| 0 <= i < executed.len() ==> is_done(#[trigger] executed[i]),
    ensures
        done_objects(objs, dry, objs.len() as int) == done_objects(
            objs,
            executed,
            objs.len() as int,
        ),
        sum_sizes(done_objects(objs, dry, objs.len() as int)) == sum_sizes(
            done_objects(objs, executed, objs.len() as int),
        ),
        failures(objs, dry, objs.len() as int) == failures(objs, executed, objs.len() as int),
{
    law_all_done_reports_whole_plan(objs, dry);
    law_all_done_reports_whole_plan(objs, executed);
}

/// How an extraneous destination object is handled: `None` when the delete
/// call must be made, or the outcome to record without any call. A dry run
/// makes no call and reports the deletion as done.
pub fn deletion_step(dry_run: bool) -> (r: Option<ObjectOutcome>)
    ensures
        r is None <==> !dry_run,
        r matches Some(o) ==> is_done(o),
{
    if dry_run {
        Some(ObjectOutcome::Done)
    } else {
        None
    }
}

} // verus!
