use vstd::prelude::*;
use vstd::hash_map::StringHashMap;
use crate::object::{checksums_comparable, differs, ObjectDescriptor, ObjectView};

verus! {

/// Views of a listing.
pub open spec fn views(s: Seq<ObjectDescriptor>) -> Seq<ObjectView> {
    s.map_values(|o: ObjectDescriptor| o@)
}

/// No key appears twice in the listing.
pub open spec fn keys_unique(s: Seq<ObjectView>) -> bool {
    forall|i: int, j: int| 0 <= i < j < s.len() ==> s[i].key != s[j].key
}

/// Some entry of the listing has the key.
pub open spec fn has_key(s: Seq<ObjectView>, key: Seq<char>) -> bool {
    exists|i: int| 0 <= i < s.len() && s[i].key == key
}

/// The source object must be copied: no destination entry under its key is
/// up to date.
pub open spec fn must_sync(o: ObjectView, dst: Seq<ObjectView>) -> bool {
    forall|i: int| 0 <= i < dst.len() && dst[i].key == o.key ==> differs(o, #[trigger] dst[i])
}

/// Source objects to copy, in listing order.
pub open spec fn sync_set(src: Seq<ObjectView>, dst: Seq<ObjectView>) -> Seq<ObjectView> {
    src.filter(|o: ObjectView| must_sync(o, dst))
}

/// The source object is left alone on the strength of its size alone: a
/// destination entry under its key has the same size but a checksum that
/// cannot be compared.
pub open spec fn size_only_match(o: ObjectView, dst: Seq<ObjectView>) -> bool {
    exists|i: int|
        0 <= i < dst.len() && dst[i].key == o.key && !differs(o, #[trigger] dst[i])
            && !checksums_comparable(o.checksum, dst[i].checksum)
}

/// Source objects left alone on a size match alone, in listing order.
pub open spec fn size_only_set(src: Seq<ObjectView>, dst: Seq<ObjectView>) -> Seq<ObjectView> {
    src.filter(|o: ObjectView| size_only_match(o, dst))
}

/// Destination objects with no source counterpart, in listing order.
pub open spec fn extraneous_set(src: Seq<ObjectView>, dst: Seq<ObjectView>) -> Seq<ObjectView> {
    dst.filter(|d: ObjectView| !has_key(src, d.key))
}

/// What must happen to a destination bucket to match its source.
pub struct MigrationPlan {
    pub to_sync: Vec<ObjectDescriptor>,
    pub to_delete: Vec<ObjectDescriptor>,
    /// Source objects not copied because their size matched while the
    /// checksums could not be compared: a weaker guarantee, to be reported.
    pub size_only: Vec<ObjectDescriptor>,
}

/// A listing that cannot be trusted to build a plan.
#[derive(PartialEq, Eq, Structural, Debug, Clone, Copy)]
pub enum PlanError {
    DuplicateSourceKey,
    DuplicateDestinationKey,
}

/// Index of each key of the listing, failing on the first repeated key.
fn index_keys(list: &Vec<ObjectDescriptor>) -> (r: Option<StringHashMap<usize>>)
    ensures
        r is None <==> !keys_unique(views(list@)),
        r matches Some(m) ==> {
            &&& forall|k: Seq<char>| #[trigger] m@.contains_key(k) <==> has_key(views(list@), k)
            &&& forall|i: int| 0 <= i < list@.len() ==> m@[#[trigger] list@[i].key@] == i
        },
{
    let ghost v = views(list@);
    let mut m: StringHashMap<usize> = StringHashMap::new();
    let mut i: usize = 0;
    while i < list.len()
        invariant
            v == views(list@),
            i <= list@.len(),
            keys_unique(v.take(i as int)),
            forall|k: Seq<char>| #[trigger] m@.contains_key(k) <==> has_key(v.take(i as int), k),
            forall|j: int| 0 <= j < i ==> m@[#[trigger] list@[j].key@] == j,
        decreases list@.len() - i,
    {
        let key = &list[i].key;
        if m.contains_key(key.as_str()) {
            proof {
                let j = choose|j: int| 0 <= j < i && v.take(i as int)[j].key == key@;
                assert(v[j].key == v[i as int].key);
            }
            return None;
        }
        let ghost before = m@;
        m.insert(key.clone(), i);
        proof {
            let t = v.take(i as int + 1);
            assert forall|j: int| 0 <= j < i implies m@[#[trigger] list@[j].key@] == j by {
                assert(v.take(i as int)[j].key == list@[j].key@);
                assert(before.contains_key(list@[j].key@));
            }
            assert(t.drop_last() == v.take(i as int));
            assert forall|k: Seq<char>| #[trigger] m@.contains_key(k) <==> has_key(t, k) by {
                if has_key(t, k) {
                    let j = choose|j: int| 0 <= j < t.len() && t[j].key == k;
                    if j < i {
                        assert(v.take(i as int)[j].key == k);
                    }
                }
                if has_key(v.take(i as int), k) {
                    let j = choose|j: int| 0 <= j < i && v.take(i as int)[j].key == k;
                    assert(t[j].key == k);
                }
                if k == key@ {
                    assert(t[i as int].key == k);
                }
            }
            assert forall|a: int, b: int| 0 <= a < b < t.len() implies t[a].key != t[b].key by {
                if b == i {
                    assert(v.take(i as int)[a].key == t[a].key);
                    assert(has_key(v.take(i as int), t[a].key));
                } else {
                    assert(v.take(i as int)[a] == t[a]);
                    assert(v.take(i as int)[b] == t[b]);
                }
            }
        }
        i = i + 1;
    }
    proof {
        assert(v.take(list@.len() as int) == v);
    }
    Some(m)
}

/// Compute the plan for a source listing `src` and a destination listing
/// `dst`. `to_sync` holds, in source order, every source object with no
/// up-to-date destination copy; `to_delete` holds, in destination order,
/// every destination object whose key is absent from the source, and is
/// empty unless `delete_extraneous` is set; `size_only` holds, in source
/// order, the source objects left alone on a size match alone. A listing
/// with a repeated key is refused.
pub fn compute_plan(
    src: &Vec<ObjectDescriptor>,
    dst: &Vec<ObjectDescriptor>,
    delete_extraneous: bool,
) -> (r: Result<MigrationPlan, PlanError>)
    ensures
        r == Err::<MigrationPlan, PlanError>(PlanError::DuplicateSourceKey) <==> !keys_unique(
            views(src@),
        ),
        r == Err::<MigrationPlan, PlanError>(PlanError::DuplicateDestinationKey) <==> keys_unique(
            views(src@),
        ) && !keys_unique(views(dst@)),
        r matches Ok(p) ==> {
            &&& views(p.to_sync@) == sync_set(views(src@), views(dst@))
            &&& views(p.size_only@) == size_only_set(views(src@), views(dst@))
            &&& views(p.to_delete@) == (if delete_extraneous {
                extraneous_set(views(src@), views(dst@))
            } else {
                Seq::empty()
            })
        },
{
    let ghost sv = views(src@);
    let ghost dv = views(dst@);
    let src_index = match index_keys(src) {
        Some(m) => m,
        None => return Err(PlanError::DuplicateSourceKey),
    };
    let dst_index = match index_keys(dst) {
        Some(m) => m,
        None => return Err(PlanError::DuplicateDestinationKey),
    };
    let ghost sync_pred = |o: ObjectView| must_sync(o, dv);
    let ghost weak_pred = |o: ObjectView| size_only_match(o, dv);
    let mut to_sync: Vec<ObjectDescriptor> = Vec::new();
    let mut size_only: Vec<ObjectDescriptor> = Vec::new();
    let mut i: usize = 0;
    while i < src.len()
        invariant
            sv == views(src@),
            dv == views(dst@),
            sync_pred == (|o: ObjectView| must_sync(o, dv)),
            keys_unique(dv),
            i <= src@.len(),
            forall|k: Seq<char>| #[trigger] dst_index@.contains_key(k) <==> has_key(dv, k),
            forall|j: int| 0 <= j < dst@.len() ==> dst_index@[#[trigger] dst@[j].key@] == j,
            weak_pred == (|o: ObjectView| size_only_match(o, dv)),
            views(to_sync@) == sv.take(i as int).filter(sync_pred),
            views(size_only@) == sv.take(i as int).filter(weak_pred),
        decreases src@.len() - i,
    {
        let o = &src[i];
        let (take, weak) = match dst_index.get(o.key.as_str()) {
            None => (true, false),
            Some(j) => {
                let d = &dst[*j];
                let diff = o.differs_from(d);
                (diff, !diff && !o.checksum_comparable_with(d))
            },
        };
        proof {
            let ov = sv[i as int];
            assert(ov == o@);
            if dst_index@.contains_key(o.key@) {
                let j = dst_index@[o.key@] as int;
                let w = choose|w: int| 0 <= w < dv.len() && dv[w].key == o.key@;
                assert(dst_index@[dst@[w].key@] == w);
                assert(j == w);
                assert forall|q: int| 0 <= q < dv.len() && dv[q].key == ov.key implies differs(
                    ov,
                    #[trigger] dv[q],
                ) == differs(ov, dv[j]) by {
                    if q != j {
                        if q < j {
                            assert(dv[q].key != dv[j].key);
                        } else {
                            assert(dv[j].key != dv[q].key);
                        }
                    }
                }
                assert(take == differs(ov, dv[j]));
                assert(take == must_sync(ov, dv));
                if size_only_match(ov, dv) {
                    let q = choose|q: int|
                        0 <= q < dv.len() && dv[q].key == ov.key && !differs(ov, #[trigger] dv[q])
                            && !checksums_comparable(ov.checksum, dv[q].checksum);
                    if q != j {
                        if q < j {
                            assert(dv[q].key != dv[j].key);
                        } else {
                            assert(dv[j].key != dv[q].key);
                        }
                    }
                }
                if weak {
                    assert(dv[j].key == ov.key);
                }
                assert(weak == size_only_match(ov, dv));
            } else {
                assert forall|q: int| 0 <= q < dv.len() && dv[q].key == ov.key implies differs(
                    ov,
                    #[trigger] dv[q],
                ) by {
                    assert(has_key(dv, ov.key));
                }
                assert(take == must_sync(ov, dv));
                if size_only_match(ov, dv) {
                    let q = choose|q: int|
                        0 <= q < dv.len() && dv[q].key == ov.key && !differs(ov, #[trigger] dv[q])
                            && !checksums_comparable(ov.checksum, dv[q].checksum);
                    assert(has_key(dv, ov.key));
                }
            }
            let t = sv.take(i as int + 1);
            assert(t.drop_last() == sv.take(i as int));
            assert(t.last() == ov);
            reveal(Seq::filter);
        }
        if take {
            to_sync.push(o.duplicate());
        }
        if weak {
            size_only.push(o.duplicate());
        }
        proof {
            let t = sv.take(i as int + 1);
            assert(views(to_sync@) == t.filter(sync_pred));
            assert(views(size_only@) == t.filter(weak_pred));
        }
        i = i + 1;
    }
    proof {
        assert(sv.take(src@.len() as int) == sv);
    }
    let ghost del_pred = |d: ObjectView| !has_key(sv, d.key);
    let mut to_delete: Vec<ObjectDescriptor> = Vec::new();
    if delete_extraneous {
        let mut j: usize = 0;
        while j < dst.len()
            invariant
                sv == views(src@),
                dv == views(dst@),
                del_pred == (|d: ObjectView| !has_key(sv, d.key)),
                j <= dst@.len(),
                forall|k: Seq<char>| #[trigger] src_index@.contains_key(k) <==> has_key(sv, k),
                views(to_delete@) == dv.take(j as int).filter(del_pred),
            decreases dst@.len() - j,
        {
            let d = &dst[j];
            let keep = !src_index.contains_key(d.key.as_str());
            proof {
                let t = dv.take(j as int + 1);
                assert(t.drop_last() == dv.take(j as int));
                assert(t.last() == d@);
                reveal(Seq::filter);
            }
            if keep {
                to_delete.push(d.duplicate());
            }
            proof {
                let t = dv.take(j as int + 1);
                assert(views(to_delete@) == t.filter(del_pred));
            }
            j = j + 1;
        }
        proof {
            assert(dv.take(dst@.len() as int) == dv);
        }
    }
    proof {
        assert(views(to_delete@) =~= Seq::<ObjectView>::empty() || delete_extraneous);
    }
    Ok(MigrationPlan { to_sync, to_delete, size_only })
}

proof fn lemma_filter_keeps_all(s: Seq<ObjectView>, pred: spec_fn(ObjectView) -> bool)
    requires
        forall|i: int| 0 <= i < s.len() ==> pred(#[trigger] s[i]),
    ensures
        s.filter(pred) == s,
    decreases s.len(),
{
    reveal(Seq::filter);
    if s.len() > 0 {
        lemma_filter_keeps_all(s.drop_last(), pred);
        assert(s.drop_last().push(s.last()) == s);
    }
}

proof fn lemma_filter_keeps_none(s: Seq<ObjectView>, pred: spec_fn(ObjectView) -> bool)
    requires
        forall|i: int| 0 <= i < s.len() ==> !pred(#[trigger] s[i]),
    ensures
        s.filter(pred) == Seq::<ObjectView>::empty(),
    decreases s.len(),
{
    reveal(Seq::filter);
    if s.len() > 0 {
        lemma_filter_keeps_none(s.drop_last(), pred);
    }
}

/// When no source key occurs in the destination, every source object is
/// copied, in listing order, and every destination object is extraneous.
pub proof fn law_disjoint_listings(src: Seq<ObjectView>, dst: Seq<ObjectView>)
    requires
        forall|i: int| 0 <= i < src.len() ==> !has_key(dst, #[trigger] src[i].key),
    ensures
        sync_set(src, dst) == src,
        extraneous_set(src, dst) == dst,
{
    assert forall|i: int| 0 <= i < src.len() implies must_sync(#[trigger] src[i], dst) by {
        assert forall|q: int| 0 <= q < dst.len() && dst[q].key == src[i].key implies differs(
            src[i],
            #[trigger] dst[q],
        ) by {
            assert(has_key(dst, src[i].key));
        }
    }
    lemma_filter_keeps_all(src, |o: ObjectView| must_sync(o, dst));
    assert forall|q: int| 0 <= q < dst.len() implies !has_key(src, #[trigger] dst[q].key) by {
        if has_key(src, dst[q].key) {
            let i = choose|i: int| 0 <= i < src.len() && src[i].key == dst[q].key;
            assert(!has_key(dst, src[i].key));
        }
    }
    lemma_filter_keeps_all(dst, |d: ObjectView| !has_key(src, d.key));
}

/// A source object with a destination copy of equal key, size and checksum
/// is never copied.
pub proof fn law_matching_copy_is_skipped(o: ObjectView, src: Seq<ObjectView>, dst: Seq<ObjectView>)
    requires
        exists|q: int|
            0 <= q < dst.len() && dst[q].key == o.key && dst[q].size == o.size
                && dst[q].checksum == o.checksum,
    ensures
        !sync_set(src, dst).contains(o),
{
    let q = choose|q: int|
        0 <= q < dst.len() && dst[q].key == o.key && dst[q].size == o.size && dst[q].checksum
            == o.checksum;
    assert(!differs(o, dst[q]));
    if sync_set(src, dst).contains(o) {
        let k = choose|k: int| 0 <= k < sync_set(src, dst).len() && sync_set(src, dst)[k] == o;
        src.lemma_filter_pred(|x: ObjectView| must_sync(x, dst), k);
    }
}

/// Diffing a listing against an identical one plans nothing: a second run
/// after a completed one copies and deletes nothing.
pub proof fn law_identical_listings_plan_nothing(s: Seq<ObjectView>)
    ensures
        sync_set(s, s) == Seq::<ObjectView>::empty(),
        extraneous_set(s, s) == Seq::<ObjectView>::empty(),
{
    assert forall|i: int| 0 <= i < s.len() implies !must_sync(#[trigger] s[i], s) by {
        assert(!differs(s[i], s[i]));
    }
    lemma_filter_keeps_none(s, |o: ObjectView| must_sync(o, s));
    assert forall|i: int| 0 <= i < s.len() implies has_key(s, #[trigger] s[i].key) by {}
    lemma_filter_keeps_none(s, |d: ObjectView| !has_key(s, d.key));
}

/// Keys of a listing.
pub open spec fn key_set(s: Seq<ObjectView>) -> Set<Seq<char>> {
    Set::new(|k: Seq<char>| has_key(s, k))
}

/// Keys at the destination once a plan has run in full: the extraneous
/// objects are gone and the copied ones are present.
pub open spec fn keys_after_run(src: Seq<ObjectView>, dst: Seq<ObjectView>) -> Set<Seq<char>> {
    key_set(dst).difference(key_set(extraneous_set(src, dst))).union(key_set(sync_set(src, dst)))
}

proof fn lemma_filter_member(s: Seq<ObjectView>, pred: spec_fn(ObjectView) -> bool, x: ObjectView)
    requires
        s.filter(pred).contains(x),
    ensures
        s.contains(x),
    decreases s.len(),
{
    reveal(Seq::filter);
    if s.len() > 0 {
        let r = s.drop_last().filter(pred);
        if r.contains(x) {
            lemma_filter_member(s.drop_last(), pred, x);
            let i = choose|i: int| 0 <= i < s.drop_last().len() && s.drop_last()[i] == x;
            assert(s[i] == x);
        } else {
            assert(x == s.last());
            assert(s[s.len() - 1] == x);
        }
    }
}

/// Once a plan made with deletion has run in full, the destination holds
/// exactly the keys of the source.
pub proof fn law_run_with_delete_mirrors_keys(src: Seq<ObjectView>, dst: Seq<ObjectView>)
    ensures
        keys_after_run(src, dst) == key_set(src),
{
    let sp = |o: ObjectView| must_sync(o, dst);
    let dp = |d: ObjectView| !has_key(src, d.key);
    assert forall|k: Seq<char>| key_set(src).contains(k) implies keys_after_run(
        src,
        dst,
    ).contains(k) by {
        let i = choose|i: int| 0 <= i < src.len() && src[i].key == k;
        if must_sync(src[i], dst) {
            src.lemma_filter_contains(sp, i);
            let t = sync_set(src, dst);
            let j = choose|j: int| 0 <= j < t.len() && t[j] == src[i];
            assert(has_key(t, k));
        } else {
            let q = choose|q: int|
                0 <= q < dst.len() && dst[q].key == src[i].key && !differs(src[i], #[trigger] dst[q]);
            assert(has_key(dst, k));
            if has_key(extraneous_set(src, dst), k) {
                let e = extraneous_set(src, dst);
                let j = choose|j: int| 0 <= j < e.len() && e[j].key == k;
                dst.lemma_filter_pred(dp, j);
            }
        }
    }
    assert forall|k: Seq<char>| keys_after_run(src, dst).contains(k) implies key_set(
        src,
    ).contains(k) by {
        let t = sync_set(src, dst);
        if has_key(t, k) {
            let j = choose|j: int| 0 <= j < t.len() && t[j].key == k;
            assert(t.contains(t[j]));
            lemma_filter_member(src, sp, t[j]);
        } else {
            let q = choose|q: int| 0 <= q < dst.len() && dst[q].key == k;
            if !has_key(src, k) {
                dst.lemma_filter_contains(dp, q);
                let e = extraneous_set(src, dst);
                let j = choose|j: int| 0 <= j < e.len() && e[j] == dst[q];
                assert(has_key(e, k));
            }
        }
    }
    assert(keys_after_run(src, dst) =~= key_set(src));
}

} // verus!
