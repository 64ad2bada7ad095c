//! Properties of whole runs: what planning never queues, what it refuses,
//! and what a fresh planning pass finds after some steps were executed.
use vstd::prelude::*;
use crate::catalog::{
    dir_exists, entry_exists, has_checksum, ids_unique, is_candidate, select, set_checksum,
    with_checksum, FilePathRecord,
};
use crate::job::{plan, plan_scope, run_steps, step_effect, ObjectValidatorJobInit, ValidatorError};
use crate::path::resolve_components;

verus! {

/// Every queued record is a candidate, taken from the catalog.
pub proof fn lemma_select_members(recs: Seq<FilePathRecord>, location_id: i32, scope: Option<Seq<char>>)
    ensures
        forall|j: int|
            0 <= j < select(recs, location_id, scope).len() ==> {
                &&& is_candidate(#[trigger] select(recs, location_id, scope)[j], location_id, scope)
                &&& exists|i: int| 0 <= i < recs.len() && recs[i] == select(recs, location_id, scope)[j]
            },
    decreases recs.len(),
{
    if recs.len() > 0 {
        let init = recs.drop_last();
        lemma_select_members(init, location_id, scope);
        let rest = select(init, location_id, scope);
        let s = select(recs, location_id, scope);
        assert forall|j: int| 0 <= j < s.len() implies {
            &&& is_candidate(#[trigger] s[j], location_id, scope)
            &&& exists|i: int| 0 <= i < recs.len() && recs[i] == s[j]
        } by {
            if j < rest.len() {
                assert(s[j] == rest[j]);
                let i = choose|i: int| 0 <= i < init.len() && init[i] == rest[j];
                assert(recs[i] == init[i]);
            } else {
                assert(s[j] == recs[recs.len() - 1]);
            }
        }
    }
}

/// Exclusion: a record that has a checksum when planning runs is never
/// queued; every queued record is a file of the location without one.
pub proof fn lemma_checksummed_never_queued(recs: Seq<FilePathRecord>, init: ObjectValidatorJobInit)
    ensures
        plan(recs, init) matches Ok(steps) ==> forall|j: int|
            0 <= j < steps.len() ==> {
                &&& (#[trigger] steps[j]).integrity_checksum is None
                &&& !steps[j].is_dir
                &&& steps[j].location_id == init.location.id
            },
        plan(recs, init) matches Ok(steps) ==> forall|i: int|
            0 <= i < recs.len() && (#[trigger] recs[i]).integrity_checksum is Some ==> !steps.contains(recs[i]),
{
    if let Ok(steps) = plan(recs, init) {
        let scope = plan_scope(recs, init)->Ok_0;
        lemma_select_members(recs, init.location.id, scope);
        assert forall|i: int| 0 <= i < recs.len() && (#[trigger] recs[i]).integrity_checksum is Some
            implies !steps.contains(recs[i]) by {
            if steps.contains(recs[i]) {
                let j = choose|j: int| 0 <= j < steps.len() && steps[j] == recs[i];
                assert(is_candidate(steps[j], init.location.id, scope));
            }
        }
    }
}

/// Scope containment: a sub-path that climbs out of the location root makes
/// planning fail with `SubPathOutsideLocation`. Planning only reads the
/// catalog, so nothing was written.
pub proof fn lemma_outside_sub_path_refused(recs: Seq<FilePathRecord>, init: ObjectValidatorJobInit)
    requires
        init.location.path is Some,
        init.sub_path matches Some(sp) && resolve_components(sp@) is None,
    ensures
        plan(recs, init) == Err::<Seq<FilePathRecord>, ValidatorError>(ValidatorError::SubPathOutsideLocation),
{
}

/// Two records for the same entry, whatever their checksums.
pub open spec fn same_entry(a: FilePathRecord, b: FilePathRecord) -> bool {
    &&& a.id == b.id
    &&& a.location_id == b.location_id
    &&& a.materialized_path == b.materialized_path
    &&& a.name == b.name
    &&& a.is_dir == b.is_dir
}

/// The identifiers of the first `k` queued records.
pub open spec fn queued_ids(s: Seq<FilePathRecord>, k: int) -> Set<u64> {
    Set::new(|id: u64| exists|a: int| 0 <= a < k && #[trigger] s[a].id == id)
}

/// `s` without the records whose identifier is in `ids`.
pub open spec fn drop_ids(s: Seq<FilePathRecord>, ids: Set<u64>) -> Seq<FilePathRecord>
    decreases s.len(),
{
    if s.len() == 0 {
        Seq::empty()
    } else {
        let rest = drop_ids(s.drop_last(), ids);
        if ids.contains(s.last().id) {
            rest
        } else {
            rest.push(s.last())
        }
    }
}

pub open spec fn seq_ids_unique(s: Seq<FilePathRecord>) -> bool {
    forall|a: int, b: int| 0 <= a < s.len() && 0 <= b < s.len() && #[trigger] s[a].id == #[trigger] s[b].id ==> a == b
}

/// How the records stand after the first `k` steps: the same entries, with
/// a checksum on exactly the queued candidates among them.
pub open spec fn run_shape(
    recs: Seq<FilePathRecord>,
    c: Seq<FilePathRecord>,
    ids: Set<u64>,
    location_id: i32,
    scope: Option<Seq<char>>,
) -> bool {
    &&& c.len() == recs.len()
    &&& forall|i: int| 0 <= i < recs.len() ==> {
        &&& same_entry(recs[i], #[trigger] c[i])
        &&& if is_candidate(recs[i], location_id, scope) && ids.contains(recs[i].id) {
            c[i].integrity_checksum is Some
        } else {
            c[i] == recs[i]
        }
    }
}

proof fn lemma_select_ids_unique(recs: Seq<FilePathRecord>, location_id: i32, scope: Option<Seq<char>>)
    requires
        ids_unique(recs),
    ensures
        seq_ids_unique(select(recs, location_id, scope)),
    decreases recs.len(),
{
    if recs.len() > 0 {
        let init = recs.drop_last();
        assert(ids_unique(init)) by {
            assert forall|i: int, j: int| 0 <= i < init.len() && 0 <= j < init.len() && #[trigger] init[i].id == #[trigger] init[j].id implies i == j by {
                assert(recs[i] == init[i] && recs[j] == init[j]);
            }
        }
        lemma_select_ids_unique(init, location_id, scope);
        lemma_select_members(init, location_id, scope);
        let rest = select(init, location_id, scope);
        let s = select(recs, location_id, scope);
        let n = recs.len() - 1;
        assert forall|a: int, b: int| 0 <= a < s.len() && 0 <= b < s.len() && #[trigger] s[a].id == #[trigger] s[b].id implies a == b by {
            if a < rest.len() && b < rest.len() {
                assert(s[a] == rest[a] && s[b] == rest[b]);
            } else if a < rest.len() || b < rest.len() {
                let x = if a < rest.len() { a } else { b };
                assert(s[x] == rest[x]);
                let i = choose|i: int| 0 <= i < init.len() && init[i] == rest[x];
                assert(recs[i] == init[i]);
                assert(recs[n] == s[s.len() - 1]);
                assert(recs[i].id == recs[n].id);
            }
        }
    }
}

proof fn lemma_same_entries_same_scope(
    recs: Seq<FilePathRecord>,
    c: Seq<FilePathRecord>,
    init: ObjectValidatorJobInit,
)
    requires
        c.len() == recs.len(),
        forall|i: int| 0 <= i < recs.len() ==> same_entry(recs[i], #[trigger] c[i]),
    ensures
        plan_scope(c, init) == plan_scope(recs, init),
{
    assert forall|p: Seq<char>, l: i32| dir_exists(c, l, p) == dir_exists(recs, l, p) && entry_exists(c, l, p) == entry_exists(recs, l, p) by {
        if dir_exists(c, l, p) {
            let k = choose|k: int| 0 <= k < c.len() && #[trigger] c[k].location_id == l && crate::catalog::entry_children_prefix(c[k]) == p && c[k].is_dir;
            assert(same_entry(recs[k], c[k]));
            assert(recs[k].location_id == l);
        }
        if dir_exists(recs, l, p) {
            let k = choose|k: int| 0 <= k < recs.len() && #[trigger] recs[k].location_id == l && crate::catalog::entry_children_prefix(recs[k]) == p && recs[k].is_dir;
            assert(same_entry(recs[k], c[k]));
            assert(c[k].location_id == l);
        }
        if entry_exists(c, l, p) {
            let k = choose|k: int| 0 <= k < c.len() && #[trigger] c[k].location_id == l && crate::catalog::entry_children_prefix(c[k]) == p;
            assert(same_entry(recs[k], c[k]));
            assert(recs[k].location_id == l);
        }
        if entry_exists(recs, l, p) {
            let k = choose|k: int| 0 <= k < recs.len() && #[trigger] recs[k].location_id == l && crate::catalog::entry_children_prefix(recs[k]) == p;
            assert(same_entry(recs[k], c[k]));
            assert(c[k].location_id == l);
        }
    }
}

proof fn lemma_select_after(
    recs: Seq<FilePathRecord>,
    c: Seq<FilePathRecord>,
    ids: Set<u64>,
    location_id: i32,
    scope: Option<Seq<char>>,
)
    requires
        run_shape(recs, c, ids, location_id, scope),
    ensures
        select(c, location_id, scope) == drop_ids(select(recs, location_id, scope), ids),
    decreases recs.len(),
{
    if recs.len() > 0 {
        let n = recs.len() - 1;
        assert(run_shape(recs.drop_last(), c.drop_last(), ids, location_id, scope)) by {
            assert forall|i: int| 0 <= i < recs.drop_last().len() implies {
                &&& same_entry(recs.drop_last()[i], #[trigger] c.drop_last()[i])
                &&& if is_candidate(recs.drop_last()[i], location_id, scope) && ids.contains(recs.drop_last()[i].id) {
                    c.drop_last()[i].integrity_checksum is Some
                } else {
                    c.drop_last()[i] == recs.drop_last()[i]
                }
            } by {
                assert(recs.drop_last()[i] == recs[i] && c.drop_last()[i] == c[i]);
            }
        }
        lemma_select_after(recs.drop_last(), c.drop_last(), ids, location_id, scope);
        assert(same_entry(recs[n], c[n]));
        let rest = select(recs.drop_last(), location_id, scope);
        if is_candidate(recs[n], location_id, scope) {
            assert(select(recs, location_id, scope) == rest.push(recs[n]));
            assert(rest.push(recs[n]).drop_last() =~= rest);
        }
    }
}

proof fn lemma_drop_queued_prefix(s: Seq<FilePathRecord>, k: int, m: int)
    requires
        0 <= m <= k <= s.len(),
    ensures
        drop_ids(s.take(m), queued_ids(s, k)) == Seq::<FilePathRecord>::empty(),
    decreases m,
{
    if m > 0 {
        assert(s.take(m).drop_last() =~= s.take(m - 1));
        lemma_drop_queued_prefix(s, k, m - 1);
        assert(queued_ids(s, k).contains(s[m - 1].id));
    }
}

proof fn lemma_drop_queued(s: Seq<FilePathRecord>, k: int, n: int)
    requires
        seq_ids_unique(s),
        0 <= k <= n <= s.len(),
    ensures
        drop_ids(s.take(n), queued_ids(s, k)) == s.subrange(k, n),
    decreases n - k,
{
    if n == k {
        lemma_drop_queued_prefix(s, k, k);
        assert(s.subrange(k, k) =~= Seq::<FilePathRecord>::empty());
    } else {
        lemma_drop_queued(s, k, n - 1);
        assert(s.take(n).drop_last() =~= s.take(n - 1));
        assert(!queued_ids(s, k).contains(s[n - 1].id)) by {
            if queued_ids(s, k).contains(s[n - 1].id) {
                let a = choose|a: int| 0 <= a < k && #[trigger] s[a].id == s[n - 1].id;
                assert(a == n - 1);
            }
        }
        assert(s.subrange(k, n - 1).push(s[n - 1]) =~= s.subrange(k, n));
    }
}

proof fn lemma_run_shape(
    recs: Seq<FilePathRecord>,
    s: Seq<FilePathRecord>,
    sums: Seq<String>,
    location_id: i32,
    scope: Option<Seq<char>>,
    k: nat,
)
    requires
        ids_unique(recs),
        s == select(recs, location_id, scope),
        k <= s.len() <= sums.len(),
    ensures
        run_shape(recs, run_steps(recs, s, sums, k), queued_ids(s, k as int), location_id, scope),
    decreases k,
{
    if k == 0 {
        assert forall|i: int| 0 <= i < recs.len() implies !queued_ids(s, 0).contains(recs[i].id) by {}
    } else {
        let j = k - 1;
        lemma_run_shape(recs, s, sums, location_id, scope, j as nat);
        lemma_select_members(recs, location_id, scope);
        lemma_select_ids_unique(recs, location_id, scope);
        let c = run_steps(recs, s, sums, j as nat);
        let step = s[j];
        let id = step.id;
        assert(is_candidate(step, location_id, scope));
        let m = choose|m: int| 0 <= m < recs.len() && recs[m] == step;
        let before = queued_ids(s, j);
        let after = queued_ids(s, k as int);
        assert(!before.contains(id)) by {
            if before.contains(id) {
                let a = choose|a: int| 0 <= a < j && #[trigger] s[a].id == id;
                assert(s[a].id == s[j].id);
            }
        }
        assert forall|x: u64| after.contains(x) == (before.contains(x) || x == id) by {
            if after.contains(x) && x != id {
                let a = choose|a: int| 0 <= a < k && #[trigger] s[a].id == x;
                assert(before.contains(x));
            }
            if before.contains(x) {
                let a = choose|a: int| 0 <= a < j && #[trigger] s[a].id == x;
                assert(after.contains(x));
            }
            if x == id {
                assert(s[j].id == x);
                assert(after.contains(x));
            }
        }
        assert(!has_checksum(c, id)) by {
            if has_checksum(c, id) {
                let i = choose|i: int| 0 <= i < c.len() && #[trigger] c[i].id == id && c[i].integrity_checksum is Some;
                assert(same_entry(recs[i], c[i]));
                assert(recs[i].id == recs[m].id);
            }
        }
        let next = run_steps(recs, s, sums, k);
        assert(next == step_effect(c, step, sums[j]));
        assert(next == set_checksum(c, id, sums[j]));
        assert forall|i: int| 0 <= i < recs.len() implies {
            &&& same_entry(recs[i], #[trigger] next[i])
            &&& if is_candidate(recs[i], location_id, scope) && after.contains(recs[i].id) {
                next[i].integrity_checksum is Some
            } else {
                next[i] == recs[i]
            }
        } by {
            assert(same_entry(recs[i], c[i]));
            assert(next[i] == with_checksum(c[i], id, sums[j]));
            if recs[i].id == id {
                assert(recs[i].id == recs[m].id);
                assert(i == m);
            }
        }
    }
}

/// Resumption: after the first `k` steps of a planned queue were executed,
/// a fresh planning pass queues exactly the remaining steps, in order; the
/// two runs together process every planned record once.
pub proof fn lemma_resume_plans_the_rest(
    recs: Seq<FilePathRecord>,
    init: ObjectValidatorJobInit,
    sums: Seq<String>,
    k: nat,
)
    requires
        ids_unique(recs),
        plan(recs, init) is Ok,
        k <= plan(recs, init)->Ok_0.len(),
        sums.len() == plan(recs, init)->Ok_0.len(),
    ensures
        ({
            let steps = plan(recs, init)->Ok_0;
            &&& plan(run_steps(recs, steps, sums, k), init) == Ok::<Seq<FilePathRecord>, ValidatorError>(
                steps.skip(k as int),
            )
            &&& steps.take(k as int) + steps.skip(k as int) == steps
        }),
{
    let steps = plan(recs, init)->Ok_0;
    let scope = plan_scope(recs, init)->Ok_0;
    let location_id = init.location.id;
    lemma_run_shape(recs, steps, sums, location_id, scope, k);
    let c = run_steps(recs, steps, sums, k);
    lemma_same_entries_same_scope(recs, c, init);
    lemma_select_after(recs, c, queued_ids(steps, k as int), location_id, scope);
    lemma_select_ids_unique(recs, location_id, scope);
    lemma_drop_queued(steps, k as int, steps.len() as int);
    assert(steps.take(steps.len() as int) =~= steps);
    assert(steps.subrange(k as int, steps.len() as int) =~= steps.skip(k as int));
    assert(steps.take(k as int) + steps.skip(k as int) =~= steps);
}

/// Idempotence: once every planned step was executed, planning again queues
/// nothing, so a second run leaves every checksum as the first one left it.
pub proof fn lemma_second_run_plans_nothing(
    recs: Seq<FilePathRecord>,
    init: ObjectValidatorJobInit,
    sums: Seq<String>,
    more: Seq<String>,
)
    requires
        ids_unique(recs),
        plan(recs, init) is Ok,
        sums.len() == plan(recs, init)->Ok_0.len(),
    ensures
        ({
            let steps = plan(recs, init)->Ok_0;
            let done = run_steps(recs, steps, sums, steps.len());
            &&& plan(done, init) == Ok::<Seq<FilePathRecord>, ValidatorError>(Seq::empty())
            &&& run_steps(done, Seq::empty(), more, 0) == done
        }),
{
    let steps = plan(recs, init)->Ok_0;
    lemma_resume_plans_the_rest(recs, init, sums, steps.len());
    assert(steps.skip(steps.len() as int) =~= Seq::<FilePathRecord>::empty());
}

} // verus!
