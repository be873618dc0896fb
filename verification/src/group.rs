//! Workflow runs grouped by the commit they were made for. The groups live
//! in an `indexmap::IndexMap` from commit SHA to the positions of its runs.

use vstd::prelude::*;
use core::cmp::Ordering;
use indexmap::IndexMap;
use crate::num::{idx, wide};
use crate::order::{compare_pair, pair_le, pair_order};
use crate::output::Workflow;

verus! {

#[verifier::external_type_specification]
#[verifier::external_body]
#[verifier::reject_recursive_types(K)]
#[verifier::reject_recursive_types(V)]
#[verifier::reject_recursive_types(S)]
pub struct ExIndexMap<K, V, S>(IndexMap<K, V, S>);

/// Commit SHAs mapped to the positions of the runs made for them.
pub type ShaGroups = IndexMap<String, Vec<usize>>;

/// The entries of a `ShaGroups` map, in the map's order: each SHA with the
/// positions stored under it.
pub uninterp spec fn sha_entries(m: IndexMap<String, Vec<usize>>) -> Seq<(Seq<char>, Seq<usize>)>;

/// Whether some entry of `e` has the key `key`.
pub open spec fn has_key(e: Seq<(Seq<char>, Seq<usize>)>, key: Seq<char>) -> bool {
    exists|j: int| 0 <= j < e.len() && (#[trigger] e[j]).0 == key
}

/// An empty map with room for `n` entries.
///
/// Trusted: calls `IndexMap::with_capacity`, which indexmap documents as
/// creating an empty map.
#[verifier::external_body]
fn sha_map_with_capacity(n: usize) -> (m: ShaGroups)
    ensures
        sha_entries(m) == Seq::<(Seq<char>, Seq<usize>)>::empty(),
{
    IndexMap::with_capacity(n)
}

/// A copy of the positions stored under `key`, if any.
///
/// Trusted: calls `IndexMap::get` and clones the value found. indexmap's
/// source looks the key up by equality (a `String` key equals a `str` with
/// the same characters) and returns the value of that entry, or `None`
/// when no entry has the key.
#[verifier::external_body]
fn sha_map_get(m: &ShaGroups, key: &str) -> (r: Option<Vec<usize>>)
    ensures
        r is None <==> !has_key(sha_entries(*m), key@),
        r matches Some(v) ==> exists|j: int|
            0 <= j < sha_entries(*m).len() && (#[trigger] sha_entries(*m)[j]).0 == key@
                && sha_entries(*m)[j].1 == v@,
{
    m.get(key).cloned()
}

/// Stores `value` under `key`.
///
/// Trusted: calls `IndexMap::insert`. indexmap documents that when the key
/// is present it keeps its place in the order and only its value is
/// replaced, and that otherwise the new pair is added last.
#[verifier::external_body]
fn sha_map_insert(m: &mut ShaGroups, key: String, value: Vec<usize>)
    ensures
        forall|j: int|
            0 <= j < sha_entries(*old(m)).len() && (#[trigger] sha_entries(*old(m))[j]).0 == key@
                ==> sha_entries(*final(m)) == sha_entries(*old(m)).update(j, (key@, value@)),
        !has_key(sha_entries(*old(m)), key@) ==> sha_entries(*final(m)) == sha_entries(
            *old(m),
        ).push((key@, value@)),
{
    m.insert(key, value);
}

/// A copy of the positions stored in the first entry.
///
/// Trusted: calls `Index<usize>` of `IndexMap` (`m[0]`), which indexmap
/// documents as the value at that position of the order; it panics on an
/// empty map, which `requires` rules out.
#[verifier::external_body]
fn sha_map_first(m: &ShaGroups) -> (r: Vec<usize>)
    requires
        sha_entries(*m).len() > 0,
    ensures
        r@ == sha_entries(*m)[0].1,
{
    m[0].clone()
}

/// The SHA of the commit that the run at position `k` was made for.
pub open spec fn sha_at(wfs: Seq<Workflow>, k: int) -> Seq<char> {
    wfs[k].run.head_sha@
}

/// The positions, in increasing order, of the runs among the first `n`
/// that were made for commit `sha`.
pub open spec fn runs_for_sha(wfs: Seq<Workflow>, sha: Seq<char>, n: nat) -> Seq<usize>
    decreases n,
{
    if n == 0 {
        seq![]
    } else {
        let p = runs_for_sha(wfs, sha, (n - 1) as nat);
        if sha_at(wfs, n - 1) == sha {
            p.push((n - 1) as usize)
        } else {
            p
        }
    }
}

/// The positions of the runs made for the same commit as the run at `k`.
pub open spec fn group_of(wfs: Seq<Workflow>, k: int) -> Seq<usize> {
    runs_for_sha(wfs, sha_at(wfs, k), wfs.len())
}

/// `e` groups the first `n` runs by commit: each entry holds a SHA and all
/// the positions of its runs, every run's SHA has an entry, and no SHA has
/// two.
pub open spec fn is_sha_grouping(wfs: Seq<Workflow>, n: nat, e: Seq<(Seq<char>, Seq<usize>)>) -> bool {
    &&& forall|j: int|
        0 <= j < e.len() ==> (#[trigger] e[j]).1 == runs_for_sha(wfs, e[j].0, n) && e[j].1.len() > 0
    &&& forall|k: int| 0 <= k < n ==> has_key(e, #[trigger] sha_at(wfs, k))
    &&& forall|j1: int, j2: int| 0 <= j1 < j2 < e.len() ==> e[j1].0 != e[j2].0
}

/// The positions in `runs_for_sha` are runs made for `sha`, in increasing
/// order, and every such run among the first `n` is there.
pub proof fn lemma_runs_for_sha(wfs: Seq<Workflow>, sha: Seq<char>, n: nat)
    requires
        n <= wfs.len() <= usize::MAX,
    ensures
        forall|j: int|
            0 <= j < runs_for_sha(wfs, sha, n).len() ==> {
                let k = #[trigger] runs_for_sha(wfs, sha, n)[j];
                k < n && sha_at(wfs, idx(k)) == sha
            },
        forall|j1: int, j2: int|
            0 <= j1 < j2 < runs_for_sha(wfs, sha, n).len() ==> runs_for_sha(wfs, sha, n)[j1]
                < runs_for_sha(wfs, sha, n)[j2],
        forall|k: int|
            0 <= k < n && sha_at(wfs, k) == sha ==> runs_for_sha(wfs, sha, n).contains(
                k as usize,
            ),
    decreases n,
{
    if n > 0 {
        lemma_runs_for_sha(wfs, sha, (n - 1) as nat);
        let p = runs_for_sha(wfs, sha, (n - 1) as nat);
        let r = runs_for_sha(wfs, sha, n);
        assert forall|j: int| 0 <= j < r.len() implies r[j] < n && sha_at(wfs, idx(r[j])) == sha by {
            if j < p.len() {
                assert(r[j] == p[j]);
            }
        }
        assert forall|j1: int, j2: int| 0 <= j1 < j2 < r.len() implies r[j1] < r[j2] by {
            assert(r[j1] == p[j1]);
            if j2 < p.len() {
                assert(r[j2] == p[j2]);
            }
        }
        assert forall|k: int|
            0 <= k < n && sha_at(wfs, k) == sha implies runs_for_sha(wfs, sha, n).contains(
            k as usize,
        ) by {
            if k < n - 1 {
                let j = choose|j: int| 0 <= j < p.len() && p[j] == k as usize;
                assert(runs_for_sha(wfs, sha, n)[j] == k as usize);
            } else {
                assert(runs_for_sha(wfs, sha, n)[p.len() as int] == k as usize);
            }
        }
    }
}

/// The entries of `e` come in the order of their first positions.
pub open spec fn in_first_seen_order(e: Seq<(Seq<char>, Seq<usize>)>) -> bool {
    forall|j1: int, j2: int| 0 <= j1 < j2 < e.len() ==> e[j1].1[0] < e[j2].1[0]
}

/// Groups the runs of `wfs` by commit, in order of each commit's first run.
pub fn group_by_sha(wfs: &Vec<Workflow>) -> (m: ShaGroups)
    ensures
        is_sha_grouping(wfs@, wfs@.len(), sha_entries(m)),
        in_first_seen_order(sha_entries(m)),
{
    let mut m = sha_map_with_capacity(wfs.len());
    let n = wfs.len();
    for i in 0..n
        invariant
            n == wfs@.len(),
            is_sha_grouping(wfs@, i as nat, sha_entries(m)),
            in_first_seen_order(sha_entries(m)),
            forall|j: int| 0 <= j < sha_entries(m).len() ==> #[trigger] sha_entries(m)[j].1[0] < i,
    {
        let sha = wfs[i].run.head_sha.clone();
        let ghost e = sha_entries(m);
        let ghost s = sha@;
        assert(s == sha_at(wfs@, i as int));
        assert forall|t: Seq<char>| t != s implies runs_for_sha(wfs@, t, (i + 1) as nat)
            == runs_for_sha(wfs@, t, i as nat) by {}
        assert(runs_for_sha(wfs@, s, (i + 1) as nat) == runs_for_sha(wfs@, s, i as nat).push(i));
        match sha_map_get(&m, sha.as_str()) {
            Some(mut v) => {
                let ghost j = choose|j: int| 0 <= j < e.len() && e[j].0 == s && e[j].1 == v@;
                v.push(i);
                sha_map_insert(&mut m, sha, v);
                assert(sha_entries(m) == e.update(j, (s, v@)));
                assert forall|k: int| 0 <= k < i + 1 implies has_key(
                    sha_entries(m),
                    #[trigger] sha_at(wfs@, k),
                ) by {
                    if k < i {
                        let j2 = choose|j2: int| 0 <= j2 < e.len() && e[j2].0 == sha_at(wfs@, k);
                        assert(sha_entries(m)[j2].0 == sha_at(wfs@, k));
                    } else {
                        assert(sha_entries(m)[j].0 == sha_at(wfs@, k));
                    }
                }
            },
            None => {
                proof {
                    lemma_runs_for_sha(wfs@, s, i as nat);
                    if runs_for_sha(wfs@, s, i as nat).len() > 0 {
                        let k = runs_for_sha(wfs@, s, i as nat)[0];
                        assert(has_key(e, sha_at(wfs@, k as int)));
                    }
                    assert(runs_for_sha(wfs@, s, i as nat) =~= seq![]);
                }
                let v = vec![i];
                sha_map_insert(&mut m, sha, v);
                assert(sha_entries(m) == e.push((s, v@)));
                assert(v@ =~= runs_for_sha(wfs@, s, (i + 1) as nat));
                assert forall|k: int| 0 <= k < i + 1 implies has_key(
                    sha_entries(m),
                    #[trigger] sha_at(wfs@, k),
                ) by {
                    if k < i {
                        let j2 = choose|j2: int| 0 <= j2 < e.len() && e[j2].0 == sha_at(wfs@, k);
                        assert(sha_entries(m)[j2].0 == sha_at(wfs@, k));
                    } else {
                        assert(sha_entries(m)[e.len() as int].0 == sha_at(wfs@, k));
                    }
                }
            },
        }
    }
    m
}

/// The `(updated_at, created_at)` instants of the run at position `k`.
pub open spec fn run_key(wfs: Seq<Workflow>, k: int) -> (int, int) {
    (wfs[k].run.updated_at@, wfs[k].run.created_at@)
}

/// The latest `updated_at` among the runs at the positions `g`.
pub open spec fn latest_update(wfs: Seq<Workflow>, g: Seq<usize>) -> int
    decreases g.len(),
{
    if g.len() <= 1 {
        wfs[idx(g[0])].run.updated_at@
    } else {
        let a = latest_update(wfs, g.drop_last());
        let b = wfs[idx(g.last())].run.updated_at@;
        if a < b {
            b
        } else {
            a
        }
    }
}

/// The latest `created_at` among the runs at the positions `g`.
pub open spec fn latest_creation(wfs: Seq<Workflow>, g: Seq<usize>) -> int
    decreases g.len(),
{
    if g.len() <= 1 {
        wfs[idx(g[0])].run.created_at@
    } else {
        let a = latest_creation(wfs, g.drop_last());
        let b = wfs[idx(g.last())].run.created_at@;
        if a < b {
            b
        } else {
            a
        }
    }
}

/// How recent the runs at `g` are: their latest update, then their latest
/// creation, each taken on its own.
pub open spec fn recency(wfs: Seq<Workflow>, g: Seq<usize>) -> (int, int) {
    (latest_update(wfs, g), latest_creation(wfs, g))
}

/// The greatest `(updated_at, created_at)` pair, compared
/// lexicographically, among the runs at `g`.
pub open spec fn latest_run_key(wfs: Seq<Workflow>, g: Seq<usize>) -> (int, int)
    decreases g.len(),
{
    if g.len() <= 1 {
        run_key(wfs, idx(g[0]))
    } else {
        let a = latest_run_key(wfs, g.drop_last());
        let b = run_key(wfs, idx(g.last()));
        if pair_le(a, b) {
            b
        } else {
            a
        }
    }
}

/// Position `p` of `g` holds the first of the runs at `g` whose
/// `(updated_at, created_at)` is the greatest.
pub open spec fn is_first_latest(wfs: Seq<Workflow>, g: Seq<usize>, p: int) -> bool {
    &&& 0 <= p < g.len()
    &&& run_key(wfs, idx(g[p])) == latest_run_key(wfs, g)
    &&& forall|t: int| 0 <= t < p ==> run_key(wfs, idx(g[t])) != latest_run_key(wfs, g)
}

/// Every run at `g` is at most as late as `latest_run_key`, which is the
/// key of one of them and starts with the latest update among them.
pub proof fn lemma_latest_run_key(wfs: Seq<Workflow>, g: Seq<usize>)
    requires
        g.len() > 0,
    ensures
        forall|t: int| 0 <= t < g.len() ==> pair_le(run_key(wfs, idx(g[t])), latest_run_key(wfs, g)),
        exists|t: int| 0 <= t < g.len() && run_key(wfs, idx(g[t])) == latest_run_key(wfs, g),
        latest_run_key(wfs, g).0 == latest_update(wfs, g),
    decreases g.len(),
{
    if g.len() > 1 {
        let h = g.drop_last();
        lemma_latest_run_key(wfs, h);
        let t0 = choose|t: int| 0 <= t < h.len() && run_key(wfs, idx(h[t])) == latest_run_key(wfs, h);
        assert(g[t0] == h[t0]);
        assert forall|t: int| 0 <= t < g.len() implies pair_le(
            run_key(wfs, idx(g[t])),
            latest_run_key(wfs, g),
        ) by {
            if t < h.len() {
                assert(g[t] == h[t]);
            }
        }
        if pair_le(latest_run_key(wfs, h), run_key(wfs, idx(g.last()))) {
            assert(run_key(wfs, idx(g[g.len() - 1])) == latest_run_key(wfs, g));
        } else {
            assert(run_key(wfs, idx(g[t0])) == latest_run_key(wfs, g));
        }
    } else {
        assert(run_key(wfs, idx(g[0])) == latest_run_key(wfs, g));
    }
}

/// `latest_update` and `latest_creation` are the greatest update and the
/// greatest creation among the runs at `g`: no run exceeds them and some run
/// reaches each.
pub proof fn lemma_latest_update_and_creation(wfs: Seq<Workflow>, g: Seq<usize>)
    requires
        g.len() > 0,
    ensures
        forall|t: int| 0 <= t < g.len() ==> wfs[idx(#[trigger] g[t])].run.updated_at@ <= latest_update(wfs, g),
        forall|t: int| 0 <= t < g.len() ==> wfs[idx(#[trigger] g[t])].run.created_at@ <= latest_creation(wfs, g),
        exists|t: int| 0 <= t < g.len() && wfs[idx(#[trigger] g[t])].run.updated_at@ == latest_update(wfs, g),
        exists|t: int| 0 <= t < g.len() && wfs[idx(#[trigger] g[t])].run.created_at@ == latest_creation(wfs, g),
    decreases g.len(),
{
    if g.len() > 1 {
        let h = g.drop_last();
        lemma_latest_update_and_creation(wfs, h);
        let tu = choose|t: int| 0 <= t < h.len() && wfs[idx(#[trigger] h[t])].run.updated_at@ == latest_update(wfs, h);
        let tc = choose|t: int| 0 <= t < h.len() && wfs[idx(#[trigger] h[t])].run.created_at@ == latest_creation(wfs, h);
        assert(g[tu] == h[tu] && g[tc] == h[tc]);
        assert(g[g.len() - 1] == g.last());
        assert forall|t: int| 0 <= t < g.len() implies wfs[idx(#[trigger] g[t])].run.updated_at@ <= latest_update(wfs, g)
            && wfs[idx(g[t])].run.created_at@ <= latest_creation(wfs, g) by {
            if t < h.len() {
                assert(g[t] == h[t]);
            }
        }
    } else {
        assert(wfs[idx(g[0])].run.updated_at@ == latest_update(wfs, g));
    }
}

/// Every entry of `e` holds at least one position, all of them within `wfs`.
pub open spec fn groups_in_range(wfs: Seq<Workflow>, e: Seq<(Seq<char>, Seq<usize>)>) -> bool {
    forall|j: int|
        0 <= j < e.len() ==> (#[trigger] e[j]).1.len() > 0 && forall|t: int|
            0 <= t < e[j].1.len() ==> e[j].1[t] < wfs.len()
}

/// Positions that are nonempty and within `wfs`.
pub open spec fn positions_in_range(wfs: Seq<Workflow>, g: Seq<usize>) -> bool {
    g.len() > 0 && forall|t: int| 0 <= t < g.len() ==> g[t] < wfs.len()
}

/// The latest update and the latest creation among the runs at `g`.
pub fn recency_of(wfs: &Vec<Workflow>, g: &Vec<usize>) -> (r: (i128, i128))
    requires
        positions_in_range(wfs@, g@),
    ensures
        (wide(r.0), wide(r.1)) == recency(wfs@, g@),
{
    let first = &wfs[g[0]].run;
    let mut updated = first.updated_at.as_nanosecond();
    let mut created = first.created_at.as_nanosecond();
    let n = g.len();
    assert(g@.take(1).len() == 1);
    for i in 1..n
        invariant
            n == g@.len(),
            positions_in_range(wfs@, g@),
            wide(updated) == latest_update(wfs@, g@.take(i as int)),
            wide(created) == latest_creation(wfs@, g@.take(i as int)),
    {
        let run = &wfs[g[i]].run;
        let u = run.updated_at.as_nanosecond();
        let c = run.created_at.as_nanosecond();
        assert(g@.take(i + 1).drop_last() =~= g@.take(i as int));
        assert(g@.take(i + 1).last() == g@[i as int]);
        if updated < u {
            updated = u;
        }
        if created < c {
            created = c;
        }
    }
    assert(g@.take(n as int) =~= g@);
    (updated, created)
}

/// The greatest `(updated_at, created_at)` pair among the runs at `g`, and
/// the first position in `g` (counted within `g`) of a run that has it.
pub fn latest_run_of(wfs: &Vec<Workflow>, g: &Vec<usize>) -> (r: ((i128, i128), usize))
    requires
        positions_in_range(wfs@, g@),
    ensures
        (wide(r.0.0), wide(r.0.1)) == latest_run_key(wfs@, g@),
        r.1 < g@.len(),
        run_key(wfs@, idx(g@[idx(r.1)])) == latest_run_key(wfs@, g@),
        forall|t: int| 0 <= t < r.1 ==> run_key(wfs@, idx(g@[t])) != latest_run_key(wfs@, g@),
{
    let first = &wfs[g[0]].run;
    let mut best = (first.updated_at.as_nanosecond(), first.created_at.as_nanosecond());
    let mut at: usize = 0;
    let n = g.len();
    assert(g@.take(1).len() == 1);
    for i in 1..n
        invariant
            n == g@.len(),
            positions_in_range(wfs@, g@),
            (wide(best.0), wide(best.1)) == latest_run_key(wfs@, g@.take(i as int)),
            at < i,
            run_key(wfs@, idx(g@[idx(at)])) == (wide(best.0), wide(best.1)),
            forall|t: int| 0 <= t < at ==> run_key(wfs@, idx(g@[t])) != (wide(best.0), wide(best.1)),
            forall|t: int| 0 <= t < i ==> pair_le(run_key(wfs@, idx(g@[t])), (wide(best.0), wide(best.1))),
    {
        let run = &wfs[g[i]].run;
        let key = (run.updated_at.as_nanosecond(), run.created_at.as_nanosecond());
        assert(g@.take(i + 1).drop_last() =~= g@.take(i as int));
        assert(g@.take(i + 1).last() == g@[i as int]);
        if best.0 < key.0 || (best.0 == key.0 && best.1 < key.1) {
            best = key;
            at = i;
        }
    }
    assert(g@.take(n as int) =~= g@);
    (best, at)
}

/// Compares the groups `a` and `b` by `recency`.
pub fn compare_recency(wfs: &Vec<Workflow>, a: &Vec<usize>, b: &Vec<usize>) -> (r: Ordering)
    requires
        positions_in_range(wfs@, a@),
        positions_in_range(wfs@, b@),
    ensures
        r == pair_order(recency(wfs@, a@), recency(wfs@, b@)),
{
    compare_pair(recency_of(wfs, a), recency_of(wfs, b))
}

/// Compares the groups `a` and `b` by `latest_run_key`.
pub fn compare_latest_run(wfs: &Vec<Workflow>, a: &Vec<usize>, b: &Vec<usize>) -> (r: Ordering)
    requires
        positions_in_range(wfs@, a@),
        positions_in_range(wfs@, b@),
    ensures
        r == pair_order(latest_run_key(wfs@, a@), latest_run_key(wfs@, b@)),
{
    compare_pair(latest_run_of(wfs, a).0, latest_run_of(wfs, b).0)
}

/// Orders the groups from the most recent to the least, by `recency`.
///
/// Trusted: calls `IndexMap::sort_unstable_by` with a comparator that calls
/// the verified `compare_recency` with the two groups exchanged. indexmap
/// documents that this sorts the entries in place by the comparator; as the
/// comparator is a total order, the entries come out as a permutation of
/// the old ones, each at least as recent as every later one. Which of two
/// equally recent entries comes first is left open, as the sort is
/// unstable.
#[verifier::external_body]
fn sort_by_recency(m: &mut ShaGroups, wfs: &Vec<Workflow>)
    requires
        groups_in_range(wfs@, sha_entries(*old(m))),
    ensures
        sha_entries(*final(m)).to_multiset() == sha_entries(*old(m)).to_multiset(),
        forall|i: int, j: int|
            0 <= i < j < sha_entries(*final(m)).len() ==> pair_le(
                recency(wfs@, sha_entries(*final(m))[j].1),
                recency(wfs@, sha_entries(*final(m))[i].1),
            ),
{
    m.sort_unstable_by(|_, a, _, b| compare_recency(wfs, b, a));
}

/// Orders the groups from the most recent to the least, by
/// `latest_run_key`.
///
/// Trusted: calls `IndexMap::sort_unstable_by` with a comparator that calls
/// the verified `compare_latest_run` with the two groups exchanged; what it
/// claims is what `sort_by_recency` claims, for this key.
#[verifier::external_body]
fn sort_by_latest_run(m: &mut ShaGroups, wfs: &Vec<Workflow>)
    requires
        groups_in_range(wfs@, sha_entries(*old(m))),
    ensures
        sha_entries(*final(m)).to_multiset() == sha_entries(*old(m)).to_multiset(),
        forall|i: int, j: int|
            0 <= i < j < sha_entries(*final(m)).len() ==> pair_le(
                latest_run_key(wfs@, sha_entries(*final(m))[j].1),
                latest_run_key(wfs@, sha_entries(*final(m))[i].1),
            ),
{
    m.sort_unstable_by(|_, a, _, b| compare_latest_run(wfs, b, a));
}

/// `g` is the group of one commit's runs and no commit's group ranks above
/// it under `key`.
pub open spec fn is_latest_group(
    wfs: Seq<Workflow>,
    key: spec_fn(Seq<usize>) -> (int, int),
    g: Seq<usize>,
) -> bool {
    &&& g.len() > 0
    &&& g[0] < wfs.len()
    &&& g == group_of(wfs, idx(g[0]))
    &&& forall|k: int| 0 <= k < wfs.len() ==> pair_le(key(#[trigger] group_of(wfs, k)), key(g))
}

/// `g` is the group of the commit whose runs were updated last, then
/// created last (each by its latest run).
pub open spec fn is_most_recent_group(wfs: Seq<Workflow>, g: Seq<usize>) -> bool {
    is_latest_group(wfs, |h: Seq<usize>| recency(wfs, h), g)
}

/// `g` is the group of the commit that has the latest run, comparing runs
/// by `updated_at` and then `created_at`.
pub open spec fn is_latest_run_group(wfs: Seq<Workflow>, g: Seq<usize>) -> bool {
    is_latest_group(wfs, |h: Seq<usize>| latest_run_key(wfs, h), g)
}

/// A grouping whose entries were reordered from the highest rank under
/// `key` down starts with a latest group.
proof fn lemma_first_is_latest(
    wfs: Seq<Workflow>,
    key: spec_fn(Seq<usize>) -> (int, int),
    e: Seq<(Seq<char>, Seq<usize>)>,
    f: Seq<(Seq<char>, Seq<usize>)>,
)
    requires
        0 < wfs.len() <= usize::MAX,
        is_sha_grouping(wfs, wfs.len(), e),
        f.to_multiset() == e.to_multiset(),
        forall|i: int, j: int| 0 <= i < j < f.len() ==> pair_le(key(f[j].1), key(f[i].1)),
    ensures
        f.len() > 0,
        is_latest_group(wfs, key, f[0].1),
{
    broadcast use vstd::seq_lib::group_to_multiset_ensures;

    assert(has_key(e, sha_at(wfs, 0)));
    vstd::seq_lib::to_multiset_len(f);
    vstd::seq_lib::to_multiset_len(e);
    assert(f.len() == e.len());
    assert(f.contains(f[0]));
    assert(f.to_multiset().count(f[0]) > 0);
    assert(e.contains(f[0]));
    let j0 = choose|j: int| 0 <= j < e.len() && e[j] == f[0];
    let g = f[0].1;
    lemma_runs_for_sha(wfs, e[j0].0, wfs.len());
    assert(g[0] < wfs.len() && sha_at(wfs, idx(g[0])) == e[j0].0);
    assert forall|k: int| 0 <= k < wfs.len() implies pair_le(key(#[trigger] group_of(wfs, k)), key(g)) by {
        assert(has_key(e, sha_at(wfs, k)));
        let j = choose|j: int| 0 <= j < e.len() && e[j].0 == sha_at(wfs, k);
        assert(e.contains(e[j]));
        assert(e.to_multiset().count(e[j]) > 0);
        assert(f.contains(e[j]));
        let i = choose|i: int| 0 <= i < f.len() && f[i] == e[j];
        if i > 0 {
            assert(pair_le(key(f[i].1), key(f[0].1)));
        }
    }
}

/// The runs of the commit whose runs were updated last (then created last,
/// each by its latest run), as the positions of its runs in increasing
/// order. Which of two equally recent commits is chosen is left open.
pub fn latest_group_by_recency(wfs: &Vec<Workflow>) -> (g: Vec<usize>)
    requires
        wfs@.len() > 0,
    ensures
        is_most_recent_group(wfs@, g@),
{
    let n = wfs.len();
    assert(n <= usize::MAX);
    let mut m = group_by_sha(wfs);
    let ghost e = sha_entries(m);
    proof {
        lemma_grouping_in_range(wfs@, e);
    }
    sort_by_recency(&mut m, wfs);
    proof {
        broadcast use vstd::seq_lib::group_to_multiset_ensures;
        lemma_first_is_latest(wfs@, |h: Seq<usize>| recency(wfs@, h), e, sha_entries(m));
    }
    sha_map_first(&m)
}

/// The runs of the commit that has the latest run (by `updated_at`, then
/// `created_at`), as the positions of its runs in increasing order. Which of
/// two commits with equally late runs is chosen is left open.
pub fn latest_group_by_run(wfs: &Vec<Workflow>) -> (g: Vec<usize>)
    requires
        wfs@.len() > 0,
    ensures
        is_latest_run_group(wfs@, g@),
{
    let n = wfs.len();
    assert(n <= usize::MAX);
    let mut m = group_by_sha(wfs);
    let ghost e = sha_entries(m);
    proof {
        lemma_grouping_in_range(wfs@, e);
    }
    sort_by_latest_run(&mut m, wfs);
    proof {
        broadcast use vstd::seq_lib::group_to_multiset_ensures;
        lemma_first_is_latest(wfs@, |h: Seq<usize>| latest_run_key(wfs@, h), e, sha_entries(m));
    }
    sha_map_first(&m)
}

/// The groups of a grouping are nonempty and point into `wfs`.
proof fn lemma_grouping_in_range(wfs: Seq<Workflow>, e: Seq<(Seq<char>, Seq<usize>)>)
    requires
        wfs.len() <= usize::MAX,
        is_sha_grouping(wfs, wfs.len(), e),
    ensures
        groups_in_range(wfs, e),
{
    assert forall|j: int| 0 <= j < e.len() implies (#[trigger] e[j]).1.len() > 0 && forall|t: int|
        0 <= t < e[j].1.len() ==> e[j].1[t] < wfs.len() by {
        lemma_runs_for_sha(wfs, e[j].0, wfs.len());
    }
}

} // verus!
