//! The summary of a repository's workflow runs: how many there are, and
//! the state of the runs of the commit that was worked on last.

use vstd::prelude::*;
use core::cmp::Ordering;
use crate::group::{
    is_first_latest, is_most_recent_group, lemma_latest_run_key, latest_group_by_recency,
    latest_run_of, recency,
};
use crate::num::idx;
use crate::order::{
    flipped, lemma_text_order_equal, lemma_text_pair_flip, lemma_text_pair_transitive, not_after,
    pair_order, text_order, then_order,
};
use crate::sort::TotalPreorder;
use crate::output::{Workflow, Workflows};
use crate::timestamp::{duration_sec, span_seconds, Timestamp};
use crate::types::HeadCommit;

verus! {

/// The runs made for the commit that was worked on last, taken together.
pub struct LastWorkflow {
    /// When the latest of these runs (the latest updated, then the latest
    /// created) was created.
    pub created_at: Timestamp,
    /// When the latest of these runs was last updated: no run of the
    /// repository was updated later.
    pub updated_at: Timestamp,
    /// Seconds from `created_at` to `updated_at`.
    pub duration_sec: i64,
    /// Every workflow (each name counted once) has completed.
    pub completed: bool,
    /// Every workflow (each name counted once) has succeeded.
    pub success: bool,
    pub head_branch: String,
    pub head_sha: String,
    pub head_commit: HeadCommit,
    /// All the runs made for this commit, in the order they were listed.
    pub workflows: Vec<Workflow>,
}

/// What a repository's workflow runs come to.
pub struct Summary {
    pub user: String,
    pub repo: String,
    /// How many workflow runs the repository has in all.
    pub runs: usize,
    /// The runs of the latest commit, unless the repository has no runs.
    pub last: Option<LastWorkflow>,
}

/// The run at `g[j]` is the first among those at `g` with its name.
pub open spec fn first_of_name(wfs: Seq<Workflow>, g: Seq<usize>, j: int) -> bool {
    forall|t: int| 0 <= t < j ==> wfs[idx(g[t])].run.name@ != wfs[idx(g[j])].run.name@
}

/// Each workflow name among the runs at `g`, represented by its first run,
/// has the status "completed".
pub open spec fn all_completed(wfs: Seq<Workflow>, g: Seq<usize>) -> bool {
    forall|j: int|
        0 <= j < g.len() && first_of_name(wfs, g, j) ==> wfs[idx(g[j])].run.status@
            == "completed"@
}

/// Each workflow name among the runs at `g`, represented by its first run,
/// has the conclusion "success".
pub open spec fn all_succeeded(wfs: Seq<Workflow>, g: Seq<usize>) -> bool {
    forall|j: int|
        0 <= j < g.len() && first_of_name(wfs, g, j) ==> (wfs[idx(g[j])].run.conclusion matches Some(
            c,
        ) && c@ == "success"@)
}

/// `last` describes the runs at `g`: it takes its instants from the latest of
/// them (the first of those with the greatest `(updated_at, created_at)`),
/// its branch and commit from the first of them, and holds copies of all of
/// them.
pub open spec fn describes(last: LastWorkflow, wfs: Seq<Workflow>, g: Seq<usize>) -> bool {
    let run = wfs[idx(g[0])].run;
    &&& exists|p: int|
        is_first_latest(wfs, g, p) && last.created_at == wfs[idx(#[trigger] g[p])].run.created_at
            && last.updated_at == wfs[idx(g[p])].run.updated_at
    &&& last.duration_sec == span_seconds(last.created_at@, last.updated_at@)
    &&& last.completed == all_completed(wfs, g)
    &&& last.success == all_succeeded(wfs, g)
    &&& last.head_branch == run.head_branch
    &&& last.head_sha == run.head_sha
    &&& last.head_commit == run.head_commit
    &&& last.workflows@.len() == g.len()
    &&& forall|j: int| 0 <= j < g.len() ==> wfs[idx(g[j])].same_as(#[trigger] last.workflows@[j])
}

/// No run is updated later than the latest run of a most recent group.
proof fn lemma_no_later_update(wfs: Seq<Workflow>, g: Seq<usize>)
    requires
        wfs.len() <= usize::MAX,
        is_most_recent_group(wfs, g),
    ensures
        forall|k: int| 0 <= k < wfs.len() ==> (#[trigger] wfs[k]).run.updated_at@
            <= crate::group::latest_run_key(wfs, g).0,
{
    lemma_latest_run_key(wfs, g);
    assert forall|k: int| 0 <= k < wfs.len() implies (#[trigger] wfs[k]).run.updated_at@
        <= crate::group::latest_run_key(wfs, g).0 by {
        let h = crate::group::group_of(wfs, k);
        crate::group::lemma_runs_for_sha(wfs, crate::group::sha_at(wfs, k), wfs.len());
        assert(h.contains(k as usize));
        let t = choose|t: int| 0 <= t < h.len() && h[t] == k as usize;
        lemma_latest_run_key(wfs, h);
        assert(crate::order::pair_le(crate::group::run_key(wfs, idx(h[t])), crate::group::latest_run_key(wfs, h)));
        assert(crate::order::pair_le(recency(wfs, h), recency(wfs, g)));
    }
}

/// A run whose name an earlier run of the group already has does not count:
/// replacing it by any run of that name changes neither flag, whatever that
/// run's status or conclusion.
pub proof fn lemma_repeated_name_ignored(
    wfs: Seq<Workflow>,
    g: Seq<usize>,
    t: int,
    j: int,
    w: Workflow,
)
    requires
        0 <= t < j < g.len(),
        forall|a: int| 0 <= a < g.len() ==> g[a] < wfs.len(),
        forall|a: int, b: int| 0 <= a < b < g.len() ==> g[a] != g[b],
        wfs[idx(g[t])].run.name@ == wfs[idx(g[j])].run.name@,
        w.run.name@ == wfs[idx(g[j])].run.name@,
    ensures
        all_completed(wfs.update(idx(g[j]), w), g) == all_completed(wfs, g),
        all_succeeded(wfs.update(idx(g[j]), w), g) == all_succeeded(wfs, g),
{
    let v = wfs.update(idx(g[j]), w);
    assert forall|a: int| 0 <= a < g.len() && a != j implies v[idx(g[a])] == wfs[idx(g[a])] by {
        if a < j {
            assert(g[a] != g[j]);
        } else {
            assert(g[j] != g[a]);
        }
    }
    assert forall|a: int| 0 <= a < g.len() implies #[trigger] v[idx(g[a])].run.name@
        == wfs[idx(g[a])].run.name@ by {
        if a != j {
            assert(v[idx(g[a])] == wfs[idx(g[a])]);
        }
    }
    assert forall|a: int| 0 <= a < g.len() implies first_of_name(v, g, a) == first_of_name(
        wfs,
        g,
        a,
    ) by {
        assert(v[idx(g[a])].run.name@ == wfs[idx(g[a])].run.name@);
        if first_of_name(wfs, g, a) {
            assert forall|u: int| 0 <= u < a implies v[idx(g[u])].run.name@ != v[idx(
                g[a],
            )].run.name@ by {
                assert(v[idx(g[u])].run.name@ == wfs[idx(g[u])].run.name@);
            }
        }
        if first_of_name(v, g, a) {
            assert forall|u: int| 0 <= u < a implies wfs[idx(g[u])].run.name@ != wfs[idx(
                g[a],
            )].run.name@ by {
                assert(v[idx(g[u])].run.name@ == wfs[idx(g[u])].run.name@);
            }
        }
    }
    assert(!first_of_name(wfs, g, j)) by {
        assert(wfs[idx(g[t])].run.name@ == wfs[idx(g[j])].run.name@);
    }
    assert(!first_of_name(v, g, j));
}

/// A run whose name no earlier run of the group has counts: if it did not
/// complete (or did not succeed), the group's flag is false.
pub proof fn lemma_first_named_run_counts(wfs: Seq<Workflow>, g: Seq<usize>, j: int)
    requires
        0 <= j < g.len(),
        forall|t: int| 0 <= t < j ==> wfs[idx(g[t])].run.name@ != wfs[idx(g[j])].run.name@,
    ensures
        wfs[idx(g[j])].run.status@ != "completed"@ ==> !all_completed(wfs, g),
        !(wfs[idx(g[j])].run.conclusion matches Some(c) && c@ == "success"@) ==> !all_succeeded(
            wfs,
            g,
        ),
{
    assert(first_of_name(wfs, g, j));
}

/// When every run of the group completed (succeeded), so does the group.
pub proof fn lemma_all_runs_count(wfs: Seq<Workflow>, g: Seq<usize>)
    ensures
        (forall|j: int| 0 <= j < g.len() ==> (#[trigger] wfs[idx(g[j])]).run.status@ == "completed"@)
            ==> all_completed(wfs, g),
        (forall|j: int|
            0 <= j < g.len() ==> ((#[trigger] wfs[idx(g[j])]).run.conclusion matches Some(c) && c@
                == "success"@)) ==> all_succeeded(wfs, g),
{
}

/// Of two summaries with runs, the one whose latest run was updated later
/// comes first; on equal updates the later creation comes first; equal
/// instants compare `Equal`.
pub proof fn lemma_cmp_by_timestamp_latest_first(
    a: Summary,
    b: Summary,
    x: LastWorkflow,
    y: LastWorkflow,
)
    requires
        a.last == Some(x),
        b.last == Some(y),
    ensures
        x.updated_at@ > y.updated_at@ ==> timestamp_order(a, b) == Ordering::Less,
        x.updated_at@ < y.updated_at@ ==> timestamp_order(a, b) == Ordering::Greater,
        x.updated_at@ == y.updated_at@ && x.created_at@ > y.created_at@ ==> timestamp_order(a, b)
            == Ordering::Less,
        x.updated_at@ == y.updated_at@ && x.created_at@ < y.created_at@ ==> timestamp_order(a, b)
            == Ordering::Greater,
        x.updated_at@ == y.updated_at@ && x.created_at@ == y.created_at@ ==> timestamp_order(a, b)
            == Ordering::Equal,
{
}

/// A summary with runs comes before one without.
pub proof fn lemma_cmp_by_timestamp_runs_first(a: Summary, b: Summary)
    requires
        a.last is Some,
        b.last is None,
    ensures
        timestamp_order(a, b) == Ordering::Less,
        timestamp_order(b, a) == Ordering::Greater,
{
}

/// Two summaries without runs are ordered by user, and by repository when
/// the users are the same.
pub proof fn lemma_cmp_by_timestamp_by_name(a: Summary, b: Summary)
    requires
        a.last is None,
        b.last is None,
    ensures
        a.user@ != b.user@ ==> timestamp_order(a, b) == text_order(a.user@, b.user@),
        a.user@ == b.user@ ==> timestamp_order(a, b) == text_order(a.repo@, b.repo@),
{
    lemma_text_order_equal(a.user@, b.user@);
}

/// The order `cmp_by_timestamp` sorts summaries by: those with runs first,
/// the latest (by update, then creation) first among them; those without
/// runs after, by user and then repository name.
pub open spec fn timestamp_order(a: Summary, b: Summary) -> Ordering {
    match (a.last, b.last) {
        (None, None) => then_order(text_order(a.user@, b.user@), text_order(a.repo@, b.repo@)),
        (None, Some(_)) => Ordering::Greater,
        (Some(_), None) => Ordering::Less,
        (Some(x), Some(y)) => pair_order(
            (y.updated_at@, y.created_at@),
            (x.updated_at@, x.created_at@),
        ),
    }
}

/// Whether the run at `g[j]` is the first among those at `g` with its name.
fn is_first_of_name(wfs: &Vec<Workflow>, g: &Vec<usize>, j: usize) -> (r: bool)
    requires
        j < g@.len(),
        forall|t: int| 0 <= t < g@.len() ==> g@[t] < wfs@.len(),
    ensures
        r == first_of_name(wfs@, g@, idx(j)),
{
    let name = &wfs[g[j]].run.name;
    for t in 0..j
        invariant
            j < g@.len(),
            forall|t: int| 0 <= t < g@.len() ==> g@[t] < wfs@.len(),
            name@ == wfs@[idx(g@[idx(j)])].run.name@,
            forall|u: int| 0 <= u < t ==> wfs@[idx(g@[u])].run.name@ != name@,
    {
        if wfs[g[t]].run.name == *name {
            return false;
        }
    }
    true
}

impl Summary {
    /// Summarises the runs of a repository: the total count, and for the
    /// commit whose runs were updated last (then created last) the state of
    /// its runs. Which of two equally recent commits is taken is left open.
    pub fn new(workflows: &Workflows) -> (s: Summary)
        requires
            workflows.runs_total_count != 0 ==> workflows.workflows@.len() > 0,
        ensures
            s.user == workflows.user,
            s.repo == workflows.repo,
            s.runs == workflows.runs_total_count,
            s.last is None <==> workflows.runs_total_count == 0,
            s.last matches Some(last) ==> exists|g: Seq<usize>|
                is_most_recent_group(workflows.workflows@, g) && describes(last, workflows.workflows@, g),
            s.last matches Some(last) ==> forall|k: int|
                0 <= k < workflows.workflows@.len() ==> (#[trigger] workflows.workflows@[k]).run.updated_at@
                    <= last.updated_at@,
    {
        let mut summary = Summary {
            user: workflows.user.clone(),
            repo: workflows.repo.clone(),
            runs: workflows.runs_total_count,
            last: None,
        };
        if workflows.runs_total_count == 0 {
            return summary;
        }
        let wfs = &workflows.workflows;
        assert(wfs@.len() == wfs.len());
        let g = latest_group_by_recency(wfs);
        proof {
            assert(g@ == crate::group::group_of(wfs@, idx(g@[0])));
            crate::group::lemma_runs_for_sha(wfs@, crate::group::sha_at(wfs@, idx(g@[0])), wfs@.len());
        }
        let run = &wfs[g[0]].run;
        let (_, at) = latest_run_of(wfs, &g);
        let latest = &wfs[g[at]].run;
        let created_at = latest.created_at;
        let updated_at = latest.updated_at;
        let completed_text = "completed".to_owned();
        let success_text = "success".to_owned();
        let mut completed = true;
        let mut success = true;
        let mut copies: Vec<Workflow> = Vec::new();
        let n = g.len();
        for j in 0..n
            invariant
                n == g@.len(),
                forall|t: int| 0 <= t < g@.len() ==> g@[t] < wfs@.len(),
                completed_text@ == "completed"@,
                success_text@ == "success"@,
                completed == forall|t: int|
                    0 <= t < j && first_of_name(wfs@, g@, t) ==> wfs@[idx(g@[t])].run.status@
                        == "completed"@,
                success == forall|t: int|
                    0 <= t < j && first_of_name(wfs@, g@, t) ==> (
                    wfs@[idx(g@[t])].run.conclusion matches Some(c) && c@ == "success"@),
                copies@.len() == j,
                forall|t: int| 0 <= t < j ==> wfs@[idx(g@[t])].same_as(#[trigger] copies@[t]),
        {
            let w = &wfs[g[j]];
            if is_first_of_name(wfs, &g, j) {
                if !(w.run.status == completed_text) {
                    completed = false;
                }
                match &w.run.conclusion {
                    Some(c) => {
                        if !(*c == success_text) {
                            success = false;
                        }
                    },
                    None => {
                        success = false;
                    },
                }
            }
            copies.push(w.clone());
        }
        let last = LastWorkflow {
            created_at,
            updated_at,
            duration_sec: duration_sec(created_at, updated_at),
            completed,
            success,
            head_branch: run.head_branch.clone(),
            head_sha: run.head_sha.clone(),
            head_commit: run.head_commit.clone(),
            workflows: copies,
        };
        assert(is_first_latest(wfs@, g@, idx(at)));
        assert(describes(last, wfs@, g@));
        proof {
            lemma_no_later_update(wfs@, g@);
        }
        summary.last = Some(last);
        summary
    }

    /// Compares two summaries by `timestamp_order`.
    pub fn cmp_by_timestamp(&self, other: &Self) -> (r: Ordering)
        ensures
            r == timestamp_order(*self, *other),
    {
        match (&self.last, &other.last) {
            (None, None) => {
                match crate::order::compare_str(self.user.as_str(), other.user.as_str()) {
                    Ordering::Equal => crate::order::compare_str(
                        self.repo.as_str(),
                        other.repo.as_str(),
                    ),
                    o => o,
                }
            },
            (None, Some(_)) => Ordering::Greater,
            (Some(_), None) => Ordering::Less,
            (Some(a), Some(b)) => crate::order::compare_pair(
                (b.updated_at.as_nanosecond(), b.created_at.as_nanosecond()),
                (a.updated_at.as_nanosecond(), a.created_at.as_nanosecond()),
            ),
        }
    }
}

/// Comparing two summaries the other way round flips the result.
pub proof fn lemma_cmp_by_timestamp_flip(a: Summary, b: Summary)
    ensures
        timestamp_order(b, a) == flipped(timestamp_order(a, b)),
{
    lemma_text_pair_flip(a.user@, a.repo@, b.user@, b.repo@);
}

/// Two summaries compare `Equal` exactly when neither has runs and they
/// name the same user and repository, or both have runs whose latest runs
/// were updated and created at the same instants.
pub proof fn lemma_cmp_by_timestamp_equal(a: Summary, b: Summary)
    ensures
        (timestamp_order(a, b) == Ordering::Equal) <==> match (a.last, b.last) {
            (None, None) => a.user@ == b.user@ && a.repo@ == b.repo@,
            (Some(x), Some(y)) => x.updated_at@ == y.updated_at@ && x.created_at@ == y.created_at@,
            _ => false,
        },
{
    lemma_text_order_equal(a.user@, b.user@);
    lemma_text_order_equal(a.repo@, b.repo@);
}

/// "Not after" under `cmp_by_timestamp` is transitive.
pub proof fn lemma_cmp_by_timestamp_transitive(a: Summary, b: Summary, c: Summary)
    ensures
        not_after(timestamp_order(a, b)) && not_after(timestamp_order(b, c)) ==> not_after(
            timestamp_order(a, c),
        ),
{
    lemma_text_pair_transitive(a.user@, a.repo@, b.user@, b.repo@, c.user@, c.repo@);
}

impl TotalPreorder for Summary {
    open spec fn precedes(a: Summary, b: Summary) -> bool {
        not_after(timestamp_order(a, b))
    }

    proof fn lemma_total(a: Summary, b: Summary) {
        lemma_cmp_by_timestamp_flip(a, b);
    }

    proof fn lemma_transitive(a: Summary, b: Summary, c: Summary) {
        lemma_cmp_by_timestamp_transitive(a, b, c);
    }

    fn precedes_exec(&self, other: &Summary) -> (r: bool) {
        match self.cmp_by_timestamp(other) {
            Ordering::Greater => false,
            _ => true,
        }
    }
}

} // verus!
