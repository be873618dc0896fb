//! An earlier form of the repository summary: it reports the single latest
//! workflow run, found across all commits.

use vstd::prelude::*;
use core::cmp::Ordering;
use crate::group::{is_first_latest, is_latest_run_group, latest_group_by_run, latest_run_of};
use crate::num::idx;
use crate::order::{
    flipped, lemma_text_order_equal, lemma_text_pair_flip, lemma_text_pair_transitive, not_after,
    pair_order, text_order, then_order,
};
use crate::output::{Workflow, Workflows};
use crate::timestamp::{duration_sec, span_seconds, Timestamp};
use crate::types::HeadCommit;

verus! {

/// The latest workflow run: the latest updated, then the latest created.
pub struct LastWorkflow {
    /// When the latest run was created.
    pub created_at: Timestamp,
    /// When the latest run was last updated.
    pub updated_at: Timestamp,
    /// Seconds from `created_at` to `updated_at`.
    pub duration_sec: i64,
    pub status: String,
    pub conclusion: Option<String>,
    pub head_branch: String,
    pub head_sha: String,
    pub head_commit: HeadCommit,
    pub workflow: Workflow,
}

/// What a repository's workflow runs come to.
pub struct Summary {
    pub user: String,
    pub repo: String,
    /// How many workflow runs the repository has in all.
    pub runs: usize,
    /// The latest run, unless the repository has no runs.
    pub last: Option<LastWorkflow>,
}

/// `last` describes the run at position `k`.
pub open spec fn describes(last: LastWorkflow, wfs: Seq<Workflow>, k: int) -> bool {
    let run = wfs[k].run;
    &&& last.created_at == run.created_at
    &&& last.updated_at == run.updated_at
    &&& last.duration_sec == span_seconds(run.created_at@, run.updated_at@)
    &&& last.status == run.status
    &&& last.conclusion == run.conclusion
    &&& last.head_branch == run.head_branch
    &&& last.head_sha == run.head_sha
    &&& last.head_commit == run.head_commit
    &&& wfs[k].same_as(last.workflow)
}

/// The order `cmp_by_timestamp` sorts summaries by: those with runs first,
/// the latest (by update, then creation) first among them; those without
/// runs after, by user and then repository name.
pub open spec fn timestamp_order(a: Summary, b: Summary) -> Ordering {
    match (a.last, b.last) {
        (None, None) => then_order(text_order(a.user@, b.user@), text_order(a.repo@, b.repo@)),
        (None, Some(_)) => Ordering::Greater,
        (Some(_), None) => Ordering::Less,
        (Some(x), Some(y)) => pair_order(
            (y.updated_at@, y.created_at@),
            (x.updated_at@, x.created_at@),
        ),
    }
}

impl Summary {
    /// Summarises the runs of a repository: the total count and the latest
    /// run. Runs are grouped by commit; the group holding the latest run is
    /// taken (which of two groups with equally late runs is left open), and
    /// of it the first run, in listed order, that is that late.
    pub fn new(workflows: &Workflows) -> (s: Summary)
        requires
            workflows.runs_total_count != 0 ==> workflows.workflows@.len() > 0,
        ensures
            s.user == workflows.user,
            s.repo == workflows.repo,
            s.runs == workflows.runs_total_count,
            s.last is None <==> workflows.runs_total_count == 0,
            s.last matches Some(last) ==> exists|g: Seq<usize>, p: int|
                is_latest_run_group(workflows.workflows@, g) && is_first_latest(
                    workflows.workflows@,
                    g,
                    p,
                ) && describes(last, workflows.workflows@, idx(g[p])),
    {
        let mut summary = Summary {
            user: workflows.user.clone(),
            repo: workflows.repo.clone(),
            runs: workflows.runs_total_count,
            last: None,
        };
        if workflows.runs_total_count == 0 {
            return summary;
        }
        let wfs = &workflows.workflows;
        assert(wfs@.len() == wfs.len());
        let g = latest_group_by_run(wfs);
        proof {
            crate::group::lemma_runs_for_sha(
                wfs@,
                crate::group::sha_at(wfs@, idx(g@[0])),
                wfs@.len(),
            );
        }
        let (_, at) = latest_run_of(wfs, &g);
        let wf = &wfs[g[at]];
        let run = &wf.run;
        let created_at = run.created_at;
        let updated_at = run.updated_at;
        let last = LastWorkflow {
            created_at,
            updated_at,
            duration_sec: duration_sec(created_at, updated_at),
            status: run.status.clone(),
            conclusion: run.conclusion.clone(),
            head_branch: run.head_branch.clone(),
            head_sha: run.head_sha.clone(),
            head_commit: run.head_commit.clone(),
            workflow: wf.clone(),
        };
        assert(is_first_latest(wfs@, g@, idx(at)));
        assert(describes(last, wfs@, idx(g@[idx(at)])));
        summary.last = Some(last);
        summary
    }

    /// Compares two summaries by `timestamp_order`.
    pub fn cmp_by_timestamp(&self, other: &Self) -> (r: Ordering)
        ensures
            r == timestamp_order(*self, *other),
    {
        match (&self.last, &other.last) {
            (None, None) => {
                match crate::order::compare_str(self.user.as_str(), other.user.as_str()) {
                    Ordering::Equal => crate::order::compare_str(
                        self.repo.as_str(),
                        other.repo.as_str(),
                    ),
                    o => o,
                }
            },
            (None, Some(_)) => Ordering::Greater,
            (Some(_), None) => Ordering::Less,
            (Some(a), Some(b)) => crate::order::compare_pair(
                (b.updated_at.as_nanosecond(), b.created_at.as_nanosecond()),
                (a.updated_at.as_nanosecond(), a.created_at.as_nanosecond()),
            ),
        }
    }
}

/// Of two summaries with runs, the one whose latest run was updated later
/// comes first; on equal updates the later creation comes first; equal
/// instants compare `Equal`.
pub proof fn lemma_cmp_by_timestamp_latest_first(
    a: Summary,
    b: Summary,
    x: LastWorkflow,
    y: LastWorkflow,
)
    requires
        a.last == Some(x),
        b.last == Some(y),
    ensures
        x.updated_at@ > y.updated_at@ ==> timestamp_order(a, b) == Ordering::Less,
        x.updated_at@ < y.updated_at@ ==> timestamp_order(a, b) == Ordering::Greater,
        x.updated_at@ == y.updated_at@ && x.created_at@ > y.created_at@ ==> timestamp_order(a, b)
            == Ordering::Less,
        x.updated_at@ == y.updated_at@ && x.created_at@ < y.created_at@ ==> timestamp_order(a, b)
            == Ordering::Greater,
        x.updated_at@ == y.updated_at@ && x.created_at@ == y.created_at@ ==> timestamp_order(a, b)
            == Ordering::Equal,
{
}

/// A summary with runs comes before one without.
pub proof fn lemma_cmp_by_timestamp_runs_first(a: Summary, b: Summary)
    requires
        a.last is Some,
        b.last is None,
    ensures
        timestamp_order(a, b) == Ordering::Less,
        timestamp_order(b, a) == Ordering::Greater,
{
}

/// Two summaries without runs are ordered by user, and by repository when
/// the users are the same.
pub proof fn lemma_cmp_by_timestamp_by_name(a: Summary, b: Summary)
    requires
        a.last is None,
        b.last is None,
    ensures
        a.user@ != b.user@ ==> timestamp_order(a, b) == text_order(a.user@, b.user@),
        a.user@ == b.user@ ==> timestamp_order(a, b) == text_order(a.repo@, b.repo@),
{
    lemma_text_order_equal(a.user@, b.user@);
}

/// Comparing two summaries the other way round flips the result.
pub proof fn lemma_cmp_by_timestamp_flip(a: Summary, b: Summary)
    ensures
        timestamp_order(b, a) == flipped(timestamp_order(a, b)),
{
    lemma_text_pair_flip(a.user@, a.repo@, b.user@, b.repo@);
}

/// Two summaries compare `Equal` exactly when neither has runs and they
/// name the same user and repository, or both have runs whose latest runs
/// were updated and created at the same instants.
pub proof fn lemma_cmp_by_timestamp_equal(a: Summary, b: Summary)
    ensures
        (timestamp_order(a, b) == Ordering::Equal) <==> match (a.last, b.last) {
            (None, None) => a.user@ == b.user@ && a.repo@ == b.repo@,
            (Some(x), Some(y)) => x.updated_at@ == y.updated_at@ && x.created_at@ == y.created_at@,
            _ => false,
        },
{
    lemma_text_order_equal(a.user@, b.user@);
    lemma_text_order_equal(a.repo@, b.repo@);
}

/// "Not after" under `cmp_by_timestamp` is transitive.
pub proof fn lemma_cmp_by_timestamp_transitive(a: Summary, b: Summary, c: Summary)
    ensures
        not_after(timestamp_order(a, b)) && not_after(timestamp_order(b, c)) ==> not_after(
            timestamp_order(a, c),
        ),
{
    lemma_text_pair_transitive(a.user@, a.repo@, b.user@, b.repo@, c.user@, c.repo@);
}

} // verus!
