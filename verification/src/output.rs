//! A workflow run together with its jobs, and the runs of one repository.

use vstd::prelude::*;
use crate::types::{Jobs, Run};

verus! {

/// A workflow run and the jobs it ran.
pub struct Workflow {
    pub run: Run,
    pub jobs: Jobs,
}

/// The workflow runs of a repository.
pub struct Workflows {
    pub user: String,
    pub repo: String,
    /// How many runs the repository has in all (the API may list fewer).
    pub runs_total_count: usize,
    pub workflows: Vec<Workflow>,
}

impl Clone for Workflow {
    fn clone(&self) -> (r: Self)
        ensures
            self.same_as(r),
    {
        Workflow { run: self.run.clone(), jobs: self.jobs.clone() }
    }
}

impl Workflow {
    /// `self` and `other` hold the same data.
    pub open spec fn same_as(self, other: Workflow) -> bool {
        self.run == other.run && self.jobs.same_as(other.jobs)
    }

    /// `after` is `self` with the durations of the run, its jobs and their
    /// steps filled in.
    pub open spec fn checked_into(self, after: Workflow) -> bool {
        self.run.checked_into(after.run) && self.jobs.checked_into(after.jobs)
    }

    /// Every `duration_sec` in the workflow agrees with its timestamps.
    pub open spec fn durations_filled(self) -> bool {
        &&& self.run.duration_sec == self.run.derived_duration()
        &&& forall|i: int|
            0 <= i < self.jobs.jobs@.len() ==> {
                let job = #[trigger] self.jobs.jobs@[i];
                &&& job.duration_sec == job.derived_duration()
                &&& forall|j: int|
                    0 <= j < job.steps@.len() ==> (#[trigger] job.steps@[j]).duration_sec
                        == job.steps@[j].derived_duration()
            }
    }

    /// Fills in the fields that are computed after deserialization: the
    /// durations of the run, of its jobs and of their steps.
    pub fn check(&mut self)
        ensures
            old(self).checked_into(*final(self)),
    {
        self.run.check();
        self.jobs.check();
    }

    /// The workflow of `run` and its `jobs`, with its durations filled in.
    pub fn from_parts(run: Run, jobs: Jobs) -> (r: Workflow)
        ensures
            (Workflow { run, jobs }).checked_into(r),
    {
        let mut workflow = Workflow { run, jobs };
        workflow.check();
        workflow
    }
}

impl Workflows {
    /// The runs `workflows` of `user/repo`, of which the repository has
    /// `runs_total_count` in all.
    pub fn new(user: &str, repo: &str, runs_total_count: usize, workflows: Vec<Workflow>) -> (r: Workflows)
        ensures
            r.user@ == user@,
            r.repo@ == repo@,
            r.runs_total_count == runs_total_count,
            r.workflows == workflows,
    {
        Workflows { user: user.to_owned(), repo: repo.to_owned(), runs_total_count, workflows }
    }
}

/// After `check`, every duration in the workflow agrees with its timestamps.
pub proof fn lemma_check_fills_durations(before: Workflow, after: Workflow)
    requires
        before.checked_into(after),
    ensures
        after.durations_filled(),
{
    assert forall|i: int| 0 <= i < after.jobs.jobs@.len() implies {
        let job = #[trigger] after.jobs.jobs@[i];
        &&& job.duration_sec == job.derived_duration()
        &&& forall|j: int|
            0 <= j < job.steps@.len() ==> (#[trigger] job.steps@[j]).duration_sec
                == job.steps@[j].derived_duration()
    } by {
        let old_job = before.jobs.jobs@[i];
        assert(old_job.checked_into(after.jobs.jobs@[i]));
    }
}

/// Checking twice is checking once: a second `check` changes nothing.
pub proof fn lemma_check_idempotent(first: Workflow, second: Workflow, third: Workflow)
    requires
        first.checked_into(second),
        second.checked_into(third),
    ensures
        second.same_as(third),
{
    assert forall|i: int| 0 <= i < second.jobs.jobs@.len() implies (
    #[trigger] second.jobs.jobs@[i]).same_as(third.jobs.jobs@[i]) by {
        let a = first.jobs.jobs@[i];
        let b = second.jobs.jobs@[i];
        let c = third.jobs.jobs@[i];
        assert(a.checked_into(b));
        assert(b.checked_into(c));
        assert(c.steps@ =~= b.steps@);
    }
}

} // verus!
