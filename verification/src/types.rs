//! Workflow runs, jobs and steps as the GitHub Actions API reports them,
//! with the durations that are derived from their timestamps.

use vstd::prelude::*;
use crate::text::{join, split_on, strip_prefix, views};
use crate::timestamp::{span_seconds, Timestamp};

pub use crate::timestamp::duration_sec;

verus! {

/// The workflow runs of a repository, as one page of the API lists them.
pub struct Runs {
    /// How many runs the repository has in all.
    pub total_count: usize,
    pub workflow_runs: Vec<Run>,
}

/// A GitHub account.
pub struct Actor {
    pub login: String,
}

/// One run of a workflow.
pub struct Run {
    pub name: String,
    pub head_branch: String,
    pub head_sha: String,
    pub head_commit: HeadCommit,
    pub display_title: String,
    pub html_url: String,
    pub event: String,
    pub status: String,
    pub conclusion: Option<String>,
    pub run_attempt: usize,
    pub run_started_at: Timestamp,
    pub created_at: Timestamp,
    pub updated_at: Timestamp,
    /// Seconds from `created_at` to `updated_at`; filled in by `check`.
    pub duration_sec: i64,
    pub actor: Actor,
    pub triggering_actor: Actor,
    pub id: usize,
    pub jobs_url: String,
    pub logs_url: String,
}

/// The commit a run was made for.
pub struct HeadCommit {
    pub message: String,
    pub timestamp: Timestamp,
}

/// The jobs of a run.
pub struct Jobs {
    pub total_count: usize,
    pub jobs: Vec<Job>,
}

/// One job of a run.
pub struct Job {
    pub name: String,
    pub workflow_name: String,
    pub html_url: String,
    pub status: String,
    pub conclusion: Option<String>,
    pub created_at: Timestamp,
    pub started_at: Timestamp,
    pub completed_at: Option<Timestamp>,
    /// Seconds from `started_at` to `completed_at`, or 0 while the job has
    /// not completed; filled in by `check`.
    pub duration_sec: i64,
    pub steps: Vec<Step>,
    pub id: usize,
}

/// One step of a job.
pub struct Step {
    pub name: String,
    pub status: String,
    pub conclusion: Option<String>,
    pub number: usize,
    pub started_at: Option<Timestamp>,
    pub completed_at: Option<Timestamp>,
    /// Seconds from `started_at` to `completed_at`, or 0 unless both are
    /// known; filled in by `check`.
    pub duration_sec: i64,
}

/// The start of every jobs URL that the API hands out.
pub const PREFIX: &'static str = "https://api.github.com/";

impl Clone for Actor {
    fn clone(&self) -> (r: Self)
        ensures
            r == *self,
    {
        Actor { login: self.login.clone() }
    }
}

impl Clone for HeadCommit {
    fn clone(&self) -> (r: Self)
        ensures
            r == *self,
    {
        HeadCommit { message: self.message.clone(), timestamp: self.timestamp }
    }
}

impl Clone for Run {
    fn clone(&self) -> (r: Self)
        ensures
            r == *self,
    {
        Run {
            name: self.name.clone(),
            head_branch: self.head_branch.clone(),
            head_sha: self.head_sha.clone(),
            head_commit: self.head_commit.clone(),
            display_title: self.display_title.clone(),
            html_url: self.html_url.clone(),
            event: self.event.clone(),
            status: self.status.clone(),
            conclusion: self.conclusion.clone(),
            run_attempt: self.run_attempt,
            run_started_at: self.run_started_at,
            created_at: self.created_at,
            updated_at: self.updated_at,
            duration_sec: self.duration_sec,
            actor: self.actor.clone(),
            triggering_actor: self.triggering_actor.clone(),
            id: self.id,
            jobs_url: self.jobs_url.clone(),
            logs_url: self.logs_url.clone(),
        }
    }
}

impl Clone for Step {
    fn clone(&self) -> (r: Self)
        ensures
            r == *self,
    {
        Step {
            name: self.name.clone(),
            status: self.status.clone(),
            conclusion: self.conclusion.clone(),
            number: self.number,
            started_at: self.started_at,
            completed_at: self.completed_at,
            duration_sec: self.duration_sec,
        }
    }
}

impl Clone for Job {
    fn clone(&self) -> (r: Self)
        ensures
            self.same_as(r),
    {
        let steps = self.steps.clone();
        assert(steps@ =~= self.steps@);
        Job {
            name: self.name.clone(),
            workflow_name: self.workflow_name.clone(),
            html_url: self.html_url.clone(),
            status: self.status.clone(),
            conclusion: self.conclusion.clone(),
            created_at: self.created_at,
            started_at: self.started_at,
            completed_at: self.completed_at,
            duration_sec: self.duration_sec,
            steps,
            id: self.id,
        }
    }
}

impl Clone for Jobs {
    fn clone(&self) -> (r: Self)
        ensures
            self.same_as(r),
    {
        let jobs = self.jobs.clone();
        assert forall|i: int| 0 <= i < self.jobs@.len() implies self.jobs@[i].same_as(
            #[trigger] jobs@[i],
        ) by {
            assert(vstd::pervasive::cloned(self.jobs@[i], jobs@[i]));
        }
        Jobs { total_count: self.total_count, jobs }
    }
}

impl Run {
    /// Seconds from `created_at` to `updated_at`, rounded toward zero.
    pub open spec fn derived_duration(self) -> int {
        span_seconds(self.created_at@, self.updated_at@)
    }

    /// `after` is `self` with `duration_sec` filled in.
    pub open spec fn checked_into(self, after: Run) -> bool {
        &&& after == (Run { duration_sec: after.duration_sec, ..self })
        &&& after.duration_sec == self.derived_duration()
    }

    /// The path segments of `jobs_url` after the API's base URL: they hold
    /// no `/`, there is at least one, and joined with `/` they give back
    /// that part of the URL.
    pub fn jobs_path_segments(&self) -> (r: Vec<String>)
        requires
            PREFIX@.is_prefix_of(self.jobs_url@),
        ensures
            r@.len() >= 1,
            join(views(r@), '/') == self.jobs_url@.skip(PREFIX@.len() as int),
            forall|i: int| 0 <= i < r@.len() ==> !(#[trigger] r@[i])@.contains('/'),
    {
        match strip_prefix(self.jobs_url.as_str(), PREFIX) {
            Some(rest) => split_on(rest.as_str(), '/'),
            None => {
                assert(false);
                Vec::new()
            },
        }
    }

    fn duration_sec(&self) -> (r: i64)
        ensures
            r == self.derived_duration(),
    {
        duration_sec(self.created_at, self.updated_at)
    }

    /// Fills in `duration_sec` from the run's timestamps.
    pub fn check(&mut self)
        ensures
            old(self).checked_into(*final(self)),
    {
        self.duration_sec = self.duration_sec();
    }
}

impl Step {
    /// Seconds from `started_at` to `completed_at` when both are known,
    /// else 0.
    pub open spec fn derived_duration(self) -> int {
        match (self.started_at, self.completed_at) {
            (Some(s), Some(c)) => span_seconds(s@, c@),
            _ => 0,
        }
    }

    /// `after` is `self` with `duration_sec` filled in.
    pub open spec fn checked_into(self, after: Step) -> bool {
        &&& after == (Step { duration_sec: after.duration_sec, ..self })
        &&& after.duration_sec == self.derived_duration()
    }

    fn duration_sec(&self) -> (r: i64)
        ensures
            r == self.derived_duration(),
    {
        match (self.started_at, self.completed_at) {
            (Some(started_at), Some(completed_at)) => duration_sec(started_at, completed_at),
            _ => 0,
        }
    }

    /// Fills in `duration_sec` from the step's timestamps.
    pub fn check(&mut self)
        ensures
            old(self).checked_into(*final(self)),
    {
        self.duration_sec = self.duration_sec();
    }
}

impl Job {
    /// Seconds from `started_at` to `completed_at`, or 0 while the job has
    /// not completed.
    pub open spec fn derived_duration(self) -> int {
        match self.completed_at {
            Some(c) => span_seconds(self.started_at@, c@),
            None => 0,
        }
    }

    /// `self` and `other` agree on every field but `duration_sec` and
    /// `steps`.
    pub open spec fn same_header(self, other: Job) -> bool {
        &&& self.name == other.name
        &&& self.workflow_name == other.workflow_name
        &&& self.html_url == other.html_url
        &&& self.status == other.status
        &&& self.conclusion == other.conclusion
        &&& self.created_at == other.created_at
        &&& self.started_at == other.started_at
        &&& self.completed_at == other.completed_at
        &&& self.id == other.id
    }

    /// `self` and `other` hold the same data.
    pub open spec fn same_as(self, other: Job) -> bool {
        &&& self.same_header(other)
        &&& self.duration_sec == other.duration_sec
        &&& self.steps@ == other.steps@
    }

    /// `after` is `self` with its own and its steps' durations filled in.
    pub open spec fn checked_into(self, after: Job) -> bool {
        &&& self.same_header(after)
        &&& after.duration_sec == self.derived_duration()
        &&& after.steps@.len() == self.steps@.len()
        &&& forall|i: int|
            0 <= i < self.steps@.len() ==> self.steps@[i].checked_into(#[trigger] after.steps@[i])
    }

    fn duration_sec(&self) -> (r: i64)
        ensures
            r == self.derived_duration(),
    {
        match self.completed_at {
            Some(completed_at) => duration_sec(self.started_at, completed_at),
            None => 0,
        }
    }

    /// Fills in `duration_sec` of the job and of each of its steps.
    pub fn check(&mut self)
        ensures
            old(self).checked_into(*final(self)),
    {
        self.duration_sec = self.duration_sec();
        let ghost before = old(self).steps@;
        let n = self.steps.len();
        for i in 0..n
            invariant
                self.steps@.len() == n,
                n == before.len(),
                old(self).same_header(*self),
                self.duration_sec == old(self).derived_duration(),
                before == old(self).steps@,
                forall|k: int| 0 <= k < i ==> before[k].checked_into(#[trigger] self.steps@[k]),
                forall|k: int| i <= k < n ==> #[trigger] self.steps@[k] == before[k],
        {
            self.steps[i].check();
        }
    }
}

impl Jobs {
    /// `self` and `other` hold the same data.
    pub open spec fn same_as(self, other: Jobs) -> bool {
        &&& self.total_count == other.total_count
        &&& self.jobs@.len() == other.jobs@.len()
        &&& forall|i: int|
            0 <= i < self.jobs@.len() ==> (#[trigger] self.jobs@[i]).same_as(other.jobs@[i])
    }

    /// `after` is `self` with the durations of every job and step filled in.
    pub open spec fn checked_into(self, after: Jobs) -> bool {
        &&& self.total_count == after.total_count
        &&& self.jobs@.len() == after.jobs@.len()
        &&& forall|i: int|
            0 <= i < self.jobs@.len() ==> (#[trigger] self.jobs@[i]).checked_into(after.jobs@[i])
    }

    /// Fills in the durations of every job and of their steps.
    pub fn check(&mut self)
        ensures
            old(self).checked_into(*final(self)),
    {
        let ghost before = old(self).jobs@;
        let n = self.jobs.len();
        for i in 0..n
            invariant
                self.jobs@.len() == n,
                n == before.len(),
                self.total_count == old(self).total_count,
                before == old(self).jobs@,
                forall|k: int| 0 <= k < i ==> #[trigger] before[k].checked_into(self.jobs@[k]),
                forall|k: int| i <= k < n ==> #[trigger] self.jobs@[k] == before[k],
        {
            self.jobs[i].check();
        }
    }
}

} // verus!
