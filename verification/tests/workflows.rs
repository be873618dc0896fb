use github_api::output::{Workflow, Workflows};
use github_api::summary;
use github_api::timestamp::Timestamp;
use github_api::types::{Actor, HeadCommit, Job, Jobs, Run, Step};
use github_api::workflows::sort_summaries;
use github_api::workflows::summary::{LastWorkflow, Summary};
use std::cmp::Ordering;

fn at(second: i64) -> Timestamp {
    Timestamp::from_second(second).unwrap()
}

fn actor(login: &str) -> Actor {
    Actor { login: login.to_string() }
}

fn make_run(name: &str, sha: &str, status: &str, conclusion: Option<&str>, created: i64, updated: i64) -> Run {
    Run {
        name: name.to_string(),
        head_branch: "main".to_string(),
        head_sha: sha.to_string(),
        head_commit: HeadCommit { message: format!("commit {sha}"), timestamp: at(created - 10) },
        display_title: format!("{name} on {sha}"),
        html_url: "https://github.com/o/r/actions/runs/1".to_string(),
        event: "push".to_string(),
        status: status.to_string(),
        conclusion: conclusion.map(|c| c.to_string()),
        run_attempt: 1,
        run_started_at: at(created),
        created_at: at(created),
        updated_at: at(updated),
        duration_sec: 0,
        actor: actor("alice"),
        triggering_actor: actor("bob"),
        id: 7,
        jobs_url: "https://api.github.com/repos/o/r/actions/runs/7/jobs".to_string(),
        logs_url: "https://api.github.com/repos/o/r/actions/runs/7/logs".to_string(),
    }
}

fn no_jobs() -> Jobs {
    Jobs { total_count: 0, jobs: Vec::new() }
}

fn make_workflow(name: &str, sha: &str, status: &str, conclusion: Option<&str>, created: i64, updated: i64) -> Workflow {
    Workflow { run: make_run(name, sha, status, conclusion, created, updated), jobs: no_jobs() }
}

fn repo(user: &str, name: &str, total: usize, workflows: Vec<Workflow>) -> Workflows {
    Workflows { user: user.to_string(), repo: name.to_string(), runs_total_count: total, workflows }
}

fn make_step(started: Option<i64>, completed: Option<i64>) -> Step {
    Step {
        name: "build".to_string(),
        status: "completed".to_string(),
        conclusion: Some("success".to_string()),
        number: 1,
        started_at: started.map(at),
        completed_at: completed.map(at),
        duration_sec: 0,
    }
}

fn make_job(started: i64, completed: Option<i64>, steps: Vec<Step>) -> Job {
    Job {
        name: "test".to_string(),
        workflow_name: "CI".to_string(),
        html_url: "https://github.com/o/r/actions/runs/7/job/1".to_string(),
        status: "completed".to_string(),
        conclusion: Some("success".to_string()),
        created_at: at(started - 5),
        started_at: at(started),
        completed_at: completed.map(at),
        duration_sec: 0,
        steps,
        id: 1,
    }
}

#[test]
fn step_check_fills_duration() {
    let mut step = make_step(Some(100), Some(160));
    step.check();
    assert_eq!(step.duration_sec, 60);
    let mut open = make_step(Some(100), None);
    open.check();
    assert_eq!(open.duration_sec, 0);
    let mut unstarted = make_step(None, Some(100));
    unstarted.check();
    assert_eq!(unstarted.duration_sec, 0);
}

#[test]
fn job_check_fills_job_and_steps() {
    let mut job = make_job(1000, Some(1300), vec![make_step(Some(1000), Some(1100)), make_step(Some(1100), Some(1300))]);
    job.check();
    assert_eq!(job.duration_sec, 300);
    assert_eq!(job.steps[0].duration_sec, 100);
    assert_eq!(job.steps[1].duration_sec, 200);
    let mut running = make_job(1000, None, vec![make_step(Some(1000), None)]);
    running.check();
    assert_eq!(running.duration_sec, 0);
    assert_eq!(running.steps[0].duration_sec, 0);
}

#[test]
fn workflow_check_fills_every_duration() {
    let jobs = Jobs {
        total_count: 2,
        jobs: vec![
            make_job(10, Some(70), vec![make_step(Some(10), Some(40))]),
            make_job(20, Some(25), vec![]),
        ],
    };
    let w = Workflow::from_parts(make_run("CI", "a", "completed", Some("success"), 0, 3600), jobs);
    assert_eq!(w.run.duration_sec, 3600);
    assert_eq!(w.jobs.jobs[0].duration_sec, 60);
    assert_eq!(w.jobs.jobs[0].steps[0].duration_sec, 30);
    assert_eq!(w.jobs.jobs[1].duration_sec, 5);
    assert_eq!(w.jobs.total_count, 2);
}

#[test]
fn check_twice_changes_nothing() {
    let mut w = make_workflow("CI", "a", "completed", None, 50, 20);
    w.jobs = Jobs { total_count: 1, jobs: vec![make_job(5, Some(9), vec![make_step(Some(5), Some(6))])] };
    w.check();
    let first = (w.run.duration_sec, w.jobs.jobs[0].duration_sec, w.jobs.jobs[0].steps[0].duration_sec);
    assert_eq!(first, (-30, 4, 1));
    w.check();
    let second = (w.run.duration_sec, w.jobs.jobs[0].duration_sec, w.jobs.jobs[0].steps[0].duration_sec);
    assert_eq!(first, second);
}

#[test]
fn run_check_and_jobs_check() {
    let mut run = make_run("CI", "a", "completed", None, 100, 250);
    run.check();
    assert_eq!(run.duration_sec, 150);
    let mut jobs = Jobs { total_count: 1, jobs: vec![make_job(0, Some(42), vec![])] };
    jobs.check();
    assert_eq!(jobs.jobs[0].duration_sec, 42);
}

#[test]
fn jobs_path_segments_follow_the_base_url() {
    let run = make_run("CI", "a", "completed", None, 0, 0);
    let segments = run.jobs_path_segments();
    assert_eq!(segments, vec!["repos", "o", "r", "actions", "runs", "7", "jobs"]);
    let mut trailing = make_run("CI", "a", "completed", None, 0, 0);
    trailing.jobs_url = "https://api.github.com/x/".to_string();
    assert_eq!(trailing.jobs_path_segments(), vec!["x", ""]);
}

fn last_of(s: &Summary) -> &LastWorkflow {
    s.last.as_ref().unwrap()
}

#[test]
fn summary_without_runs_has_no_last() {
    let s = Summary::new(&repo("u", "r", 0, vec![]));
    assert_eq!((s.user.as_str(), s.repo.as_str(), s.runs), ("u", "r", 0));
    assert!(s.last.is_none());
}

#[test]
fn summary_takes_the_most_recent_commit() {
    let wfs = vec![
        make_workflow("CI", "old", "completed", Some("success"), 100, 200),
        make_workflow("CI", "new", "completed", Some("failure"), 300, 400),
        make_workflow("Lint", "new", "completed", Some("success"), 310, 350),
        make_workflow("Docs", "old", "completed", Some("success"), 120, 390),
    ];
    let s = Summary::new(&repo("u", "r", 42, wfs));
    assert_eq!(s.runs, 42);
    let last = last_of(&s);
    assert_eq!(last.head_sha, "new");
    assert_eq!(last.created_at, at(300));
    assert_eq!(last.updated_at, at(400));
    assert_eq!(last.duration_sec, 100);
    assert!(last.completed);
    assert!(!last.success);
    assert_eq!(last.workflows.len(), 2);
    assert_eq!(last.workflows[0].run.name, "CI");
    assert_eq!(last.workflows[1].run.name, "Lint");
    assert_eq!(last.head_commit.message, "commit new");
}

#[test]
fn summary_compares_latest_update_then_latest_creation() {
    // Both commits were last updated at 500; "b" has the later creation.
    let wfs = vec![
        make_workflow("CI", "a", "completed", Some("success"), 100, 500),
        make_workflow("CI", "b", "in_progress", None, 90, 480),
        make_workflow("Docs", "b", "completed", Some("success"), 200, 500),
    ];
    let s = Summary::new(&repo("u", "r", 3, wfs));
    let last = last_of(&s);
    assert_eq!(last.head_sha, "b");
    // The instants are those of the commit's latest run.
    assert_eq!(last.created_at, at(200));
    assert_eq!(last.updated_at, at(500));
    assert_eq!(last.duration_sec, 300);
    assert!(!last.completed);
    assert!(!last.success);
}

#[test]
fn summary_instants_are_those_of_the_latest_run() {
    let wfs = vec![
        make_workflow("CI", "c", "completed", Some("success"), 1, 5),
        make_workflow("Docs", "c", "completed", Some("success"), 10, 20),
    ];
    let s = Summary::new(&repo("u", "r", 2, wfs));
    let last = last_of(&s);
    assert_eq!(last.updated_at, at(20));
    assert_eq!(last.created_at, at(10));
    assert_eq!(last.duration_sec, 10);
    // Branch and commit come from the first run listed for the commit.
    assert_eq!(last.head_commit.timestamp, at(-9));
}

#[test]
fn summary_counts_each_workflow_name_once() {
    // A scheduled workflow ran twice for the same commit: only its first
    // run counts.
    let wfs = vec![
        make_workflow("Nightly", "s", "completed", Some("success"), 100, 200),
        make_workflow("Nightly", "s", "queued", None, 300, 300),
        make_workflow("CI", "s", "completed", Some("success"), 150, 250),
    ];
    let last = last_of(&Summary::new(&repo("u", "r", 3, wfs))).clone_summary_fields();
    assert_eq!(last, (true, true, 3));
}

trait Fields {
    fn clone_summary_fields(&self) -> (bool, bool, usize);
}

impl Fields for LastWorkflow {
    fn clone_summary_fields(&self) -> (bool, bool, usize) {
        (self.completed, self.success, self.workflows.len())
    }
}

#[test]
fn summary_failure_of_first_named_run_counts() {
    let wfs = vec![
        make_workflow("Nightly", "s", "completed", Some("failure"), 100, 200),
        make_workflow("Nightly", "s", "completed", Some("success"), 300, 300),
    ];
    let s = Summary::new(&repo("u", "r", 2, wfs));
    assert!(last_of(&s).completed);
    assert!(!last_of(&s).success);
}

fn bare(user: &str, name: &str) -> Summary {
    Summary { user: user.to_string(), repo: name.to_string(), runs: 0, last: None }
}

fn with_runs(user: &str, created: i64, updated: i64) -> Summary {
    Summary::new(&repo(user, "r", 1, vec![make_workflow("CI", "x", "completed", Some("success"), created, updated)]))
}

#[test]
fn cmp_by_timestamp_ranks_summaries() {
    let a = with_runs("a", 10, 100);
    let b = with_runs("b", 20, 200);
    let c = with_runs("c", 30, 100);
    assert_eq!(b.cmp_by_timestamp(&a), Ordering::Less);
    assert_eq!(a.cmp_by_timestamp(&b), Ordering::Greater);
    assert_eq!(c.cmp_by_timestamp(&a), Ordering::Less);
    assert_eq!(a.cmp_by_timestamp(&a), Ordering::Equal);
    let x = bare("x", "r");
    assert_eq!(a.cmp_by_timestamp(&x), Ordering::Less);
    assert_eq!(x.cmp_by_timestamp(&a), Ordering::Greater);
    assert_eq!(bare("u", "a").cmp_by_timestamp(&bare("u", "b")), Ordering::Less);
    assert_eq!(bare("v", "a").cmp_by_timestamp(&bare("u", "b")), Ordering::Greater);
    assert_eq!(bare("u", "a").cmp_by_timestamp(&bare("u", "a")), Ordering::Equal);
}

#[test]
fn sort_summaries_puts_latest_first() {
    let mut v = vec![bare("z", "r"), with_runs("a", 10, 100), bare("m", "r"), with_runs("b", 20, 200)];
    sort_summaries(&mut v);
    let users: Vec<&str> = v.iter().map(|s| s.user.as_str()).collect();
    assert_eq!(users, vec!["b", "a", "m", "z"]);
}

#[test]
fn old_summary_takes_the_latest_run() {
    let wfs = vec![
        make_workflow("CI", "p", "completed", Some("success"), 100, 200),
        make_workflow("Docs", "q", "completed", Some("failure"), 150, 300),
        make_workflow("Lint", "q", "in_progress", None, 160, 300),
        make_workflow("Fmt", "p", "completed", Some("success"), 90, 250),
    ];
    let s = summary::Summary::new(&repo("u", "r", 4, wfs));
    let last = s.last.as_ref().unwrap();
    // "Lint" ties "Docs" on update and was created later.
    assert_eq!(last.workflow.run.name, "Lint");
    assert_eq!(last.status, "in_progress");
    assert_eq!(last.conclusion, None);
    assert_eq!(last.created_at, at(160));
    assert_eq!(last.duration_sec, 140);
    assert_eq!(last.head_sha, "q");
    let none = summary::Summary::new(&repo("u", "r", 0, vec![]));
    assert!(none.last.is_none());
}

#[test]
fn old_summary_takes_first_of_equal_runs() {
    let wfs = vec![
        make_workflow("A", "p", "completed", Some("success"), 100, 200),
        make_workflow("B", "p", "completed", Some("failure"), 100, 200),
    ];
    let s = summary::Summary::new(&repo("u", "r", 2, wfs));
    assert_eq!(s.last.as_ref().unwrap().workflow.run.name, "A");
    let other = summary::Summary::new(&repo("v", "r", 0, vec![]));
    assert_eq!(s.cmp_by_timestamp(&other), Ordering::Less);
    assert_eq!(other.cmp_by_timestamp(&s), Ordering::Greater);
}
