use github_api::group::group_by_sha;
use github_api::info::sort_outputs;
use github_api::info::types::{active_days, cmp, query, Contributor, Info, License, Owner};
use github_api::list::{parse_list, split_user_repo};
use github_api::order::compare_str;
use github_api::output::Workflow;
use github_api::text::{split_on, split_once, strip_prefix};
use github_api::time::UTC8;
use github_api::timestamp::{duration_hours, duration_sec, Timestamp};
use github_api::types::{Actor, HeadCommit, Jobs, Run};
use std::cmp::Ordering;

fn sec(second: i64) -> Timestamp {
    Timestamp::from_second(second).unwrap()
}

#[test]
fn utc_to_beijing() {
    let unix_epoch = Timestamp::from_second(0).unwrap();
    let unix_epoch_utc8 = UTC8::from(unix_epoch);
    println!(
        "unix_epoch={unix_epoch:?}\nunix_epoch_utc8={:?} {:+}s",
        unix_epoch_utc8.instant, unix_epoch_utc8.offset_seconds
    );
    assert_eq!(unix_epoch_utc8.instant, unix_epoch);
    assert_eq!(unix_epoch_utc8.offset_seconds, 8 * 3600);
}

#[test]
fn timestamps_stay_within_jiff_range() {
    assert!(Timestamp::from_second(253_402_207_200).is_some());
    assert!(Timestamp::from_second(253_402_207_201).is_none());
    assert!(Timestamp::from_second(-377_705_023_201).is_some());
    assert!(Timestamp::from_second(-377_705_023_202).is_none());
    assert!(Timestamp::from_nanosecond(253_402_207_200_999_999_999).is_some());
    assert!(Timestamp::from_nanosecond(253_402_207_201_000_000_000).is_none());
    assert_eq!(Timestamp::from_nanosecond(5).unwrap().as_nanosecond(), 5);
    assert_eq!(sec(3).as_nanosecond(), 3_000_000_000);
}

#[test]
fn durations_round_toward_zero() {
    assert_eq!(duration_sec(sec(10), sec(100)), 90);
    assert_eq!(duration_sec(sec(100), sec(10)), -90);
    let zero = Timestamp::from_nanosecond(0).unwrap();
    let plus = Timestamp::from_nanosecond(1_999_999_999).unwrap();
    let minus = Timestamp::from_nanosecond(-1_999_999_999).unwrap();
    assert_eq!(duration_sec(zero, plus), 1);
    assert_eq!(duration_sec(zero, minus), -1);
    assert_eq!(duration_hours(sec(0), sec(7199)), 1);
    assert_eq!(duration_hours(sec(7199), sec(0)), -1);
    assert_eq!(duration_hours(sec(0), sec(7200)), 2);
}

#[test]
fn active_days_follow_push_then_update() {
    let day = 86_400;
    // Pushed 10 days and 23 hours after creation.
    assert_eq!(active_days(sec(0), sec(10 * day + 23 * 3600), sec(0)), 10);
    // A fork created after its last push: the last update counts.
    assert_eq!(active_days(sec(5 * day), sec(day), sec(8 * day)), 3);
    // Neither comes after creation.
    assert_eq!(active_days(sec(5 * day), sec(day), sec(2 * day)), 0);
    assert_eq!(active_days(sec(0), sec(0), sec(0)), 0);
}

fn info(pushed: i64) -> Info {
    Info {
        name: "repo".to_string(),
        full_name: "user/repo".to_string(),
        owner: Owner { login: "user".to_string(), kind: "User".to_string() },
        description: None,
        created_at: sec(0),
        pushed_at: sec(pushed),
        updated_at: sec(pushed),
        homepage: None,
        default_branch: "main".to_string(),
        size: 1,
        stargazers_count: 2,
        subscribers_count: 3,
        forks_count: 4,
        network_count: 5,
        open_issues_count: 6,
        fork: false,
        archived: false,
        has_issues: true,
        has_projects: false,
        has_downloads: true,
        has_wiki: false,
        has_pages: false,
        has_discussions: false,
        topics: vec!["os".to_string()],
        language: Some("Rust".to_string()),
        license: Some(License { spdx_id: "MIT".to_string() }),
    }
}

fn contributor(login: &str, contributions: usize) -> Contributor {
    Contributor { login: login.to_string(), kind: "User".to_string(), contributions }
}

#[test]
fn output_sums_contributions_and_days() {
    let out = query("user", "repo", info(3 * 86_400), vec![contributor("a", 5), contributor("b", 7)]);
    assert_eq!(out.user, "user");
    assert_eq!(out.repo, "repo");
    assert_eq!(out.active_days, 3);
    assert_eq!(out.contributions, 12);
    assert_eq!(out.contributors.len(), 2);
    assert_eq!(out.info.license.as_ref().unwrap().spdx_id, "MIT");
    let empty = query("u", "r", info(0), vec![]);
    assert_eq!(empty.contributions, 0);
}

#[test]
fn cmp_orders_latest_push_first_then_user() {
    let a = query("alice", "r", info(100), vec![]);
    let b = query("bob", "r", info(200), vec![]);
    let c = query("carol", "r", info(100), vec![]);
    assert_eq!(cmp(&b, &a), Ordering::Less);
    assert_eq!(cmp(&a, &b), Ordering::Greater);
    assert_eq!(cmp(&a, &c), Ordering::Less);
    assert_eq!(cmp(&c, &a), Ordering::Greater);
    assert_eq!(cmp(&a, &a), Ordering::Equal);
    let mut v = vec![a, b, c];
    sort_outputs(&mut v);
    let users: Vec<&str> = v.iter().map(|o| o.user.as_str()).collect();
    assert_eq!(users, vec!["bob", "alice", "carol"]);
}

#[test]
fn user_repo_splits_at_first_slash() {
    let pair = split_user_repo("arceos-org/arceos").ok().unwrap();
    assert_eq!(pair, ["arceos-org".to_string(), "arceos".to_string()]);
    let deep = split_user_repo("a/b/c").ok().unwrap();
    assert_eq!(deep, ["a".to_string(), "b/c".to_string()]);
    let edge = split_user_repo("/x").ok().unwrap();
    assert_eq!(edge, ["".to_string(), "x".to_string()]);
    let err = split_user_repo("arceos").err().unwrap();
    assert_eq!(err.entry, "arceos");
    assert_eq!(err.message(), "`arceos` is not in `user/repo` form.");
}

#[test]
fn parse_list_reports_first_bad_entry() {
    let good = vec!["a/b".to_string(), "kern-crates/sparreal-os".to_string()];
    let list = parse_list(&good).ok().unwrap();
    assert_eq!(list.len(), 2);
    assert_eq!(list[1], ["kern-crates".to_string(), "sparreal-os".to_string()]);
    let bad = vec!["a/b".to_string(), "first".to_string(), "second".to_string()];
    assert_eq!(parse_list(&bad).err().unwrap().entry, "first");
    assert_eq!(parse_list(&vec![]).ok().unwrap().len(), 0);
}

#[test]
fn text_helpers() {
    assert_eq!(split_on("a/b//c", '/'), vec!["a", "b", "", "c"]);
    assert_eq!(split_on("", '/'), vec![""]);
    assert_eq!(split_once("k=v=w", '='), Some(("k".to_string(), "v=w".to_string())));
    assert_eq!(split_once("kv", '='), None);
    assert_eq!(strip_prefix("https://x/y", "https://"), Some("x/y".to_string()));
    assert_eq!(strip_prefix("http://x", "https://"), None);
    assert_eq!(strip_prefix("ab", "abc"), None);
    assert_eq!(compare_str("apple", "banana"), Ordering::Less);
    assert_eq!(compare_str("ab", "a"), Ordering::Greater);
    assert_eq!(compare_str("same", "same"), Ordering::Equal);
    assert_eq!(compare_str("Z", "a"), Ordering::Less);
    assert_eq!(compare_str("é", "z"), Ordering::Greater);
}

fn plain_run(sha: &str, created: i64, updated: i64) -> Run {
    Run {
        name: "CI".to_string(),
        head_branch: "main".to_string(),
        head_sha: sha.to_string(),
        head_commit: HeadCommit { message: "m".to_string(), timestamp: sec(0) },
        display_title: "t".to_string(),
        html_url: "h".to_string(),
        event: "push".to_string(),
        status: "completed".to_string(),
        conclusion: None,
        run_attempt: 1,
        run_started_at: sec(created),
        created_at: sec(created),
        updated_at: sec(updated),
        duration_sec: 0,
        actor: Actor { login: "a".to_string() },
        triggering_actor: Actor { login: "a".to_string() },
        id: 1,
        jobs_url: "https://api.github.com/j".to_string(),
        logs_url: "l".to_string(),
    }
}

#[test]
fn runs_group_by_commit_in_first_seen_order() {
    let wfs: Vec<Workflow> = ["x", "y", "x", "z", "y", "x"]
        .iter()
        .enumerate()
        .map(|(i, sha)| Workflow { run: plain_run(sha, i as i64, i as i64), jobs: Jobs { total_count: 0, jobs: vec![] } })
        .collect();
    let groups = group_by_sha(&wfs);
    assert_eq!(groups.len(), 3);
    assert_eq!(groups.get_index(0).unwrap(), (&"x".to_string(), &vec![0, 2, 5]));
    assert_eq!(groups.get_index(1).unwrap(), (&"y".to_string(), &vec![1, 4]));
    assert_eq!(groups.get_index(2).unwrap(), (&"z".to_string(), &vec![3]));
}
