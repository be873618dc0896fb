//! Repository metadata and contributors, and the record kept of each
//! repository.

use vstd::prelude::*;
use core::cmp::Ordering;
use crate::order::{
    flipped, int_order, lemma_text_order_equal, lemma_text_order_flip,
    lemma_text_order_transitive, not_after, text_order, then_order,
};
use crate::sort::TotalPreorder;
use crate::timestamp::{duration_hours, span_hours, trunc_div, Timestamp};

verus! {

/// What the API reports of a repository.
pub struct Info {
    /// The repository's name.
    pub name: String,
    /// `user/repo`.
    pub full_name: String,
    pub owner: Owner,
    pub description: Option<String>,
    pub created_at: Timestamp,
    pub pushed_at: Timestamp,
    /// Moves with much besides pushes (someone starring the repository, for
    /// one), so it says less than `pushed_at`.
    pub updated_at: Timestamp,
    pub homepage: Option<String>,
    pub default_branch: String,
    /// In bytes.
    pub size: usize,
    /// The number of users that starred the repository.
    pub stargazers_count: usize,
    pub subscribers_count: usize,
    pub forks_count: usize,
    pub network_count: usize,
    pub open_issues_count: usize,
    pub fork: bool,
    pub archived: bool,
    pub has_issues: bool,
    pub has_projects: bool,
    pub has_downloads: bool,
    pub has_wiki: bool,
    pub has_pages: bool,
    pub has_discussions: bool,
    pub topics: Vec<String>,
    pub language: Option<String>,
    pub license: Option<License>,
}

/// The owner of a repository.
pub struct Owner {
    /// The account name.
    pub login: String,
    /// The account's type ("Organization", "User", "Bot", ...); the API
    /// calls this field `type`.
    pub kind: String,
}

/// A repository's license.
pub struct License {
    pub spdx_id: String,
}

/// A contributor to a repository.
pub struct Contributor {
    pub login: String,
    /// The account's type; the API calls this field `type`.
    pub kind: String,
    /// How many contributions the account made.
    pub contributions: usize,
}

/// The record kept of a repository.
pub struct Output {
    pub user: String,
    pub repo: String,
    pub info: Info,
    /// Whole days the repository has been active (see `active_days`).
    pub active_days: usize,
    /// All contributions of all contributors.
    pub contributions: usize,
    pub contributors: Vec<Contributor>,
}

/// Hours of activity: from creation to the last push, or, when the last push
/// predates creation (as with a fork), to the last update; none when that
/// predates creation too.
pub open spec fn active_hours(created: int, pushed: int, updated: int) -> int {
    if created <= pushed {
        span_hours(created, pushed)
    } else if created <= updated {
        span_hours(created, updated)
    } else {
        0
    }
}

/// The sum of the contributions of `cs`.
pub open spec fn total_contributions(cs: Seq<Contributor>) -> int
    decreases cs.len(),
{
    if cs.len() == 0 {
        0
    } else {
        total_contributions(cs.drop_last()) + cs.last().contributions
    }
}

/// The order `cmp` sorts records by: the latest push first, then by user.
pub open spec fn output_order(a: Output, b: Output) -> Ordering {
    then_order(
        int_order(b.info.pushed_at@, a.info.pushed_at@),
        then_order(text_order(a.user@, b.user@), text_order(a.user@, b.user@)),
    )
}

/// Hours from `earlier` to a `later` that does not precede it are at least
/// 0 and fewer than 200 million.
proof fn lemma_span_hours_bounds(earlier: int, later: int)
    requires
        crate::timestamp::nanos_in_range(earlier),
        crate::timestamp::nanos_in_range(later),
        earlier <= later,
    ensures
        0 <= span_hours(earlier, later) < 200_000_000,
{
    let d = later - earlier;
    assert(0 <= d < 700_000_000_000_000_000_000);
    vstd::arithmetic::div_mod::lemma_div_is_ordered(d, 700_000_000_000_000_000_000, 1_000_000_000);
    assert(700_000_000_000_000_000_000int / 1_000_000_000 == 700_000_000_000int);
    let s = d / 1_000_000_000;
    vstd::arithmetic::div_mod::lemma_div_pos_is_pos(d, 1_000_000_000);
    vstd::arithmetic::div_mod::lemma_div_is_ordered(s, 700_000_000_000, 3600);
    assert(700_000_000_000int / 3600 < 200_000_000);
    vstd::arithmetic::div_mod::lemma_div_pos_is_pos(s, 3600);
}

/// Whole days of activity: `active_hours` divided by 24, rounded down.
pub fn active_days(created: Timestamp, push: Timestamp, updated: Timestamp) -> (r: usize)
    ensures
        r == active_hours(created@, push@, updated@) / 24,
{
    let c = created.as_nanosecond();
    let p = push.as_nanosecond();
    let u = updated.as_nanosecond();
    let duration: i64 = if p >= c {
        proof {
            lemma_span_hours_bounds(c as int, p as int);
        }
        duration_hours(created, push)
    } else if u >= c {
        proof {
            lemma_span_hours_bounds(c as int, u as int);
        }
        duration_hours(created, updated)
    } else {
        0
    };
    duration as usize / 24
}

/// When the last push is not before creation, activity runs from creation to
/// that push, in whole hours of 3600 seconds, and the last update plays no
/// part.
pub proof fn lemma_active_hours_from_push(created: int, pushed: int, u1: int, u2: int)
    requires
        created <= pushed,
    ensures
        active_hours(created, pushed, u1) == (pushed - created) / 3_600_000_000_000,
        active_hours(created, pushed, u1) == active_hours(created, pushed, u2),
{
    lemma_whole_hours(pushed - created);
}

/// When the last push is before creation (a fork), activity runs from
/// creation to the last update if that is not before creation, and is
/// none otherwise.
pub proof fn lemma_active_hours_fork(created: int, pushed: int, updated: int)
    requires
        pushed < created,
    ensures
        created <= updated ==> active_hours(created, pushed, updated) == (updated - created)
            / 3_600_000_000_000,
        updated < created ==> active_hours(created, pushed, updated) == 0,
{
    if created <= updated {
        lemma_whole_hours(updated - created);
    }
}

/// Whole hours in `d` nanoseconds, for `d` not negative.
proof fn lemma_whole_hours(d: int)
    requires
        d >= 0,
    ensures
        trunc_div(trunc_div(d, 1_000_000_000), 3600) == d / 3_600_000_000_000,
{
    vstd::arithmetic::div_mod::lemma_div_pos_is_pos(d, 1_000_000_000);
    vstd::arithmetic::div_mod::lemma_div_denominator(d, 1_000_000_000, 3600);
    assert(1_000_000_000int * 3600 == 3_600_000_000_000int);
}

/// A single contributor's total is its contributions, whatever its login or
/// type.
pub proof fn lemma_total_single(c: Contributor)
    ensures
        total_contributions(seq![c]) == c.contributions,
{
    assert(seq![c].drop_last() =~= Seq::<Contributor>::empty());
    assert(total_contributions(Seq::<Contributor>::empty()) == 0);
    assert(seq![c].last() == c);
}

/// The total of two lists one after the other is the sum of their totals.
pub proof fn lemma_total_concat(a: Seq<Contributor>, b: Seq<Contributor>)
    ensures
        total_contributions(a + b) == total_contributions(a) + total_contributions(b),
    decreases b.len(),
{
    if b.len() == 0 {
        assert(a + b =~= a);
    } else {
        lemma_total_concat(a, b.drop_last());
        assert((a + b).drop_last() =~= a + b.drop_last());
        assert((a + b).last() == b.last());
    }
}

/// Only the contributions count: lists with the same contributions position
/// by position have the same total, whoever the contributors are.
pub proof fn lemma_total_only_contributions(a: Seq<Contributor>, b: Seq<Contributor>)
    requires
        a.len() == b.len(),
        forall|i: int| 0 <= i < a.len() ==> (#[trigger] a[i]).contributions == b[i].contributions,
    ensures
        total_contributions(a) == total_contributions(b),
    decreases a.len(),
{
    if a.len() > 0 {
        lemma_total_only_contributions(a.drop_last(), b.drop_last());
        assert(a.last().contributions == b.last().contributions);
    }
}

/// The contributions of a prefix of `cs` do not exceed those of all of it.
proof fn lemma_total_contributions_prefix(cs: Seq<Contributor>, i: int)
    requires
        0 <= i <= cs.len(),
    ensures
        0 <= total_contributions(cs.take(i)) <= total_contributions(cs),
    decreases cs.len(),
{
    if cs.len() > 0 {
        if i == cs.len() {
            assert(cs.take(i) =~= cs);
            lemma_total_contributions_prefix(cs.drop_last(), i - 1);
        } else {
            lemma_total_contributions_prefix(cs.drop_last(), i);
            assert(cs.drop_last().take(i) =~= cs.take(i));
        }
        assert(cs.drop_last().take(cs.len() - 1) =~= cs.drop_last());
    } else {
        assert(cs.take(i) =~= cs);
    }
}

/// The record of `user/repo` from the metadata and the contributors that the
/// API reported: its days of activity and the sum of all contributions.
pub fn query(user: &str, repo: &str, info: Info, contributors: Vec<Contributor>) -> (r: Output)
    requires
        total_contributions(contributors@) <= usize::MAX,
    ensures
        r.user@ == user@,
        r.repo@ == repo@,
        r.info == info,
        r.active_days == active_hours(info.created_at@, info.pushed_at@, info.updated_at@) / 24,
        r.contributions == total_contributions(contributors@),
        r.contributors == contributors,
{
    let active_days = active_days(info.created_at, info.pushed_at, info.updated_at);
    let mut contributions: usize = 0;
    let n = contributors.len();
    for i in 0..n
        invariant
            n == contributors@.len(),
            total_contributions(contributors@) <= usize::MAX,
            contributions == total_contributions(contributors@.take(i as int)),
    {
        proof {
            lemma_total_contributions_prefix(contributors@, i + 1);
            assert(contributors@.take(i + 1).drop_last() =~= contributors@.take(i as int));
        }
        contributions = contributions + contributors[i].contributions;
    }
    assert(contributors@.take(n as int) =~= contributors@);
    Output {
        user: user.to_owned(),
        repo: repo.to_owned(),
        info,
        active_days,
        contributions,
        contributors,
    }
}

/// Compares two records by `output_order`: the latest push first, then by
/// user.
pub fn cmp(a: &Output, b: &Output) -> (r: Ordering)
    ensures
        r == output_order(*a, *b),
{
    let pushed_a = a.info.pushed_at.as_nanosecond();
    let pushed_b = b.info.pushed_at.as_nanosecond();
    if pushed_b < pushed_a {
        Ordering::Less
    } else if pushed_b > pushed_a {
        Ordering::Greater
    } else {
        crate::order::compare_str(a.user.as_str(), b.user.as_str())
    }
}

/// Comparing two records the other way round flips the result.
pub proof fn lemma_cmp_flip(a: Output, b: Output)
    ensures
        output_order(b, a) == flipped(output_order(a, b)),
{
    lemma_text_order_flip(a.user@, b.user@);
}

/// Two records compare `Equal` exactly when they were pushed at the same
/// instant and belong to the same user.
pub proof fn lemma_cmp_equal(a: Output, b: Output)
    ensures
        (output_order(a, b) == Ordering::Equal) <==> (a.info.pushed_at@ == b.info.pushed_at@
            && a.user@ == b.user@),
{
    lemma_text_order_equal(a.user@, b.user@);
}

/// "Not after" under `cmp` is transitive.
pub proof fn lemma_cmp_transitive(a: Output, b: Output, c: Output)
    ensures
        not_after(output_order(a, b)) && not_after(output_order(b, c)) ==> not_after(
            output_order(a, c),
        ),
{
    lemma_text_order_equal(a.user@, b.user@);
    lemma_text_order_equal(b.user@, c.user@);
    lemma_text_order_transitive(a.user@, b.user@, c.user@);
}

impl TotalPreorder for Output {
    open spec fn precedes(a: Output, b: Output) -> bool {
        not_after(output_order(a, b))
    }

    proof fn lemma_total(a: Output, b: Output) {
        lemma_cmp_flip(a, b);
    }

    proof fn lemma_transitive(a: Output, b: Output, c: Output) {
        lemma_cmp_transitive(a, b, c);
    }

    fn precedes_exec(&self, other: &Output) -> (r: bool) {
        match cmp(self, other) {
            Ordering::Greater => false,
            _ => true,
        }
    }
}

} // verus!
