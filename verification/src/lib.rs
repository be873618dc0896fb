//! Summaries of GitHub Actions workflow runs and repository metadata.
//!
//! The library holds the logic: the data model of runs, jobs and steps with
//! their derived durations, the grouping of workflow runs by commit and the
//! choice of the latest group, the orderings used to rank repositories, and
//! the small text formats (a `user/repo` list, a jobs URL).
//! Fetching from the GitHub API and writing JSON files stand outside it.

pub mod group;
pub mod info;
pub mod list;
pub mod num;
pub mod order;
pub mod output;
pub mod sort;
pub mod summary;
pub mod text;
pub mod time;
pub mod timestamp;
pub mod types;
pub mod workflows;
