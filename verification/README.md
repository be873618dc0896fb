# github_api

Summaries of the GitHub Actions workflow runs and of the metadata of a list
of GitHub repositories.

- `src/` is the library, verified with Verus: runs, jobs and steps with the
  durations derived from their timestamps (`types`, `output`), instants and
  the durations between them (`timestamp`, computed by `jiff`), runs grouped
  by commit in an `indexmap::IndexMap` and the most recent group (`group`),
  the summaries of a repository's runs (`workflows::summary`, and the older
  form in `summary`), repository records and their ranking (`info`), sorting
  (`sort`), text order and splitting (`order`, `text`), the `user/repo` list
  (`list`) and Beijing time (`time`).
- `app/` is the program: it reads `repos.json`, queries the GitHub API,
  converts to and from the library's types, and writes JSON files under
  `github-api/` and `tmp/`.
- `tests/` exercises the library on concrete values.
