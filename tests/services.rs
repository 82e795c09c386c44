use gw::models::{AheadBehind, CachedWorktree, DiffStat, ParsedWorktree, PullRequestInfo, ChecksInfo, WorktreeInfo};
use gw::services::{
    load_worktrees, make_cache_key, mark_refresh_columns_validated, merge_refreshed_items,
    refresh_changes, refresh_from_upstream, refresh_github, refresh_pull_push, PrReport, WorktreeFacts,
};

fn facts(path: &str, branch: &str, ts: i64, is_dir: bool) -> WorktreeFacts {
    WorktreeFacts {
        worktree: ParsedWorktree { path: path.to_string(), branch: branch.to_string(), head: "h1".to_string() },
        is_dir,
        last_commit_ts: ts,
        upstream_counts: Some(AheadBehind { ahead: 2, behind: 3 }),
        default_counts: AheadBehind { ahead: 5, behind: 7 },
        cached: None,
    }
}

fn row(key: &str, pull: i64) -> WorktreeInfo {
    let mut f = facts(&format!("/r/{key}"), key, 10, true);
    f.upstream_counts = Some(AheadBehind { ahead: 0, behind: pull });
    load_worktrees(&vec![f]).remove(0)
}

#[test]
fn cache_key_uses_branch_or_head() {
    assert_eq!(make_cache_key("main", "abc"), "main");
    assert_eq!(make_cache_key("", "abc"), "detached:abc");
    assert_eq!(make_cache_key("(detached)", "abc"), "detached:abc");
}

#[test]
fn rows_sorted_by_recency_and_missing_dirs_skipped() {
    let rows = load_worktrees(&vec![
        facts("/r/a", "a", 5, true),
        facts("/r/b", "b", 50, true),
        facts("/r/gone", "gone", 99, false),
        facts("/r/c", "", 20, true),
    ]);
    let keys: Vec<&str> = rows.iter().map(|r| r.cache_key.as_str()).collect();
    assert_eq!(keys, vec!["b", "detached:h1", "a"]);
    assert_eq!(rows[0].pull, 3);
    assert_eq!(rows[0].push, 2);
    assert!(rows[0].has_upstream);
    assert_eq!(rows[0].behind, 7);
    assert_eq!(rows[0].ahead, 5);
    assert!(!rows[0].pull_push_validated);
    assert_eq!(rows[1].branch, "h1");
    assert!(rows[1].ref_name.is_none());
    assert!(!rows[1].has_upstream);
    assert_eq!(rows[1].pull, 0);
}

#[test]
fn cached_values_fill_rows() {
    let mut f = facts("/r/a", "a", 5, true);
    f.cached = Some(CachedWorktree {
        pr_number: Some(4),
        pr_state: Some("OPEN".to_string()),
        pr_base: None,
        pr_url: None,
        checks_passed: Some(1),
        checks_total: Some(2),
        checks_state: Some("pend".to_string()),
        additions: 8,
        deletions: 9,
        dirty: true,
    });
    let rows = load_worktrees(&vec![f]);
    assert_eq!(rows[0].pr_number, Some(4));
    assert_eq!(rows[0].additions, 8);
    assert!(rows[0].dirty);
    assert!(!rows[0].pr_validated);
}

#[test]
fn merge_touches_only_matching_rows() {
    let mut current = vec![row("a", 1), row("b", 2)];
    let mut fresh = row("b", 9);
    fresh.path = "/elsewhere".to_string();
    fresh.pull_push_validated = true;
    merge_refreshed_items(&mut current, &vec![fresh]);
    assert_eq!(current[0].pull, 1);
    assert!(!current[0].pull_push_validated);
    assert_eq!(current[1].pull, 9);
    assert!(current[1].pull_push_validated);
    assert_eq!(current[1].path, "/r/b");
}

#[test]
fn merge_twice_changes_nothing_more() {
    let mut current = vec![row("a", 1), row("b", 2)];
    let refreshed = vec![row("a", 4)];
    merge_refreshed_items(&mut current, &refreshed);
    let once: Vec<i64> = current.iter().map(|r| r.pull).collect();
    merge_refreshed_items(&mut current, &refreshed);
    let twice: Vec<i64> = current.iter().map(|r| r.pull).collect();
    assert_eq!(once, vec![4, 2]);
    assert_eq!(once, twice);
}

#[test]
fn merge_takes_last_duplicate_key() {
    let mut current = vec![row("a", 1)];
    merge_refreshed_items(&mut current, &vec![row("a", 5), row("a", 6)]);
    assert_eq!(current[0].pull, 6);
}

#[test]
fn refresh_groups() {
    let mut items = vec![row("a", 1), row("b", 2)];
    items[1].ref_name = None;
    refresh_pull_push(&mut items, &vec![None, Some(AheadBehind { ahead: 1, behind: 1 })]);
    assert_eq!(items[0].pull, 0);
    assert!(!items[0].has_upstream);
    assert!(items[0].pull_push_validated);
    assert_eq!(items[1].pull, 0);
    refresh_changes(&mut items, &vec![Some(DiffStat { additions: 3, deletions: 4, dirty: true }), None]);
    assert_eq!(items[0].additions, 3);
    assert!(items[0].changes_validated);
    assert!(!items[1].changes_validated);
    let report = PrReport {
        pr: PullRequestInfo { number: 12, state: "OPEN".to_string(), base: Some("main".to_string()), url: None },
        checks: Some(ChecksInfo { passed: 2, total: 3, state: Some("fail".to_string()) }),
    };
    refresh_github(&mut items, &vec![Some(report), None]);
    assert_eq!(items[0].pr_number, Some(12));
    assert_eq!(items[0].checks_total, Some(3));
    assert!(items[1].pr_number.is_none());
    assert!(items[1].pr_validated && items[1].checks_validated);
}

#[test]
fn full_refresh_without_host() {
    let mut items = vec![row("a", 1)];
    refresh_from_upstream(&mut items, &vec![Some(AheadBehind { ahead: 4, behind: 0 })], &vec![None], &vec![None], false);
    assert_eq!(items[0].push, 4);
    assert!(!items[0].pr_validated);
    mark_refresh_columns_validated(&mut items);
    assert!(items[0].pr_validated && items[0].checks_validated && items[0].changes_validated);
}
