use gw::engine::App;
use gw::models::{AheadBehind, ParsedWorktree, WorktreeInfo};
use gw::services::{load_worktrees, WorktreeFacts};
use gw::view::{format_changes, format_pr, format_pull_push, format_row, relative_time};

fn item() -> WorktreeInfo {
    let f = WorktreeFacts {
        worktree: ParsedWorktree { path: "/r/a".to_string(), branch: "a".to_string(), head: "h".to_string() },
        is_dir: true,
        last_commit_ts: 1000,
        upstream_counts: Some(AheadBehind { ahead: 2, behind: 1 }),
        default_counts: AheadBehind { ahead: 12, behind: 3 },
        cached: None,
    };
    load_worktrees(&vec![f]).remove(0)
}

#[test]
fn ages() {
    assert_eq!(relative_time(0, 100), "unknown");
    assert_eq!(relative_time(100, 130), "30s ago");
    assert_eq!(relative_time(100, 50), "0s ago");
    assert_eq!(relative_time(100, 100 + 125), "2m ago");
    assert_eq!(relative_time(100, 100 + 7200), "2h ago");
    assert_eq!(relative_time(100, 100 + 3 * 86_400), "3d ago");
    assert_eq!(relative_time(100, 100 + 2 * 604_800), "2w ago");
    assert_eq!(relative_time(100, 100 + 5 * 2_629_800), "5mo ago");
}

#[test]
fn columns() {
    let mut it = item();
    assert_eq!(format_pull_push(&it), ("1↓ 2↑".to_string(), true));
    it.dirty = true;
    assert_eq!(format_pull_push(&it).0, "1↓ 2↑ (dirty)");
    it.pr_state = Some("MERGED".to_string());
    it.pr_number = Some(7);
    it.pr_base = Some("develop".to_string());
    assert_eq!(format_pull_push(&it).0, "merged (remote deleted) (dirty)");
    assert_eq!(format_pr(&it, "main").0, "#7 merged (remote deleted) -> develop");
    it.pr_state = Some("CLOSED".to_string());
    assert_eq!(format_pr(&it, "develop").0, "#7 closed");
    it.additions = 5;
    it.deletions = -1;
    assert_eq!(format_changes(&it), ("+5 --1".to_string(), true));
    let row = format_row(&it, "main", 1060);
    assert_eq!(row.len(), 6);
    assert_eq!(row[0].0, "a");
    assert_eq!(row[1].0, "1m ago");
    assert_eq!(row[4].0, "     3|12");
}

#[test]
fn status_line_shows_activity() {
    let mut a = App::new("/r".to_string(), vec![item()], "main".to_string(), None, true);
    a.status = "idle".to_string();
    assert_eq!(a.status_line(), "idle");
    a.start_refresh(false);
    assert_eq!(a.status_line(), "Refreshing |");
    a.on_tick();
    a.action_pull_worktree();
    assert_eq!(a.status_line(), "Pulling a |");
}
