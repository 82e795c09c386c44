use gw::git_ops::{
    branch_exists, count_ahead_behind, diff_counts, get_default_branch, get_entries_to_preserve,
    get_last_commit_ts, has_uncommitted_changes, has_unpushed_commits, is_bare_repo, is_valid_branch_name,
    list_local_branches, parse_worktrees, remote_branch_exists, upstream_command, worktree_add,
    worktree_branch_map, worktree_remove,
};
use gw::models::{AheadBehind, ParsedWorktree};

#[test]
fn porcelain_listing() {
    let out = "worktree /repo\nbare\n\nworktree /repo/main\nHEAD 111\nbranch refs/heads/main\n\nworktree /repo/x\nHEAD 222\ndetached\n\nworktree /repo/prunable";
    let w = parse_worktrees(out);
    assert_eq!(w.len(), 2);
    assert_eq!((w[0].path.as_str(), w[0].branch.as_str(), w[0].head.as_str()), ("/repo/main", "main", "111"));
    assert_eq!((w[1].path.as_str(), w[1].branch.as_str(), w[1].head.as_str()), ("/repo/x", "(detached)", "222"));
}

#[test]
fn porcelain_crlf_and_nested_branch() {
    let w = parse_worktrees("worktree /a\r\nbranch refs/heads/feature/x\r\n");
    assert_eq!(w.len(), 1);
    assert_eq!(w[0].path, "/a");
    assert_eq!(w[0].branch, "feature/x");
    assert!(parse_worktrees("").is_empty());
}

#[test]
fn command_arguments() {
    let c = worktree_add("/repo", "/repo/x", "x", Some("main"));
    assert_eq!(c.cwd, "/repo");
    assert_eq!(c.args, vec!["worktree", "add", "-b", "x", "/repo/x", "main"]);
    assert_eq!(worktree_add("/repo", "/repo/x", "x", None).args, vec!["worktree", "add", "/repo/x", "x"]);
    assert_eq!(worktree_remove("/repo", "/p").args, vec!["worktree", "remove", "--force", "/p"]);
    assert_eq!(upstream_command("/repo", "main").args, vec!["rev-parse", "--abbrev-ref", "main@{upstream}"]);
}

#[test]
fn simple_readers() {
    assert!(is_bare_repo("true"));
    assert!(!is_bare_repo("false"));
    assert_eq!(get_default_branch(&Some("origin/develop".to_string())), "develop");
    assert_eq!(get_default_branch(&Some("weird".to_string())), "main");
    assert_eq!(get_default_branch(&None), "main");
    assert_eq!(get_last_commit_ts(&Some("1700000000".to_string())), 1700000000);
    assert_eq!(get_last_commit_ts(&Some("x1".to_string())), 0);
    assert_eq!(get_last_commit_ts(&None), 0);
    assert!(branch_exists(&Some(String::new())));
    assert!(!is_valid_branch_name(&None));
    assert!(!remote_branch_exists(&Some("  \n".to_string())));
    assert!(remote_branch_exists(&Some("abc refs/heads/x".to_string())));
    assert!(has_uncommitted_changes(" M a.rs"));
    assert!(!has_uncommitted_changes("  "));
    assert!(has_unpushed_commits(&None, AheadBehind { ahead: 0, behind: 0 }));
    assert!(!has_unpushed_commits(&Some("origin/x".to_string()), AheadBehind { ahead: 0, behind: 3 }));
    assert!(has_unpushed_commits(&Some("origin/x".to_string()), AheadBehind { ahead: 1, behind: 0 }));
}

#[test]
fn ahead_behind_counts() {
    let ab = count_ahead_behind(&Some("3\t4".to_string()));
    assert_eq!((ab.ahead, ab.behind), (3, 4));
    let ab = count_ahead_behind(&Some("7".to_string()));
    assert_eq!((ab.ahead, ab.behind), (7, 0));
    let ab = count_ahead_behind(&None);
    assert_eq!((ab.ahead, ab.behind), (0, 0));
    let ab = count_ahead_behind(&Some("-2 +9".to_string()));
    assert_eq!((ab.ahead, ab.behind), (-2, 9));
}

#[test]
fn branch_listing() {
    assert_eq!(list_local_branches("main\n  feat \n\nfix/a"), vec!["main", "feat", "fix/a"]);
}

#[test]
fn diff_statistics() {
    let d = diff_counts(true, " M a.rs\n?? new.txt\n?? other.txt", "3\t1\ta.rs\n-\t-\tbin.png\n10\t0\tb.rs");
    assert_eq!((d.additions, d.deletions, d.dirty), (15, 1, true));
    let d = diff_counts(true, "", "");
    assert_eq!((d.additions, d.deletions, d.dirty), (0, 0, false));
    let d = diff_counts(false, " M a", "1\t1\ta");
    assert_eq!((d.additions, d.deletions, d.dirty), (0, 0, false));
}

#[test]
fn branch_map_skips_detached() {
    let w = vec![
        ParsedWorktree { path: "/a".to_string(), branch: "a".to_string(), head: "1".to_string() },
        ParsedWorktree { path: "/b".to_string(), branch: "(detached)".to_string(), head: "2".to_string() },
        ParsedWorktree { path: "/c".to_string(), branch: String::new(), head: "3".to_string() },
    ];
    let m = worktree_branch_map(&w);
    assert_eq!(m.len(), 1);
    assert_eq!(m[0].branch, "a");
}

#[test]
fn preserved_entries() {
    let paths = vec![
        "/repo".to_string(),
        "/repo/main".to_string(),
        "/repo/feature/x".to_string(),
        "/other/y".to_string(),
        "/repository2/z".to_string(),
        "/repo/main".to_string(),
    ];
    assert_eq!(get_entries_to_preserve("/repo", &paths), vec![".git", ".gw", "feature", "main"]);
}
