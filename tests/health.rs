use gw::health::{doctor_repo, health_check, RepairStep, RepoSnapshot};
use gw::models::ParsedWorktree;

fn wt(path: &str, branch: &str) -> ParsedWorktree {
    ParsedWorktree { path: path.to_string(), branch: branch.to_string(), head: "abc123".to_string() }
}

fn snapshot(branches: &[&str], is_bare: bool, worktrees: Vec<ParsedWorktree>, inside: Vec<bool>, exists: Vec<bool>) -> RepoSnapshot {
    RepoSnapshot {
        repo_root: "/repo".to_string(),
        branches: branches.iter().map(|b| b.to_string()).collect(),
        is_bare,
        worktrees,
        inside_root: inside,
        target_exists: exists,
    }
}

#[test]
fn missing_branch_then_repair_round_trip() {
    let s = snapshot(&["main", "feat"], true, vec![wt("/repo", "main")], vec![true], vec![false, false]);
    let r = health_check(&s);
    assert_eq!(r.missing_worktrees, vec!["feat".to_string()]);
    assert!(r.orphaned_worktrees.is_empty());
    assert!(r.unrecoverable_reasons.is_empty());
    assert!(r.is_recoverable());
    assert!(r.has_issues());
    let steps = doctor_repo("/repo", &r).unwrap();
    assert_eq!(steps.len(), 1);
    match &steps[0] {
        RepairStep::AddWorktree { path, branch } => {
            assert_eq!(path, "/repo/feat");
            assert_eq!(branch, "feat");
        }
        _ => panic!("expected a worktree creation"),
    }
    let after = snapshot(
        &["main", "feat"],
        true,
        vec![wt("/repo", "main"), wt("/repo/feat", "feat")],
        vec![true, true],
        vec![true, true],
    );
    let r2 = health_check(&after);
    assert!(r2.missing_worktrees.is_empty());
    assert!(r2.orphaned_worktrees.is_empty());
    assert!(r2.unrecoverable_reasons.is_empty());
    assert!(!r2.has_issues());
}

#[test]
fn duplicate_checkout_is_unrecoverable() {
    let s = snapshot(&["main"], true, vec![wt("/repo/a", "main"), wt("/repo/b", "main")], vec![true, true], vec![false]);
    let r = health_check(&s);
    assert_eq!(r.unrecoverable_reasons, vec!["branch main is checked out in 2 worktrees".to_string()]);
    assert!(!r.is_recoverable());
    let refused = doctor_repo("/repo", &r);
    assert_eq!(refused.err().unwrap(), "gw: setup has unrecoverable issues; run `gw init` first");
}

#[test]
fn orphans_outside_paths_collisions_and_not_bare() {
    let s = snapshot(
        &["main", "taken", "zeta"],
        false,
        vec![
            wt("/repo/main", "main"),
            wt("/repo/old", "(detached)"),
            wt("/repo/gone", "deleted-branch"),
            wt("/elsewhere/x", "zeta"),
            wt("/repo/old", ""),
        ],
        vec![true, true, true, false, true],
        vec![false, true, false],
    );
    let r = health_check(&s);
    assert_eq!(r.orphaned_worktrees, vec!["/repo/gone".to_string(), "/repo/old".to_string()]);
    assert_eq!(r.missing_worktrees, vec!["zeta".to_string()]);
    assert_eq!(
        r.unrecoverable_reasons,
        vec![
            "missing worktree for branch taken, but target path already exists: /repo/taken".to_string(),
            "repository root is not bare; run `gw init` to convert layout".to_string(),
            "worktree path is outside repo root: /elsewhere/x".to_string(),
        ]
    );
}

#[test]
fn each_branch_is_counted_once() {
    let s = snapshot(
        &["a", "b", "c"],
        true,
        vec![wt("/repo/a", "a")],
        vec![true],
        vec![false, false, true],
    );
    let r = health_check(&s);
    assert_eq!(r.missing_worktrees, vec!["b".to_string()]);
    assert_eq!(
        r.unrecoverable_reasons,
        vec!["missing worktree for branch c, but target path already exists: /repo/c".to_string()]
    );
}

#[test]
fn empty_repository_has_no_issues() {
    let s = snapshot(&[], true, vec![], vec![], vec![]);
    let r = health_check(&s);
    assert!(!r.has_issues());
    assert_eq!(doctor_repo("/repo", &r).unwrap().len(), 0);
}

#[test]
fn repair_removes_orphans_before_creating() {
    let s = snapshot(&["main", "new"], true, vec![wt("/repo/main", "main"), wt("/repo/x", "(detached)")], vec![true, true], vec![false, false]);
    let r = health_check(&s);
    let steps = doctor_repo("/repo", &r).unwrap();
    assert_eq!(steps.len(), 2);
    assert!(matches!(&steps[0], RepairStep::RemoveWorktree { path } if path == "/repo/x"));
    assert!(matches!(&steps[1], RepairStep::AddWorktree { path, branch } if path == "/repo/new" && branch == "new"));
}
