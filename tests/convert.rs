use gw::convert::{
    backup_dir_candidate, conflict_message, conflicting_branches, init_missing_branches, postcheck_worktrees,
    preflight_worktree_targets, preserved_with_git, rollback_report, stage_plan, ConversionTx, RollbackStep,
    StagedEntry,
};

fn strings(v: &[&str]) -> Vec<String> {
    v.iter().map(|s| s.to_string()).collect()
}

#[test]
fn preserved_set_has_git_dirs() {
    assert_eq!(preserved_with_git(strings(&["main", ".git"])), vec![".git", ".gw", "main"]);
}

#[test]
fn backup_name() {
    assert_eq!(backup_dir_candidate("/repo", 4242, 0), "/repo/.gw-init-backup-4242-0");
    assert_eq!(backup_dir_candidate("/repo", 7, 49), "/repo/.gw-init-backup-7-49");
}

#[test]
fn preflight_names_first_taken_target() {
    let missing = strings(&["a", "b", "c"]);
    assert!(preflight_worktree_targets("/repo", &missing, &vec![false, false, false]).is_ok());
    let e = preflight_worktree_targets("/repo", &missing, &vec![false, true, true]).unwrap_err();
    assert_eq!(e, "gw init: cannot create worktree for b; target path already exists: /repo/b");
}

#[test]
fn staging_skips_preserved_and_backup() {
    let entries = strings(&["src", ".git", "main", ".gw-init-backup-1-0", "README.md"]);
    let keep = strings(&[".git", ".gw", "main"]);
    let plan = stage_plan("/repo", &entries, &keep, "/repo/.gw-init-backup-1-0", ".gw-init-backup-1-0");
    let pairs: Vec<(String, String)> = plan.into_iter().map(|e| (e.original, e.backup)).collect();
    assert_eq!(
        pairs,
        vec![
            ("/repo/src".to_string(), "/repo/.gw-init-backup-1-0/src".to_string()),
            ("/repo/README.md".to_string(), "/repo/.gw-init-backup-1-0/README.md".to_string()),
        ]
    );
}

#[test]
fn postcheck_reports_unregistered_branch() {
    assert!(postcheck_worktrees(&strings(&["a"]), &strings(&["a", "b"])).is_ok());
    assert_eq!(
        postcheck_worktrees(&strings(&["a", "c"]), &strings(&["a"])).unwrap_err(),
        "gw init: post-check failed; worktree for branch c was not registered"
    );
}

#[test]
fn rollback_runs_in_reverse() {
    let mut tx = ConversionTx::new("/repo".to_string(), "/repo/.bk".to_string());
    tx.record_staged(StagedEntry { original: "/repo/a".to_string(), backup: "/repo/.bk/a".to_string() });
    tx.record_staged(StagedEntry { original: "/repo/b".to_string(), backup: "/repo/.bk/b".to_string() });
    tx.record_bare();
    tx.record_worktree("/repo/x".to_string());
    tx.record_worktree("/repo/y".to_string());
    let plan = tx.rollback_plan();
    assert_eq!(plan.len(), 6);
    assert!(matches!(&plan[0], RollbackStep::RemoveWorktree { path } if path == "/repo/y"));
    assert!(matches!(&plan[1], RollbackStep::RemoveWorktree { path } if path == "/repo/x"));
    assert!(matches!(&plan[2], RollbackStep::RestoreNonBare));
    assert!(matches!(&plan[3], RollbackStep::Restore { original, .. } if original == "/repo/b"));
    assert!(matches!(&plan[4], RollbackStep::Restore { backup, original } if original == "/repo/a" && backup == "/repo/.bk/a"));
    assert!(matches!(&plan[5], RollbackStep::RemoveBackupDir { path } if path == "/repo/.bk"));
}

#[test]
fn rollback_of_early_failure() {
    let tx = ConversionTx::new("/repo".to_string(), "/repo/.bk".to_string());
    let plan = tx.rollback_plan();
    assert_eq!(plan.len(), 1);
    assert!(matches!(&plan[0], RollbackStep::RemoveBackupDir { .. }));
}

#[test]
fn rollback_errors_are_reported_together() {
    assert_eq!(rollback_report("boom", &vec![]), "boom");
    assert_eq!(
        rollback_report("boom", &strings(&["- one", "- two"])),
        "boom\ngw init: rollback encountered errors:\n- one\n- two"
    );
}

#[test]
fn init_planning() {
    let branches = strings(&["main", "a", "b"]);
    let mapped = strings(&["main", "a"]);
    let at_root = strings(&["main"]);
    assert_eq!(init_missing_branches(&branches, &mapped, &at_root, true), vec!["b"]);
    assert_eq!(init_missing_branches(&branches, &mapped, &at_root, false), vec!["main", "b"]);
    let conflicts = conflicting_branches(&strings(&["main", "b"]), &mapped, &vec![true, true]);
    assert_eq!(conflicts, vec!["b"]);
    let ordered = conflicting_branches(&strings(&["z", "a", "m"]), &mapped, &vec![true, false, true]);
    assert_eq!(ordered, vec!["z", "m"]);
    assert_eq!(conflict_message(&strings(&["b", "c"])), "gw init: cannot create worktrees; paths already exist: b, c");
}
