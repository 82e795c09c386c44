use gw::engine::{
    operation_commands, operation_outcome, App, ConfirmAction, Effect, InputAction, Key, Mode, NameChecks,
    OpRequest, OpResult, Operation, PostSuccessAction,
};
use gw::models::{AheadBehind, ParsedWorktree, WorktreeInfo};
use gw::services::{load_worktrees, WorktreeFacts};

fn rows(branches: &[&str]) -> Vec<WorktreeInfo> {
    let facts: Vec<WorktreeFacts> = branches
        .iter()
        .enumerate()
        .map(|(i, b)| WorktreeFacts {
            worktree: ParsedWorktree { path: format!("/repo/{b}"), branch: b.to_string(), head: format!("h{i}") },
            is_dir: true,
            last_commit_ts: 100 - i as i64,
            upstream_counts: None,
            default_counts: AheadBehind { ahead: 0, behind: 0 },
            cached: None,
        })
        .collect();
    load_worktrees(&facts)
}

fn app(branches: &[&str]) -> App {
    App::new("/repo".to_string(), rows(branches), "main".to_string(), None, true)
}

#[test]
fn new_app_selects_first_row() {
    let a = app(&["main", "feat"]);
    assert_eq!(a.selected, Some(0));
    let empty = app(&[]);
    assert_eq!(empty.selected, None);
    let no_host = App::new("/repo".to_string(), rows(&["main"]), "main".to_string(), None, false);
    assert!(no_host.items[0].pr_validated && no_host.items[0].checks_validated);
}

#[test]
fn selection_moves_within_bounds() {
    let mut a = app(&["main", "feat"]);
    a.select_prev();
    assert_eq!(a.selected, Some(0));
    a.handle_key(Key::Down);
    a.handle_key(Key::Down);
    assert_eq!(a.selected, Some(1));
}

#[test]
fn choosing_quits_with_path() {
    let mut a = app(&["main"]);
    a.handle_key(Key::Enter);
    assert!(a.should_quit);
    assert_eq!(a.selected_path.as_deref(), Some("/repo/main"));
    let mut e = app(&[]);
    e.action_choose();
    assert!(e.should_quit);
    assert!(e.selected_path.is_none());
}

#[test]
fn second_refresh_is_rejected() {
    let mut a = app(&["main"]);
    assert!(a.start_refresh(false));
    assert!(!a.start_refresh(true));
    assert_eq!(a.status, "Refresh already in progress...");
    assert!(a.refresh_running);
    let refreshed = a.items.clone();
    a.finish_refresh(&refreshed, None);
    assert!(!a.refresh_running);
    assert!(a.start_refresh(true));
    assert_eq!(a.status, "Refreshing...");
    a.finish_refresh(&refreshed, None);
    assert_eq!(a.status, "Refreshed.");
    a.start_refresh(false);
    a.finish_refresh(&refreshed, Some("boom".to_string()));
    assert_eq!(a.status, "Refresh failed: boom");
}

#[test]
fn busy_gate_rejects_mutations() {
    let mut a = app(&["main", "feat"]);
    let e = a.handle_key(Key::Char('p'));
    assert!(matches!(e, Effect::StartOperation(_)));
    assert!(a.busy);
    let before: Vec<String> = a.items.iter().map(|r| r.cache_key.clone()).collect();
    for k in ['p', 'P', 'd', 'R', 'n', 'N', 'r'] {
        let e = a.handle_key(Key::Char(k));
        assert!(matches!(e, Effect::Nothing));
        assert_eq!(a.status, "Another operation is in progress.");
    }
    let after: Vec<String> = a.items.iter().map(|r| r.cache_key.clone()).collect();
    assert_eq!(before, after);
    assert!(matches!(a.mode, Mode::Normal));
}

#[test]
fn pull_request_carries_messages() {
    let mut a = app(&["main"]);
    match a.action_pull_worktree() {
        Effect::StartOperation(req) => {
            assert_eq!(req.spinner_message, "Pulling main");
            assert_eq!(req.success_message, "Pulled main.");
            assert_eq!(req.failure_prefix, "Pull failed");
            assert_eq!(req.post_success_action, PostSuccessAction::ReloadAndRefresh);
            assert!(matches!(req.operation, Operation::Pull { ref path } if path == "/repo/main"));
        }
        _ => panic!("expected an operation"),
    }
}

#[test]
fn delete_flow_confirms_then_runs() {
    let mut a = app(&["main", "feat"]);
    a.selected = Some(1);
    let e = a.handle_key(Key::Char('D'));
    assert!(matches!(e, Effect::CheckDelete { ref ref_name } if ref_name == "feat"));
    a.action_delete_worktree(true);
    match &a.mode {
        Mode::Confirm { prompt, action: ConfirmAction::Delete { branch, .. } } => {
            assert_eq!(prompt, "Delete feat (branch has unpushed commits)?");
            assert_eq!(branch, "feat");
        }
        _ => panic!("expected a confirmation"),
    }
    let e = a.handle_key(Key::Char('y'));
    assert!(matches!(a.mode, Mode::Normal));
    assert!(matches!(e, Effect::StartOperation(OpRequest { operation: Operation::Delete { .. }, .. })));
}

#[test]
fn delete_cancelled() {
    let mut a = app(&["main"]);
    a.action_delete_worktree(false);
    assert!(matches!(&a.mode, Mode::Confirm { prompt, .. } if prompt == "Delete main?"));
    a.handle_key(Key::Esc);
    assert!(matches!(a.mode, Mode::Normal));
    assert_eq!(a.status, "Delete cancelled.");
}

#[test]
fn detached_rows_refuse_actions() {
    let mut a = app(&["main"]);
    a.items[0].ref_name = None;
    a.action_push_worktree();
    assert_eq!(a.status, "Cannot push a detached worktree.");
    a.action_rename_worktree();
    assert_eq!(a.status, "Cannot rename a detached worktree.");
    let mut e = app(&[]);
    e.action_pull_worktree();
    assert_eq!(e.status, "No worktrees available.");
}

#[test]
fn rename_input_flow() {
    let mut a = app(&["main"]);
    a.handle_key(Key::Char('R'));
    for c in " newx".chars() {
        a.handle_key(Key::Char(c));
    }
    a.handle_key(Key::Backspace);
    match a.handle_key(Key::Enter) {
        Effect::CheckName { name, target_path } => {
            assert_eq!(name, "new");
            assert_eq!(target_path, "/repo/new");
        }
        _ => panic!("expected a name check"),
    }
    assert!(matches!(a.mode, Mode::Input { .. }));
    let e = a.submit_input(NameChecks { valid: true, branch_exists: true, path_exists: false });
    assert!(matches!(e, Effect::Nothing));
    assert_eq!(a.status, "Branch already exists.");
    assert!(matches!(a.mode, Mode::Normal));
}

#[test]
fn input_validation_messages() {
    let mut a = app(&["main"]);
    let act = || InputAction::NewWorktree { base_branch: "main".to_string(), pull_before_create: None };
    a.run_input_action("  ", act(), NameChecks { valid: true, branch_exists: false, path_exists: false });
    assert_eq!(a.status, "Create cancelled.");
    a.run_input_action("x", act(), NameChecks { valid: false, branch_exists: false, path_exists: false });
    assert_eq!(a.status, "Invalid branch name.");
    a.run_input_action("x", act(), NameChecks { valid: true, branch_exists: true, path_exists: false });
    assert_eq!(a.status, "Branch already exists locally.");
    a.run_input_action("x", act(), NameChecks { valid: true, branch_exists: false, path_exists: true });
    assert_eq!(a.status, "Target worktree path already exists.");
    let e = a.run_input_action(" x ", act(), NameChecks { valid: true, branch_exists: false, path_exists: false });
    match e {
        Effect::StartOperation(req) => {
            assert_eq!(req.spinner_message, "Creating x");
            assert!(matches!(req.operation, Operation::Create { ref target, .. } if target == "/repo/x"));
        }
        _ => panic!("expected an operation"),
    }
}

#[test]
fn new_from_main_needs_main_row() {
    let mut a = app(&["feat"]);
    a.action_new_worktree_from_main();
    assert_eq!(a.status, "Cannot create from main: no 'main' worktree is available.");
    let mut b = app(&["feat", "main"]);
    b.action_new_worktree_from_main();
    match &b.mode {
        Mode::Input { prompt, action: InputAction::NewWorktree { base_branch, pull_before_create }, .. } => {
            assert_eq!(prompt, "New branch name:");
            assert_eq!(base_branch, "main");
            assert_eq!(pull_before_create.as_deref(), Some("/repo/main"));
        }
        _ => panic!("expected input"),
    }
}

#[test]
fn operation_completion_and_reload() {
    let mut a = app(&["main", "feat"]);
    let req = match a.action_pull_worktree() {
        Effect::StartOperation(req) => req,
        _ => panic!("expected an operation"),
    };
    let failed = operation_outcome(
        OpRequest {
            spinner_message: req.spinner_message.clone(),
            success_message: req.success_message.clone(),
            failure_prefix: req.failure_prefix.clone(),
            selected_branch_after: req.selected_branch_after.clone(),
            post_success_action: req.post_success_action,
            operation: Operation::Pull { path: "/x".to_string() },
        },
        Err("no network".to_string()),
    );
    assert_eq!(failed.status, "Pull failed: no network");
    assert!(!failed.succeeded);
    let ok = operation_outcome(req, Ok(()));
    let e = a.finish_operation(ok);
    assert!(!a.busy);
    assert_eq!(a.status, "Pulled main.");
    match e {
        Effect::Reload { selected_branch, then } => {
            assert_eq!(selected_branch.as_deref(), Some("main"));
            assert_eq!(then, PostSuccessAction::ReloadAndRefresh);
        }
        _ => panic!("expected a reload"),
    }
    let e = a.apply_reload(Ok(rows(&["x", "feat"])), Some("feat".to_string()), PostSuccessAction::ReloadAndRefresh);
    assert!(matches!(e, Effect::StartRefresh));
    assert_eq!(a.selected, Some(1));
    a.apply_reload(Err("bad".to_string()), None, PostSuccessAction::ReloadOnly);
    assert_eq!(a.status, "Reload failed: bad");
    a.apply_reload(Ok(vec![]), None, PostSuccessAction::ReloadOnly);
    assert_eq!(a.selected, None);
}

#[test]
fn reload_only_keeps_cached_rows_unconfirmed() {
    let mut a = app(&["main"]);
    a.refresh_running = false;
    let e = a.apply_reload(Ok(rows(&["main", "feat"])), Some("feat".to_string()), PostSuccessAction::ReloadOnly);
    assert!(matches!(e, Effect::Nothing));
    assert!(!a.refresh_running);
    assert_eq!(a.selected, Some(1));
    for row in &a.items {
        assert!(!row.pull_push_validated);
        assert!(!row.changes_validated);
        assert!(!row.pr_validated);
        assert!(!row.checks_validated);
    }
}

#[test]
fn new_from_default_branch() {
    let mut a = App::new("/repo".to_string(), rows(&["feat", "develop"]), "develop".to_string(), None, true);
    a.action_new_worktree_from_main();
    match &a.mode {
        Mode::Input { action: InputAction::NewWorktree { base_branch, pull_before_create }, .. } => {
            assert_eq!(base_branch, "develop");
            assert_eq!(pull_before_create.as_deref(), Some("/repo/develop"));
        }
        _ => panic!("expected input"),
    }
    let mut b = App::new("/repo".to_string(), rows(&["main"]), "develop".to_string(), None, true);
    b.handle_key(Key::Char('n'));
    assert!(matches!(b.mode, Mode::Normal));
    assert_eq!(b.status, "Cannot create from develop: no 'develop' worktree is available.");
}

#[test]
fn interrupted_operation_opens_gate() {
    let mut a = app(&["main"]);
    a.action_pull_worktree();
    a.operation_interrupted();
    assert!(!a.busy);
    assert_eq!(a.status, "Operation interrupted.");
    let e = a.finish_operation(OpResult {
        status: "x".to_string(),
        succeeded: false,
        post_success_action: PostSuccessAction::ReloadOnly,
        selected_branch_after: None,
    });
    assert!(matches!(e, Effect::Nothing));
}

#[test]
fn tick_advances_spinner_only_when_busy() {
    let mut a = app(&["main"]);
    a.on_tick();
    assert_eq!(a.spinner_index, 0);
    a.refresh_running = true;
    for _ in 0..5 {
        a.on_tick();
    }
    assert_eq!(a.spinner_index, 1);
}

#[test]
fn operation_command_sequences() {
    let create = Operation::Create {
        new_branch: "x".to_string(),
        base_branch: "main".to_string(),
        target: "/repo/x".to_string(),
        pull_before_create: Some("/repo/main".to_string()),
    };
    let remote = operation_commands("/repo", &create, true);
    let args: Vec<Vec<String>> = remote.iter().map(|c| c.args.clone()).collect();
    assert_eq!(args[0], vec!["pull"]);
    assert_eq!(remote[0].cwd, "/repo/main");
    assert_eq!(args[1], vec!["fetch", "origin", "x:x"]);
    assert_eq!(args[2], vec!["branch", "--set-upstream-to", "origin/x", "x"]);
    assert_eq!(args[3], vec!["worktree", "add", "/repo/x", "x"]);
    let local = operation_commands("/repo", &create, false);
    assert_eq!(local[1].args, vec!["worktree", "add", "-b", "x", "/repo/x", "main"]);
    let push = operation_commands("/repo", &Operation::Push { path: "/p".to_string(), ref_name: "b".to_string(), has_upstream: false }, false);
    assert_eq!(push[0].args, vec!["push", "-u", "origin", "b"]);
}
