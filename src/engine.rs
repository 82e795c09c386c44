//! The interactive application engine: a state machine over the worktree
//! list, the selection, the mode and the two job gates. Each input (a key, a
//! completed job, a reloaded list) changes the state and yields an effect for
//! the surrounding loop to perform: start a worker, ask the collaborators a
//! question, or reload the list.
use vstd::prelude::*;
use vstd::pervasive::VecAdditionalExecFns;
use crate::git_ops::{
    branch_delete, branch_rename, branch_set_upstream, fetch_branch, pull, push, push_set_upstream,
    worktree_add, worktree_move, worktree_remove, GitCommand,
};
use crate::models::WorktreeInfo;
use crate::services::{merge_refreshed_items, merged};
use crate::text::{texts, child_path, concat3, drop_last_char, join_path, push_char, starts_with, trim, trimmed};

verus! {

/// A key press, as far as the engine tells keys apart.
#[derive(Clone, Copy, Debug, PartialEq, Eq, Structural)]
pub enum Key {
    Up,
    Down,
    Enter,
    Esc,
    Backspace,
    Char(char),
    Other,
}

/// A destructive action waiting for confirmation.
pub enum ConfirmAction {
    Delete { branch: String, path: String, ref_name: String },
}

/// An action waiting for a branch name.
pub enum InputAction {
    Rename { old_ref_name: String, old_path: String },
    NewWorktree { base_branch: String, pull_before_create: Option<String> },
}

/// The overlay that is active: none, a confirmation, or a text entry.
pub enum Mode {
    Normal,
    Confirm { prompt: String, action: ConfirmAction },
    Input { prompt: String, value: String, action: InputAction },
}

/// What follows a successful operation.
#[derive(Clone, Copy, Debug, PartialEq, Eq, Structural)]
pub enum PostSuccessAction {
    NoAction,
    ReloadOnly,
    ReloadAndRefresh,
}

/// The work of a mutating operation, as data.
pub enum Operation {
    Delete { path: String, ref_name: String },
    Rename { old_ref_name: String, new_branch: String, old_path: String, new_path: String },
    Create { new_branch: String, base_branch: String, target: String, pull_before_create: Option<String> },
    Pull { path: String },
    Push { path: String, ref_name: String, has_upstream: bool },
}

/// An operation with the messages and the policy that go with it.
pub struct OpRequest {
    pub spinner_message: String,
    pub success_message: String,
    pub failure_prefix: String,
    pub selected_branch_after: Option<String>,
    pub post_success_action: PostSuccessAction,
    pub operation: Operation,
}

/// What a completed operation reports.
pub struct OpResult {
    pub status: String,
    pub succeeded: bool,
    pub post_success_action: PostSuccessAction,
    pub selected_branch_after: Option<String>,
}

/// What the collaborators say of a proposed branch name.
pub struct NameChecks {
    pub valid: bool,
    pub branch_exists: bool,
    pub path_exists: bool,
}

/// What the surrounding loop is to do after an input.
pub enum Effect {
    Nothing,
    /// Start a refresh worker on a snapshot of the list.
    StartRefresh,
    /// Start an operation worker.
    StartOperation(OpRequest),
    /// Ask whether `ref_name` has unpushed commits, then call `action_delete_worktree`.
    CheckDelete { ref_name: String },
    /// Check the proposed `name` and its target path, then call `submit_input`.
    CheckName { name: String, target_path: String },
    /// Reload the list, then call `apply_reload`.
    Reload { selected_branch: Option<String>, then: PostSuccessAction },
}

/// The status shown when an operation is refused because one is running.
pub open spec fn busy_message() -> Seq<char> {
    "Another operation is in progress."@
}

/// The status shown when an action needs a selected row and there is none.
pub open spec fn no_worktrees_message() -> Seq<char> {
    "No worktrees available."@
}

/// The engine's state.
pub struct App {
    pub repo_root: String,
    pub default_branch: String,
    pub warning: Option<String>,
    pub gh_available: bool,
    pub items: Vec<WorktreeInfo>,
    pub selected: Option<usize>,
    pub mode: Mode,
    pub status: String,
    pub selected_path: Option<String>,
    pub should_quit: bool,
    pub busy: bool,
    pub spinner_index: usize,
    pub spinner_message: Option<String>,
    pub refresh_running: bool,
}

/// The rows as shown: without the code host, the pull-request groups have
/// nothing to wait for and count as validated.
pub open spec fn shown_rows(items: Seq<WorktreeInfo>, gh_available: bool) -> Seq<WorktreeInfo> {
    if gh_available {
        items
    } else {
        items.map_values(
            |x: WorktreeInfo| WorktreeInfo { pr_validated: true, checks_validated: true, ..x },
        )
    }
}

/// The first row on `branch`, or 0 when none is.
pub open spec fn index_of_branch(items: Seq<WorktreeInfo>, branch: Seq<char>) -> int
    decreases items.len(),
{
    if items.len() == 0 {
        0
    } else if index_of_branch_rec(items, branch, 0) >= 0 {
        index_of_branch_rec(items, branch, 0)
    } else {
        0
    }
}

/// The first row at or after `from` on `branch`, or -1.
pub open spec fn index_of_branch_rec(items: Seq<WorktreeInfo>, branch: Seq<char>, from: int) -> int
    decreases items.len() - from,
{
    if from < 0 || from >= items.len() {
        -1
    } else if items[from].branch@ == branch {
        from
    } else {
        index_of_branch_rec(items, branch, from + 1)
    }
}

fn gh_adjusted(items: Vec<WorktreeInfo>, gh_available: bool) -> (r: Vec<WorktreeInfo>)
    ensures
        r@ == shown_rows(items@, gh_available),
{
    if gh_available {
        return items;
    }
    let mut items = items;
    let ghost orig = items@;
    let n = items.len();
    let mut i: usize = 0;
    while i < n
        invariant
            n == items@.len(),
            n == orig.len(),
            i <= n,
            forall|k: int| 0 <= k < i ==> #[trigger] items@[k] == (WorktreeInfo {
                pr_validated: true,
                checks_validated: true,
                ..orig[k]
            }),
            forall|k: int| i <= k < n ==> #[trigger] items@[k] == orig[k],
        decreases n - i,
    {
        let mut row = items[i].duplicate();
        row.pr_validated = true;
        row.checks_validated = true;
        items.set(i, row);
        i = i + 1;
    }
    assert(items@ =~= shown_rows(orig, gh_available));
    items
}

proof fn lemma_index_of_branch_rec(items: Seq<WorktreeInfo>, branch: Seq<char>, from: int)
    ensures
        -1 <= index_of_branch_rec(items, branch, from) < items.len(),
    decreases items.len() - from,
{
    if 0 <= from < items.len() && items[from].branch@ != branch {
        lemma_index_of_branch_rec(items, branch, from + 1);
    }
}


/// `n` is `o` with only the status changed, to `msg`.
pub open spec fn refused(o: App, n: App, msg: Seq<char>) -> bool {
    &&& n == (App { status: n.status, ..o })
    &&& n.status@ == msg
}

/// `n` is `o` with the operation gate taken for `req`.
pub open spec fn gate_taken(o: App, n: App, req: OpRequest) -> bool {
    n == (App { busy: true, spinner_index: 0, spinner_message: Some(req.spinner_message), ..o })
}

/// `req` carries these messages, this selection to restore and this policy.
pub open spec fn request_is(
    req: OpRequest,
    spinner: Seq<char>,
    success: Seq<char>,
    failure: Seq<char>,
    select: Option<Seq<char>>,
    post: PostSuccessAction,
) -> bool {
    &&& req.spinner_message@ == spinner
    &&& req.success_message@ == success
    &&& req.failure_prefix@ == failure
    &&& match select {
        Some(b) => req.selected_branch_after matches Some(s) && s@ == b,
        None => req.selected_branch_after is None,
    }
    &&& req.post_success_action == post
}

/// The confirmation prompt for deleting `branch`, with its warnings.
pub open spec fn delete_prompt(branch: Seq<char>, dirty: bool, unpushed: bool) -> Seq<char> {
    let warn = if dirty && unpushed {
        "working tree has uncommitted changes; branch has unpushed commits"@
    } else if dirty {
        "working tree has uncommitted changes"@
    } else {
        "branch has unpushed commits"@
    };
    if dirty || unpushed {
        "Delete "@ + branch + " ("@ + warn + ")?"@
    } else {
        "Delete "@ + branch + "?"@
    }
}

/// The selection after the list is replaced by `rows`: the first row on
/// `branch` if one is given and some row is on it, else the first row; none
/// when the list is empty.
pub open spec fn reloaded_selection(rows: Seq<WorktreeInfo>, branch: Option<String>) -> Option<usize> {
    if rows.len() == 0 {
        None
    } else {
        match branch {
            Some(b) => Some(#[verifier::truncate] (index_of_branch(rows, b@) as usize)),
            None => Some(0usize),
        }
    }
}

/// `n` and `e` are what replacing the list of `o` by the loaded rows
/// `loaded` gives under the policy `then`: the rows as shown, the selection
/// restored, and a refresh started when the policy asks for one and none is
/// in flight; nothing else changes.
pub open spec fn reload_applied(
    o: App,
    n: App,
    e: Effect,
    loaded: Seq<WorktreeInfo>,
    selected_branch: Option<String>,
    then: PostSuccessAction,
) -> bool {
    let rows = shown_rows(loaded, o.gh_available);
    let sel = reloaded_selection(rows, selected_branch);
    &&& n.wf()
    &&& n.items@ == rows
    &&& then == PostSuccessAction::ReloadAndRefresh ==> (e is StartRefresh <==> !o.refresh_running)
        && (e is Nothing <==> o.refresh_running) && n == (App {
        items: n.items,
        selected: sel,
        refresh_running: true,
        ..o
    })
    &&& then != PostSuccessAction::ReloadAndRefresh ==> e is Nothing && n == (App {
        items: n.items,
        selected: sel,
        ..o
    })
}

/// The first row on `branch`, if any.
pub open spec fn row_on(items: Seq<WorktreeInfo>, branch: Seq<char>) -> Option<WorktreeInfo> {
    let k = index_of_branch_rec(items, branch, 0);
    if k >= 0 { Some(items[k]) } else { None }
}

/// The refusal when the default branch `d` has no worktree.
pub open spec fn no_default_row_message(d: Seq<char>) -> Seq<char> {
    "Cannot create from "@ + d + ": no '"@ + d + "' worktree is available."@
}

/// `r` is what a worker reports for `req` once its work returned `outcome`:
/// on success the success message and the request's policy, on failure the
/// failure prefix with the error and no follow-up.
pub open spec fn is_outcome_of(r: OpResult, req: OpRequest, outcome: Result<(), String>) -> bool {
    match outcome {
        Ok(_) => {
            &&& r.status == req.success_message
            &&& r.succeeded
            &&& r.post_success_action == req.post_success_action
            &&& r.selected_branch_after == req.selected_branch_after
        },
        Err(e) => {
            &&& r.status@ == req.failure_prefix@ + ": "@ + e@
            &&& !r.succeeded
            &&& r.post_success_action == PostSuccessAction::NoAction
            &&& r.selected_branch_after is None
        },
    }
}

/// What a worker reports for `req` once its work returned `outcome`.
pub fn operation_outcome(req: OpRequest, outcome: Result<(), String>) -> (r: OpResult)
    ensures
        is_outcome_of(r, req, outcome),
{
    match outcome {
        Ok(()) => OpResult {
            status: req.success_message,
            succeeded: true,
            post_success_action: req.post_success_action,
            selected_branch_after: req.selected_branch_after,
        },
        Err(e) => OpResult {
            status: concat3(req.failure_prefix.as_str(), ": ", e.as_str()),
            succeeded: false,
            post_success_action: PostSuccessAction::NoAction,
            selected_branch_after: None,
        },
    }
}

/// `n` and `e` are what running the entered `value` against `action` gives
/// in state `o`, once the collaborators answered `checks`: an empty name
/// cancels; an illegal name, a taken branch or, for a new worktree, a taken
/// target path is refused; otherwise the operation starts unless one runs.
pub open spec fn runs_input(
    o: App,
    n: App,
    e: Effect,
    value: Seq<char>,
    action: InputAction,
    checks: NameChecks,
) -> bool {
    let name = trimmed(value);
    let target = child_path(o.repo_root@, name);
    match action {
        InputAction::Rename { old_ref_name, old_path } => if name.len() == 0 {
            e is Nothing && refused(o, n, "Rename cancelled."@)
        } else if !checks.valid {
            e is Nothing && refused(o, n, "Invalid branch name."@)
        } else if checks.branch_exists {
            e is Nothing && refused(o, n, "Branch already exists."@)
        } else if o.busy {
            e is Nothing && refused(o, n, busy_message())
        } else {
            match e {
                Effect::StartOperation(req) => gate_taken(o, n, req)
                    && request_is(req, "Renaming to "@ + name, "Renamed to "@ + name + "."@,
                    "Rename failed"@, Some(name), PostSuccessAction::ReloadOnly)
                    && match req.operation {
                    Operation::Rename { old_ref_name: orn, new_branch, old_path: op, new_path } =>
                        orn == old_ref_name && op == old_path && new_branch@ == name
                        && new_path@ == target,
                    _ => false,
                },
                _ => false,
            }
        },
        InputAction::NewWorktree { base_branch, pull_before_create } => if name.len() == 0 {
            e is Nothing && refused(o, n, "Create cancelled."@)
        } else if !checks.valid {
            e is Nothing && refused(o, n, "Invalid branch name."@)
        } else if checks.branch_exists {
            e is Nothing && refused(o, n, "Branch already exists locally."@)
        } else if checks.path_exists {
            e is Nothing && refused(o, n, "Target worktree path already exists."@)
        } else if o.busy {
            e is Nothing && refused(o, n, busy_message())
        } else {
            match e {
                Effect::StartOperation(req) => gate_taken(o, n, req)
                    && request_is(req, "Creating "@ + name, "Created "@ + name + "."@,
                    "Create failed"@, Some(name), PostSuccessAction::ReloadOnly)
                    && match req.operation {
                    Operation::Create { new_branch, base_branch: b, target: t, pull_before_create: p } =>
                        b == base_branch && p == pull_before_create && new_branch@ == name
                        && t@ == target,
                    _ => false,
                },
                _ => false,
            }
        },
    }
    }

/// `n` and `e` are what running the confirmed `action` gives in state `o`.
pub open spec fn runs_confirm(o: App, n: App, e: Effect, action: ConfirmAction) -> bool {
    &&& o.busy ==> e is Nothing && refused(o, n, busy_message())
    &&& !o.busy ==> match action {
        ConfirmAction::Delete { branch, path, ref_name } => match e {
            Effect::StartOperation(req) => gate_taken(o, n, req)
                && request_is(req, "Deleting "@ + branch@, "Deleted "@ + branch@ + "."@,
                "Delete failed"@, None, PostSuccessAction::ReloadOnly)
                && req.operation == (Operation::Delete { path, ref_name }),
            _ => false,
        },
    }
}

/// `n` is `o` with the selection one row up, stopping at the first.
pub open spec fn moves_up(o: App, n: App) -> bool {
    &&& n.selected == match o.selected {
        Some(i) => Some(if i == 0 { 0usize } else { (i - 1) as usize }),
        None => None
    }
    &&& n == (App { selected: n.selected, ..o })
}

/// `n` is `o` with the selection one row down, stopping at the last.
pub open spec fn moves_down(o: App, n: App) -> bool {
    &&& n.selected == match o.selected {
        Some(i) => Some(if i + 1 >= o.items@.len() { i } else { (i + 1) as usize }),
        None => None
    }
    &&& n == (App { selected: n.selected, ..o })
}

/// `n` is `o` stopped, with the selected row's path as its result, if any.
pub open spec fn chooses(o: App, n: App) -> bool {
    &&& n.should_quit
    &&& n.selected_path == match o.current() {
        Some(c) => Some(c.path),
        None => None
    }
    &&& n == (App {
        should_quit: true,
        selected_path: n.selected_path,
        ..o
    })
}

/// `n` and `e` are what a refresh request from the keyboard gives in `o`.
pub open spec fn refreshes(o: App, n: App, e: Effect) -> bool {
    &&& o.busy ==> e is Nothing && n.status@ == busy_message() && n
        == (App { status: n.status, ..o })
    &&& !o.busy ==> n.refresh_running && (e is StartRefresh
        <==> !o.refresh_running) && (e is Nothing <==> o.refresh_running)
        && n == (App {
        refresh_running: true,
        status: n.status,
        ..o
    })
}

/// `n` and `e` are what a pull of the selected worktree gives in `o`.
pub open spec fn pulls(o: App, n: App, e: Effect) -> bool {
    &&& o.busy ==> e is Nothing && refused(o, n, busy_message())
    &&& !o.busy ==> match o.current() {
        None => e is Nothing && refused(o, n, no_worktrees_message()),
        Some(c) => match c.ref_name {
            None => e is Nothing && refused(o, n, "Cannot pull a detached worktree."@),
            Some(_) => match e {
                Effect::StartOperation(req) => gate_taken(o, n, req)
                    && request_is(req, "Pulling "@ + c.branch@, "Pulled "@ + c.branch@ + "."@,
                    "Pull failed"@, Some(c.branch@), PostSuccessAction::ReloadAndRefresh)
                    && req.operation == (Operation::Pull { path: c.path }),
                _ => false,
            },
        }
    }
}

/// `n` and `e` are what a push of the selected worktree gives in `o`.
pub open spec fn pushes(o: App, n: App, e: Effect) -> bool {
    &&& o.busy ==> e is Nothing && refused(o, n, busy_message())
    &&& !o.busy ==> match o.current() {
        None => e is Nothing && refused(o, n, no_worktrees_message()),
        Some(c) => match c.ref_name {
            None => e is Nothing && refused(o, n, "Cannot push a detached worktree."@),
            Some(rn) => match e {
                Effect::StartOperation(req) => gate_taken(o, n, req)
                    && request_is(req, "Pushing "@ + c.branch@, "Pushed "@ + c.branch@ + "."@,
                    "Push failed"@, Some(c.branch@), PostSuccessAction::ReloadAndRefresh)
                    && req.operation == (Operation::Push {
                        path: c.path,
                        ref_name: rn,
                        has_upstream: c.has_upstream,
                    }),
                _ => false,
            },
        }
    }
}

/// `n` and `e` are what a delete request gives in `o`.
pub open spec fn probes_delete(o: App, n: App, e: Effect) -> bool {
    &&& o.busy ==> e is Nothing && refused(o, n, busy_message())
    &&& !o.busy ==> match o.current() {
        None => e is Nothing && refused(o, n, no_worktrees_message()),
        Some(c) => match c.ref_name {
            None => e is Nothing && refused(o, n, "Cannot delete a detached worktree."@),
            Some(rn) => n == o && e == (Effect::CheckDelete { ref_name: rn }),
        }
    }
}

/// `n` is what a rename request gives in `o`.
pub open spec fn asks_rename(o: App, n: App) -> bool {
    &&& o.busy ==> refused(o, n, busy_message())
    &&& !o.busy ==> match o.current() {
        None => refused(o, n, no_worktrees_message()),
        Some(c) => match c.ref_name {
            None => refused(o, n, "Cannot rename a detached worktree."@),
            Some(rn) => n == (App { mode: n.mode, ..o }) && match n.mode {
                Mode::Input { prompt, value, action } => prompt@ == "Rename "@ + c.branch@ + " to:"@
                    && value@.len() == 0
                    && action == (InputAction::Rename { old_ref_name: rn, old_path: c.path }),
                _ => false,
            },
        }
    }
}

/// `n` is what a request for a new branch from the default branch gives in
/// `o`: the default branch's worktree must exist, and is pulled first.
pub open spec fn asks_new_from_default(o: App, n: App) -> bool {
    &&& o.busy ==> refused(o, n, busy_message())
    &&& !o.busy ==> match row_on(o.items@, o.default_branch@) {
        None => refused(o, n, no_default_row_message(o.default_branch@)),
        Some(m) => n == (App { mode: n.mode, ..o }) && match n.mode {
            Mode::Input { prompt, value, action } => prompt@ == "New branch name:"@
                && value@.len() == 0 && action == (InputAction::NewWorktree {
                base_branch: o.default_branch,
                pull_before_create: Some(m.path),
            }),
            _ => false,
        },
    }
}

/// `n` is what a request for a new branch from the selected one gives in `o`.
pub open spec fn asks_new_from_selected(o: App, n: App) -> bool {
    &&& o.busy ==> refused(o, n, busy_message())
    &&& !o.busy ==> match o.current() {
        None => refused(o, n, no_worktrees_message()),
        Some(c) => match c.ref_name {
            None => refused(o, n, "Cannot create from a detached worktree."@),
            Some(_) => n == (App { mode: n.mode, ..o }) && match n.mode {
                Mode::Input { prompt, value, action } => prompt@ == "New branch name (from "@
                    + c.branch@ + "):"@ && value@.len() == 0
                    && action == (InputAction::NewWorktree { base_branch: c.branch, pull_before_create: None }),
                _ => false,
            },
        }
    }
}

/// `n` and `e` are what `key` gives in `o` while a confirmation is shown.
pub open spec fn on_confirm_key(o: App, n: App, e: Effect, key: Key) -> bool {
    &&& n.items == o.items
    &&& n.selected == o.selected
    &&& (key == Key::Esc || key == Key::Char('n') || key == Key::Char('N')) ==> e is Nothing
        && n.mode is Normal && n.status@ == "Delete cancelled."@
    &&& (key == Key::Char('y') || key == Key::Char('Y')) ==> match o.mode {
        Mode::Confirm { action, .. } => runs_confirm(
            App { mode: Mode::Normal, ..o },
            n,
            e,
            action,
        ),
        _ => false,
    }
    &&& !(key == Key::Esc || key == Key::Char('n') || key == Key::Char('N') || key == Key::Char('y')
        || key == Key::Char('Y')) ==> e is Nothing && n == o
}

/// `n` and `e` are what `key` gives in `o` while a name is being entered.
pub open spec fn on_input_key(o: App, n: App, e: Effect, key: Key) -> bool {
    &&& n.items == o.items
    &&& n.selected == o.selected
    &&& n.busy == o.busy
    &&& !(e is StartOperation)
    &&& match (o.mode, key) {
        (Mode::Input { prompt, value, action }, Key::Char(ch)) => e is Nothing && n
            == (App { mode: n.mode, ..o }) && match n.mode {
            Mode::Input { prompt: p2, value: v2, action: a2 } => p2 == prompt && a2 == action
                && v2@ == value@.push(ch),
            _ => false,
        },
        (Mode::Input { prompt, value, action }, Key::Backspace) => e is Nothing && n
            == (App { mode: n.mode, ..o }) && match n.mode {
            Mode::Input { prompt: p2, value: v2, action: a2 } => p2 == prompt && a2 == action
                && v2@ == if value@.len() == 0 { value@ } else { value@.drop_last() },
            _ => false,
        },
        (Mode::Input { action, .. }, Key::Esc) => e is Nothing && n.mode is Normal
            && n.status@ == match action {
            InputAction::Rename { .. } => "Rename cancelled."@,
            InputAction::NewWorktree { .. } => "Create cancelled."@,
        },
        (Mode::Input { value, action, .. }, Key::Enter) => if trimmed(value@).len() == 0 {
            e is Nothing && n.mode is Normal && n.status@ == match action {
                InputAction::Rename { .. } => "Rename cancelled."@,
                InputAction::NewWorktree { .. } => "Create cancelled."@,
            }
        } else {
            n == o && match e {
                Effect::CheckName { name, target_path } => name@ == trimmed(value@)
                    && target_path@ == child_path(o.repo_root@, trimmed(value@)),
                _ => false,
            }
        },
        _ => e is Nothing && n == o,
    }
}

/// `n` and `e` are what `key` gives in `o` in the normal mode: arrows move
/// the selection, Enter chooses, Esc and `q` quit, and the letter keys run
/// their actions; other keys do nothing.
pub open spec fn on_normal_key(o: App, n: App, e: Effect, key: Key) -> bool {
    match key {
        Key::Up => e is Nothing && moves_up(o, n),
        Key::Down => e is Nothing && moves_down(o, n),
        Key::Enter => e is Nothing && chooses(o, n),
        Key::Esc => e is Nothing && n == (App { should_quit: true, ..o }),
        Key::Char('q') => e is Nothing && n == (App { should_quit: true, ..o }),
        Key::Char('r') => refreshes(o, n, e),
        Key::Char('n') => e is Nothing && asks_new_from_default(o, n),
        Key::Char('N') => e is Nothing && asks_new_from_selected(o, n),
        Key::Char('d') => probes_delete(o, n, e),
        Key::Char('D') => probes_delete(o, n, e),
        Key::Char('R') => e is Nothing && asks_rename(o, n),
        Key::Char('p') => pulls(o, n, e),
        Key::Char('P') => pushes(o, n, e),
        _ => e is Nothing && n == o,
    }
}

impl App {
    /// The selection lies inside the list, and is absent only when the list is empty.
    pub open spec fn wf(&self) -> bool {
        &&& (self.selected is None) == (self.items@.len() == 0)
        &&& self.selected matches Some(i) ==> i < self.items@.len()
    }

    /// The selected row, if any.
    pub open spec fn current(&self) -> Option<WorktreeInfo> {
        match self.selected {
            Some(i) if i < self.items@.len() => Some(self.items@[i as int]),
            _ => None,
        }
    }

    /// The engine over the initial list, with the first row selected.
    pub fn new(
        repo_root: String,
        items: Vec<WorktreeInfo>,
        default_branch: String,
        warning: Option<String>,
        gh_available: bool,
    ) -> (r: App)
        ensures
            r.wf(),
            r.items@ == shown_rows(items@, gh_available),
            r.selected == if items@.len() == 0 { None } else { Some(0usize) },
            r.mode is Normal,
            r.status@.len() == 0,
            !r.busy,
            !r.refresh_running,
            !r.should_quit,
            r.selected_path is None,
            r.repo_root == repo_root,
            r.default_branch == default_branch,
            r.gh_available == gh_available,
    {
        let items = gh_adjusted(items, gh_available);
        let selected = if items.len() == 0 { None } else { Some(0usize) };
        App {
            repo_root,
            default_branch,
            warning,
            gh_available,
            items,
            selected,
            mode: Mode::Normal,
            status: String::new(),
            selected_path: None,
            should_quit: false,
            busy: false,
            spinner_index: 0,
            spinner_message: None,
            refresh_running: false,
        }
    }

    /// A copy of the selected row, if any.
    pub fn current_item(&self) -> (r: Option<WorktreeInfo>)
        ensures
            r == self.current(),
    {
        match self.selected {
            Some(i) => {
                if i < self.items.len() {
                    Some(self.items[i].duplicate())
                } else {
                    None
                }
            },
            None => None,
        }
    }

    /// Advances the busy indicator while a job is in flight.
    pub fn on_tick(&mut self)
        ensures
            final(self).spinner_index == if old(self).busy || old(self).refresh_running {
                ((old(self).spinner_index + 1) % 4) as usize
            } else {
                old(self).spinner_index
            },
            *final(self) == (App { spinner_index: final(self).spinner_index, ..*old(self) }),
    {
        if self.busy || self.refresh_running {
            self.spinner_index = (self.spinner_index % 4 + 1) % 4;
        }
    }

    /// Moves the selection one row up, stopping at the first.
    pub fn select_prev(&mut self)
        requires
            old(self).wf(),
        ensures
            final(self).wf(),
            moves_up(*old(self), *final(self)),
    {
        if let Some(i) = self.selected {
            self.selected = Some(if i == 0 { 0 } else { i - 1 });
        }
    }

    /// Moves the selection one row down, stopping at the last.
    pub fn select_next(&mut self)
        requires
            old(self).wf(),
        ensures
            final(self).wf(),
            moves_down(*old(self), *final(self)),
    {
        if let Some(i) = self.selected {
            if i < self.items.len() && self.items.len() - i > 1 {
                self.selected = Some(i + 1);
            }
        }
    }

    /// Chooses the selected row: the engine stops, with that row's path as
    /// its result; with nothing selected it stops with no result.
    pub fn action_choose(&mut self)
        ensures
            chooses(*old(self), *final(self)),
    {
        match self.current_item() {
            Some(c) => {
                self.selected_path = Some(c.path);
            },
            None => {
                self.selected_path = None;
            },
        }
        self.should_quit = true;
    }

    /// The refresh gate: starts a refresh unless one is in flight. A second
    /// request while one is in flight starts nothing and changes nothing but
    /// the status of a manual request.
    pub fn start_refresh(&mut self, manual: bool) -> (spawn: bool)
        ensures
            spawn == !old(self).refresh_running,
            final(self).refresh_running,
            !manual ==> final(self).status == old(self).status,
            final(self).status@ == if !manual {
                old(self).status@
            } else if old(self).refresh_running {
                "Refresh already in progress..."@
            } else {
                "Refreshing..."@
            },
            *final(self) == (App { refresh_running: true, status: final(self).status, ..*old(self) }),
    {
        if self.refresh_running {
            if manual {
                self.status = String::from_str("Refresh already in progress...");
            }
            return false;
        }
        if manual {
            self.status = String::from_str("Refreshing...");
        }
        self.refresh_running = true;
        true
    }

    /// Folds a completed refresh into the list and opens the refresh gate.
    pub fn finish_refresh(&mut self, refreshed: &Vec<WorktreeInfo>, error: Option<String>)
        requires
            old(self).wf(),
        ensures
            final(self).wf(),
            !final(self).refresh_running,
            final(self).items@ == merged(old(self).items@, refreshed@),
            final(self).status@ == match error {
                Some(e) => "Refresh failed: "@ + e@,
                None => if old(self).status@.len() >= 10 && old(self).status@.take(10)
                    == "Refreshing"@ {
                    "Refreshed."@
                } else {
                    old(self).status@
                },
            },
            *final(self) == (App {
                refresh_running: false,
                items: final(self).items,
                status: final(self).status,
                ..*old(self)
            }),
    {
        merge_refreshed_items(&mut self.items, refreshed);
        match error {
            Some(e) => {
                let mut s = String::from_str("Refresh failed: ");
                s.append(e.as_str());
                self.status = s;
            },
            None => {
                proof { reveal_strlit("Refreshing"); }
                if starts_with(self.status.as_str(), "Refreshing") {
                    self.status = String::from_str("Refreshed.");
                }
            },
        }
        self.refresh_running = false;
    }

    /// Opens the refresh gate after its worker ended without a result.
    pub fn refresh_lost(&mut self)
        ensures
            *final(self) == (App { refresh_running: false, ..*old(self) }),
    {
        self.refresh_running = false;
    }

    /// Asks for a refresh from the keyboard; refused while an operation runs.
    pub fn action_refresh(&mut self) -> (e: Effect)
        ensures
            refreshes(*old(self), *final(self), e),
    {
        if self.busy {
            self.status = String::from_str("Another operation is in progress.");
            return Effect::Nothing;
        }
        if self.start_refresh(true) {
            Effect::StartRefresh
        } else {
            Effect::Nothing
        }
    }

    /// The operation gate: starts `req` unless an operation is in flight. A
    /// refused request starts nothing and leaves the list as it was.
    pub fn start_operation(&mut self, req: OpRequest) -> (e: Effect)
        ensures
            old(self).busy ==> e is Nothing && final(self).status@ == busy_message() && *final(self)
                == (App { status: final(self).status, ..*old(self) }),
            !old(self).busy ==> e == Effect::StartOperation(req) && *final(self) == (App {
                busy: true,
                spinner_index: 0,
                spinner_message: Some(req.spinner_message),
                ..*old(self)
            }),
    {
        if self.busy {
            self.status = String::from_str("Another operation is in progress.");
            return Effect::Nothing;
        }
        self.busy = true;
        self.spinner_index = 0;
        self.spinner_message = Some(req.spinner_message.clone());
        Effect::StartOperation(req)
    }

    /// Applies a completed operation: the busy flag clears, its status is shown, and
    /// after a success with a reload policy the list is to be reloaded.
    pub fn finish_operation(&mut self, result: OpResult) -> (e: Effect)
        ensures
            !final(self).busy,
            final(self).spinner_message is None,
            final(self).status == result.status,
            *final(self) == (App {
                busy: false,
                spinner_message: None,
                status: result.status,
                ..*old(self)
            }),
            if result.succeeded && result.post_success_action != PostSuccessAction::NoAction {
                e == (Effect::Reload {
                    selected_branch: result.selected_branch_after,
                    then: result.post_success_action,
                })
            } else {
                e is Nothing
            },
    {
        self.busy = false;
        self.spinner_message = None;
        self.status = result.status;
        if result.succeeded && result.post_success_action != PostSuccessAction::NoAction {
            Effect::Reload {
                selected_branch: result.selected_branch_after,
                then: result.post_success_action,
            }
        } else {
            Effect::Nothing
        }
    }

    /// Opens the operation gate after its worker ended without a result.
    pub fn operation_interrupted(&mut self)
        ensures
            final(self).status@ == "Operation interrupted."@,
            *final(self) == (App {
                busy: false,
                spinner_message: None,
                status: final(self).status,
                ..*old(self)
            }),
    {
        self.busy = false;
        self.spinner_message = None;
        self.status = String::from_str("Operation interrupted.");
    }

    /// Replaces the list wholesale and selects the row on `selected_branch`,
    /// else the first; nothing when the list is empty.
    pub fn reload_items(&mut self, new_items: Vec<WorktreeInfo>, selected_branch: Option<String>)
        ensures
            final(self).wf(),
            final(self).items@ == shown_rows(new_items@, old(self).gh_available),
            final(self).selected == reloaded_selection(final(self).items@, selected_branch),
            *final(self) == (App {
                items: final(self).items,
                selected: final(self).selected,
                ..*old(self)
            }),
    {
        let items = gh_adjusted(new_items, self.gh_available);
        let n = items.len();
        let ghost rows = items@;
        if n == 0 {
            self.items = items;
            self.selected = None;
            return;
        }
        let mut index: usize = 0;
        if let Some(b) = &selected_branch {
            let mut k: usize = 0;
            let mut found = false;
            while k < n && !found
                invariant
                    n == rows.len(),
                    rows == items@,
                    k <= n,
                    found ==> index < n && index_of_branch_rec(rows, b@, 0) == index,
                    !found ==> index == 0 && index_of_branch_rec(rows, b@, 0)
                        == index_of_branch_rec(rows, b@, k as int),
                decreases n - k + if found { 0int } else { 1int },
            {
                if items[k].branch == *b {
                    index = k;
                    found = true;
                } else {
                    k = k + 1;
                }
            }
            proof {
                lemma_index_of_branch_rec(rows, b@, 0);
                if !found {
                    assert(index_of_branch_rec(rows, b@, n as int) == -1);
                }
            }
        }
        proof {
            assert(rows.len() == new_items@.len());
        }
        self.items = items;
        self.selected = Some(index);
    }

    /// Pulls the selected worktree, then reloads and refreshes the list.
    pub fn action_pull_worktree(&mut self) -> (e: Effect)
        ensures
            pulls(*old(self), *final(self), e),
    {
        if self.busy {
            self.status = String::from_str("Another operation is in progress.");
            return Effect::Nothing;
        }
        let c = match self.current_item() {
            Some(c) => c,
            None => {
                self.status = String::from_str("No worktrees available.");
                return Effect::Nothing;
            },
        };
        if c.is_detached() {
            self.status = String::from_str("Cannot pull a detached worktree.");
            return Effect::Nothing;
        }
        let req = OpRequest {
            spinner_message: concat3("Pulling ", c.branch.as_str(), ""),
            success_message: concat3("Pulled ", c.branch.as_str(), "."),
            failure_prefix: String::from_str("Pull failed"),
            selected_branch_after: Some(c.branch.clone()),
            post_success_action: PostSuccessAction::ReloadAndRefresh,
            operation: Operation::Pull { path: c.path },
        };
        proof { reveal_strlit(""); }
        assert(req.spinner_message@ =~= "Pulling "@ + c.branch@);
        self.start_operation(req)
    }

    /// Pushes the selected worktree, setting its upstream if it has none,
    /// then reloads and refreshes the list.
    pub fn action_push_worktree(&mut self) -> (e: Effect)
        ensures
            pushes(*old(self), *final(self), e),
    {
        if self.busy {
            self.status = String::from_str("Another operation is in progress.");
            return Effect::Nothing;
        }
        let c = match self.current_item() {
            Some(c) => c,
            None => {
                self.status = String::from_str("No worktrees available.");
                return Effect::Nothing;
            },
        };
        let ref_name = match &c.ref_name {
            Some(r) => r.clone(),
            None => {
                self.status = String::from_str("Cannot push a detached worktree.");
                return Effect::Nothing;
            },
        };
        let req = OpRequest {
            spinner_message: concat3("Pushing ", c.branch.as_str(), ""),
            success_message: concat3("Pushed ", c.branch.as_str(), "."),
            failure_prefix: String::from_str("Push failed"),
            selected_branch_after: Some(c.branch.clone()),
            post_success_action: PostSuccessAction::ReloadAndRefresh,
            operation: Operation::Push { path: c.path, ref_name, has_upstream: c.has_upstream },
        };
        proof { reveal_strlit(""); }
        assert(req.spinner_message@ =~= "Pushing "@ + c.branch@);
        self.start_operation(req)
    }

    /// First step of a delete: refuses while busy or without a selected branch, and asks
    /// the collaborators whether the branch has unpushed commits.
    pub fn delete_probe(&mut self) -> (e: Effect)
        ensures
            probes_delete(*old(self), *final(self), e),
    {
        if self.busy {
            self.status = String::from_str("Another operation is in progress.");
            return Effect::Nothing;
        }
        let c = match self.current_item() {
            Some(c) => c,
            None => {
                self.status = String::from_str("No worktrees available.");
                return Effect::Nothing;
            },
        };
        match c.ref_name {
            Some(r) => Effect::CheckDelete { ref_name: r },
            None => {
                self.status = String::from_str("Cannot delete a detached worktree.");
                Effect::Nothing
            },
        }
    }

    /// Second step of a delete: asks for confirmation, warning of
    /// uncommitted changes and of `unpushed` commits.
    pub fn action_delete_worktree(&mut self, unpushed: bool)
        ensures
            old(self).busy ==> refused(*old(self), *final(self), busy_message()),
            !old(self).busy ==> match old(self).current() {
                None => refused(*old(self), *final(self), no_worktrees_message()),
                Some(c) => match c.ref_name {
                    None => refused(*old(self), *final(self), "Cannot delete a detached worktree."@),
                    Some(rn) => *final(self) == (App { mode: final(self).mode, ..*old(self) }) && match final(self).mode {
                        Mode::Confirm { prompt, action } => prompt@ == delete_prompt(c.branch@, c.dirty, unpushed)
                            && action == (ConfirmAction::Delete { branch: c.branch, path: c.path, ref_name: rn }),
                        _ => false,
                    },
                },
            },
    {
        if self.busy {
            self.status = String::from_str("Another operation is in progress.");
            return;
        }
        let c = match self.current_item() {
            Some(c) => c,
            None => {
                self.status = String::from_str("No worktrees available.");
                return;
            },
        };
        let ref_name = match &c.ref_name {
            Some(r) => r.clone(),
            None => {
                self.status = String::from_str("Cannot delete a detached worktree.");
                return;
            },
        };
        let prompt = if c.dirty && unpushed {
            concat3(concat3("Delete ", c.branch.as_str(), " (").as_str(),
                "working tree has uncommitted changes; branch has unpushed commits", ")?")
        } else if c.dirty {
            concat3(concat3("Delete ", c.branch.as_str(), " (").as_str(),
                "working tree has uncommitted changes", ")?")
        } else if unpushed {
            concat3(concat3("Delete ", c.branch.as_str(), " (").as_str(),
                "branch has unpushed commits", ")?")
        } else {
            concat3("Delete ", c.branch.as_str(), "?")
        };
        self.mode = Mode::Confirm {
            prompt,
            action: ConfirmAction::Delete { branch: c.branch, path: c.path, ref_name },
        };
    }

    /// Asks for the new name of the selected branch.
    pub fn action_rename_worktree(&mut self)
        ensures
            asks_rename(*old(self), *final(self)),
    {
        if self.busy {
            self.status = String::from_str("Another operation is in progress.");
            return;
        }
        let c = match self.current_item() {
            Some(c) => c,
            None => {
                self.status = String::from_str("No worktrees available.");
                return;
            },
        };
        let ref_name = match &c.ref_name {
            Some(r) => r.clone(),
            None => {
                self.status = String::from_str("Cannot rename a detached worktree.");
                return;
            },
        };
        self.mode = Mode::Input {
            prompt: concat3("Rename ", c.branch.as_str(), " to:"),
            value: String::new(),
            action: InputAction::Rename { old_ref_name: ref_name, old_path: c.path },
        };
    }

    /// Asks for the name of a new branch started from the default branch,
    /// whose worktree must exist and is pulled first.
    pub fn action_new_worktree_from_main(&mut self)
        ensures
            asks_new_from_default(*old(self), *final(self)),
    {
        if self.busy {
            self.status = String::from_str("Another operation is in progress.");
            return;
        }
        let n = self.items.len();
        let mut k: usize = 0;
        let mut found = false;
        let ghost d = self.default_branch@;
        proof { lemma_index_of_branch_rec(self.items@, d, 0); }
        while k < n && !found
            invariant
                n == self.items@.len(),
                d == self.default_branch@,
                k <= n,
                found ==> k < n && index_of_branch_rec(self.items@, d, 0) == k,
                !found ==> index_of_branch_rec(self.items@, d, 0) == index_of_branch_rec(
                    self.items@,
                    d,
                    k as int,
                ),
            decreases n - k + if found { 0int } else { 1int },
        {
            if self.items[k].branch == self.default_branch {
                found = true;
            } else {
                k = k + 1;
            }
        }
        if !found {
            assert(index_of_branch_rec(self.items@, d, n as int) == -1);
            let mut msg = concat3("Cannot create from ", self.default_branch.as_str(), ": no '");
            msg.append(self.default_branch.as_str());
            msg.append("' worktree is available.");
            self.status = msg;
            return;
        }
        let path = self.items[k].path.clone();
        self.mode = Mode::Input {
            prompt: String::from_str("New branch name:"),
            value: String::new(),
            action: InputAction::NewWorktree {
                base_branch: self.default_branch.clone(),
                pull_before_create: Some(path),
            },
        };
    }

    /// Asks for the name of a new branch started from the selected one.
    pub fn action_new_worktree_from_selected(&mut self)
        ensures
            asks_new_from_selected(*old(self), *final(self)),
    {
        if self.busy {
            self.status = String::from_str("Another operation is in progress.");
            return;
        }
        let c = match self.current_item() {
            Some(c) => c,
            None => {
                self.status = String::from_str("No worktrees available.");
                return;
            },
        };
        if c.is_detached() {
            self.status = String::from_str("Cannot create from a detached worktree.");
            return;
        }
        self.mode = Mode::Input {
            prompt: concat3("New branch name (from ", c.branch.as_str(), "):"),
            value: String::new(),
            action: InputAction::NewWorktree { base_branch: c.branch, pull_before_create: None },
        };
    }

    /// Closes the overlay, handing back the mode that was active.
    fn take_mode(&mut self) -> (m: Mode)
        ensures
            m == old(self).mode,
            *final(self) == (App { mode: Mode::Normal, ..*old(self) }),
    {
        let mut m = Mode::Normal;
        core::mem::swap(&mut self.mode, &mut m);
        m
    }

    /// Runs a confirmed action through the operation gate.
    pub fn run_confirm_action(&mut self, action: ConfirmAction) -> (e: Effect)
        ensures
            runs_confirm(*old(self), *final(self), e, action),
    {
        match action {
            ConfirmAction::Delete { branch, path, ref_name } => {
                let req = OpRequest {
                    spinner_message: concat3("Deleting ", branch.as_str(), ""),
                    success_message: concat3("Deleted ", branch.as_str(), "."),
                    failure_prefix: String::from_str("Delete failed"),
                    selected_branch_after: None,
                    post_success_action: PostSuccessAction::ReloadOnly,
                    operation: Operation::Delete { path, ref_name },
                };
                proof { reveal_strlit(""); }
                assert(req.spinner_message@ =~= "Deleting "@ + branch@);
                self.start_operation(req)
            },
        }
    }

    /// A key while a confirmation is shown: `y` runs the action, `n` or Esc
    /// cancels it; either way the overlay closes.
    pub fn handle_key_confirm(&mut self, key: Key) -> (e: Effect)
        requires
            old(self).mode is Confirm,
        ensures
            on_confirm_key(*old(self), *final(self), e, key),
    {
        match key {
            Key::Esc | Key::Char('n') | Key::Char('N') => {
                self.mode = Mode::Normal;
                self.status = String::from_str("Delete cancelled.");
                Effect::Nothing
            },
            Key::Char('y') | Key::Char('Y') => {
                let mode = self.take_mode();
                match mode {
                    Mode::Confirm { action, .. } => self.run_confirm_action(action),
                    _ => Effect::Nothing,
                }
            },
            _ => Effect::Nothing,
        }
    }

    /// A key while a name is being entered: characters edit the entry, Esc
    /// cancels, Enter submits a non-empty trimmed name for checking and
    /// cancels an empty one.
    pub fn handle_key_input(&mut self, key: Key) -> (e: Effect)
        requires
            old(self).mode is Input,
        ensures
            on_input_key(*old(self), *final(self), e, key),
    {
        match key {
            Key::Esc => {
                let mode = self.take_mode();
                match mode {
                    Mode::Input { action, .. } => {
                        self.status = match action {
                            InputAction::Rename { .. } => String::from_str("Rename cancelled."),
                            InputAction::NewWorktree { .. } => String::from_str("Create cancelled."),
                        };
                    },
                    _ => {},
                }
                Effect::Nothing
            },
            Key::Enter => {
                let normalized = match &self.mode {
                    Mode::Input { value, .. } => trim(value.as_str()),
                    _ => String::new(),
                };
                if normalized.unicode_len() == 0 {
                    let mode = self.take_mode();
                    match mode {
                        Mode::Input { action, .. } => {
                            self.status = match action {
                                InputAction::Rename { .. } => String::from_str("Rename cancelled."),
                                InputAction::NewWorktree { .. } => String::from_str("Create cancelled."),
                            };
                        },
                        _ => {},
                    }
                    Effect::Nothing
                } else {
                    let target_path = join_path(self.repo_root.as_str(), normalized.as_str());
                    Effect::CheckName { name: normalized, target_path }
                }
            },
            Key::Backspace => {
                let mode = self.take_mode();
                match mode {
                    Mode::Input { prompt, value, action } => {
                        let value = drop_last_char(value.as_str());
                        self.mode = Mode::Input { prompt, value, action };
                    },
                    other => {
                        self.mode = other;
                    },
                }
                Effect::Nothing
            },
            Key::Char(ch) => {
                let mode = self.take_mode();
                match mode {
                    Mode::Input { prompt, value, action } => {
                        let mut value = value;
                        push_char(&mut value, ch);
                        self.mode = Mode::Input { prompt, value, action };
                    },
                    other => {
                        self.mode = other;
                    },
                }
                Effect::Nothing
            },
            _ => Effect::Nothing,
        }
    }

    /// Runs an entered name against its action once the collaborators have
    /// checked it: an empty name cancels; an illegal one, a taken branch or,
    /// for a new worktree, a taken target path is refused; otherwise the
    /// operation is started unless one is running.
    pub fn run_input_action(&mut self, value: &str, action: InputAction, checks: NameChecks) -> (e: Effect)
        ensures
            final(self).items == old(self).items,
            final(self).mode == old(self).mode,
            runs_input(*old(self), *final(self), e, value@, action, checks),
    {
        let name = trim(value);
        let empty = name.unicode_len() == 0;
        match action {
            InputAction::Rename { old_ref_name, old_path } => {
                if empty {
                    self.status = String::from_str("Rename cancelled.");
                    return Effect::Nothing;
                }
                if !checks.valid {
                    self.status = String::from_str("Invalid branch name.");
                    return Effect::Nothing;
                }
                if checks.branch_exists {
                    self.status = String::from_str("Branch already exists.");
                    return Effect::Nothing;
                }
                let new_path = join_path(self.repo_root.as_str(), name.as_str());
                let req = OpRequest {
                    spinner_message: concat3("Renaming to ", name.as_str(), ""),
                    success_message: concat3("Renamed to ", name.as_str(), "."),
                    failure_prefix: String::from_str("Rename failed"),
                    selected_branch_after: Some(name.clone()),
                    post_success_action: PostSuccessAction::ReloadOnly,
                    operation: Operation::Rename { old_ref_name, new_branch: name.clone(), old_path, new_path },
                };
                proof { reveal_strlit(""); }
                assert(req.spinner_message@ =~= "Renaming to "@ + name@);
                self.start_operation(req)
            },
            InputAction::NewWorktree { base_branch, pull_before_create } => {
                if empty {
                    self.status = String::from_str("Create cancelled.");
                    return Effect::Nothing;
                }
                if !checks.valid {
                    self.status = String::from_str("Invalid branch name.");
                    return Effect::Nothing;
                }
                if checks.branch_exists {
                    self.status = String::from_str("Branch already exists locally.");
                    return Effect::Nothing;
                }
                if checks.path_exists {
                    self.status = String::from_str("Target worktree path already exists.");
                    return Effect::Nothing;
                }
                let target = join_path(self.repo_root.as_str(), name.as_str());
                let req = OpRequest {
                    spinner_message: concat3("Creating ", name.as_str(), ""),
                    success_message: concat3("Created ", name.as_str(), "."),
                    failure_prefix: String::from_str("Create failed"),
                    selected_branch_after: Some(name.clone()),
                    post_success_action: PostSuccessAction::ReloadOnly,
                    operation: Operation::Create { new_branch: name.clone(), base_branch, target, pull_before_create },
                };
                proof { reveal_strlit(""); }
                assert(req.spinner_message@ =~= "Creating "@ + name@);
                self.start_operation(req)
            },
        }
    }

    /// Submits the entry after its name was checked: the overlay closes and
    /// the entered name runs against its action.
    pub fn submit_input(&mut self, checks: NameChecks) -> (e: Effect)
        ensures
            final(self).items == old(self).items,
            final(self).mode is Normal,
            match old(self).mode {
                Mode::Input { value, action, .. } => runs_input(
                    App { mode: Mode::Normal, ..*old(self) },
                    *final(self),
                    e,
                    value@,
                    action,
                    checks,
                ),
                _ => e is Nothing && *final(self) == (App { mode: Mode::Normal, ..*old(self) }),
            },
    {
        let mode = self.take_mode();
        match mode {
            Mode::Input { value, action, .. } => self.run_input_action(value.as_str(), action, checks),
            _ => Effect::Nothing,
        }
    }

    /// A key in the normal mode: moves the selection, chooses, quits, or
    /// starts one of the actions.
    pub fn handle_key_normal(&mut self, key: Key) -> (e: Effect)
        requires
            old(self).wf(),
        ensures
            final(self).wf(),
            final(self).items == old(self).items,
            old(self).busy ==> !(e is StartOperation) && !(e is StartRefresh),
            on_normal_key(*old(self), *final(self), e, key),
    {
        match key {
            Key::Up => {
                self.select_prev();
                Effect::Nothing
            },
            Key::Down => {
                self.select_next();
                Effect::Nothing
            },
            Key::Enter => {
                self.action_choose();
                Effect::Nothing
            },
            Key::Esc | Key::Char('q') => {
                self.should_quit = true;
                Effect::Nothing
            },
            Key::Char('r') => self.action_refresh(),
            Key::Char('n') => {
                self.action_new_worktree_from_main();
                Effect::Nothing
            },
            Key::Char('N') => {
                self.action_new_worktree_from_selected();
                Effect::Nothing
            },
            Key::Char('d') | Key::Char('D') => self.delete_probe(),
            Key::Char('R') => {
                self.action_rename_worktree();
                Effect::Nothing
            },
            Key::Char('p') => self.action_pull_worktree(),
            Key::Char('P') => self.action_push_worktree(),
            _ => Effect::Nothing,
        }
    }

    /// A key press, interpreted in the current mode. While an operation is in
    /// flight no key starts another one, and no key changes the list.
    pub fn handle_key(&mut self, key: Key) -> (e: Effect)
        requires
            old(self).wf(),
        ensures
            final(self).wf(),
            final(self).items == old(self).items,
            old(self).busy ==> !(e is StartOperation),
            match old(self).mode {
                Mode::Normal => on_normal_key(*old(self), *final(self), e, key),
                Mode::Confirm { .. } => on_confirm_key(*old(self), *final(self), e, key),
                Mode::Input { .. } => on_input_key(*old(self), *final(self), e, key),
            },
    {
        match self.mode {
            Mode::Normal => self.handle_key_normal(key),
            Mode::Confirm { .. } => self.handle_key_confirm(key),
            Mode::Input { .. } => self.handle_key_input(key),
        }
    }

    /// Applies a reloaded list after a successful operation: on failure the
    /// status says so; otherwise the list is replaced, the selection restored,
    /// and a refresh started when the policy asks for one. Rows loaded from the
    /// cache keep their unvalidated flags.
    pub fn apply_reload(
        &mut self,
        loaded: Result<Vec<WorktreeInfo>, String>,
        selected_branch: Option<String>,
        then: PostSuccessAction,
    ) -> (e: Effect)
        ensures
            loaded is Err ==> e is Nothing && match loaded {
                Err(msg) => refused(*old(self), *final(self), "Reload failed: "@ + msg@),
                _ => true,
            },
            match loaded {
                Ok(new_items) => reload_applied(*old(self), *final(self), e, new_items@, selected_branch, then),
                Err(_) => true,
            },
    {
        match loaded {
            Err(msg) => {
                let mut s = String::from_str("Reload failed: ");
                s.append(msg.as_str());
                self.status = s;
                Effect::Nothing
            },
            Ok(new_items) => {
                self.reload_items(new_items, selected_branch);
                match then {
                    PostSuccessAction::ReloadOnly => Effect::Nothing,
                    PostSuccessAction::ReloadAndRefresh => {
                        if self.start_refresh(false) {
                            Effect::StartRefresh
                        } else {
                            Effect::Nothing
                        }
                    },
                    PostSuccessAction::NoAction => Effect::Nothing,
                }
            },
        }
    }
}


/// The busy indicator's frame for a tick count.
pub open spec fn spinner_frame(i: nat) -> char {
    let k = i % 4;
    if k == 0 { '|' } else if k == 1 { '/' } else if k == 2 { '-' } else { '\\' }
}

impl App {
    /// The status line: the running operation with the busy indicator, else
    /// a running refresh, else the last status.
    pub fn status_line(&self) -> (r: String)
        ensures
            r@ == match self.spinner_message {
                Some(m) => m@ + seq![' ', spinner_frame(self.spinner_index as nat)],
                None => if self.refresh_running {
                    "Refreshing"@ + seq![' ', spinner_frame(self.spinner_index as nat)]
                } else {
                    self.status@
                },
            },
    {
        let k = self.spinner_index % 4;
        let c = if k == 0 { '|' } else if k == 1 { '/' } else if k == 2 { '-' } else { '\\' };
        match &self.spinner_message {
            Some(m) => {
                let mut r = m.clone();
                push_char(&mut r, ' ');
                push_char(&mut r, c);
                assert(r@ =~= m@ + seq![' ', c]);
                r
            },
            None => {
                if self.refresh_running {
                    let mut r = String::from_str("Refreshing");
                    push_char(&mut r, ' ');
                    push_char(&mut r, c);
                    assert(r@ =~= "Refreshing"@ + seq![' ', c]);
                    r
                } else {
                    self.status.clone()
                }
            },
        }
    }
}

/// `c` runs `git` in `cwd` with the arguments `args`.
pub open spec fn command_is(c: GitCommand, cwd: Seq<char>, args: Seq<Seq<char>>) -> bool {
    c.cwd@ == cwd && texts(c.args@) == args
}

/// `cmds` is the sequence of commands that performs `op` in the repository
/// at `root`; for a new worktree, `remote_exists` tells whether origin has
/// the branch already. Hooks after a creation are run separately.
pub open spec fn performs(cmds: Seq<GitCommand>, root: Seq<char>, op: Operation, remote_exists: bool) -> bool {
    match op {
        Operation::Delete { path, ref_name } => cmds.len() == 2
            && command_is(cmds[0], root, seq!["worktree"@, "remove"@, "--force"@, path@])
            && command_is(cmds[1], root, seq!["branch"@, "-D"@, ref_name@]),
        Operation::Rename { old_ref_name, new_branch, old_path, new_path } => cmds.len() == 2
            && command_is(cmds[0], root, seq!["branch"@, "-m"@, old_ref_name@, new_branch@])
            && command_is(cmds[1], root, seq!["worktree"@, "move"@, old_path@, new_path@]),
        Operation::Create { new_branch, base_branch, target, pull_before_create } => {
            let k: int = if pull_before_create is Some { 1 } else { 0 };
            &&& match pull_before_create {
                Some(p) => command_is(cmds[0], p@, seq!["pull"@]),
                None => true,
            }
            &&& if remote_exists {
                cmds.len() == k + 3
                && command_is(cmds[k], root, seq!["fetch"@, "origin"@, new_branch@ + ":"@ + new_branch@])
                && command_is(cmds[k + 1], root, seq!["branch"@, "--set-upstream-to"@, "origin/"@ + new_branch@, new_branch@])
                && command_is(cmds[k + 2], root, seq!["worktree"@, "add"@, target@, new_branch@])
            } else {
                cmds.len() == k + 1
                && command_is(cmds[k], root, seq!["worktree"@, "add"@, "-b"@, new_branch@, target@, base_branch@])
            }
        },
        Operation::Pull { path } => cmds.len() == 1 && command_is(cmds[0], path@, seq!["pull"@]),
        Operation::Push { path, ref_name, has_upstream } => cmds.len() == 1 && if has_upstream {
            command_is(cmds[0], path@, seq!["push"@])
        } else {
            command_is(cmds[0], path@, seq!["push"@, "-u"@, "origin"@, ref_name@])
        },
    }
}

/// The commands that perform an operation, to run in order until one fails.
pub fn operation_commands(repo_root: &str, op: &Operation, remote_exists: bool) -> (r: Vec<GitCommand>)
    ensures
        performs(r@, repo_root@, *op, remote_exists),
{
    let mut r: Vec<GitCommand> = Vec::new();
    match op {
        Operation::Delete { path, ref_name } => {
            r.push(worktree_remove(repo_root, path.as_str()));
            r.push(branch_delete(repo_root, ref_name.as_str()));
        },
        Operation::Rename { old_ref_name, new_branch, old_path, new_path } => {
            r.push(branch_rename(repo_root, old_ref_name.as_str(), new_branch.as_str()));
            r.push(worktree_move(repo_root, old_path.as_str(), new_path.as_str()));
        },
        Operation::Create { new_branch, base_branch, target, pull_before_create } => {
            if let Some(p) = pull_before_create {
                r.push(pull(p.as_str()));
            }
            if remote_exists {
                r.push(fetch_branch(repo_root, new_branch.as_str()));
                let mut upstream = String::from_str("origin/");
                upstream.append(new_branch.as_str());
                r.push(branch_set_upstream(repo_root, new_branch.as_str(), upstream.as_str()));
                r.push(worktree_add(repo_root, target.as_str(), new_branch.as_str(), None));
            } else {
                r.push(worktree_add(repo_root, target.as_str(), new_branch.as_str(), Some(base_branch.as_str())));
            }
        },
        Operation::Pull { path } => {
            r.push(pull(path.as_str()));
        },
        Operation::Push { path, ref_name, has_upstream } => {
            if *has_upstream {
                r.push(push(path.as_str()));
            } else {
                r.push(push_set_upstream(path.as_str(), ref_name.as_str()));
            }
        },
    }
    r
}

} // verus!
