//! The records the library works on: worktrees as listed and as shown,
//! collaborator results, cached values and the health report.
use vstd::prelude::*;

verus! {

/// The marker that stands for a worktree without a branch.
pub open spec fn detached_marker() -> Seq<char> {
    "(detached)"@
}

/// A branch name that names no branch: empty or the detached marker.
pub open spec fn is_headless_name(b: Seq<char>) -> bool {
    b.len() == 0 || b == detached_marker()
}

/// Tells whether `branch` names no branch (empty or the detached marker).
pub fn is_headless_branch(branch: &str) -> (r: bool)
    ensures
        r == is_headless_name(branch@),
{
    branch.unicode_len() == 0 || crate::text::compare_text(branch, "(detached)") == 0
}

/// Copies an optional string.
pub fn copy_opt_string(o: &Option<String>) -> (r: Option<String>)
    ensures
        r == *o,
{
    match o {
        Some(s) => Some(s.clone()),
        None => None,
    }
}

/// One working tree as the repository lists it.
#[derive(Clone, Debug)]
pub struct ParsedWorktree {
    pub path: String,
    pub branch: String,
    pub head: String,
}

impl ParsedWorktree {
    /// A copy of the record.
    pub fn duplicate(&self) -> (r: Self)
        ensures
            r == *self,
    {
        ParsedWorktree { path: self.path.clone(), branch: self.branch.clone(), head: self.head.clone() }
    }
}

/// Commits by which one ref leads (`ahead`) and trails (`behind`) another.
#[derive(Clone, Copy, Debug)]
pub struct AheadBehind {
    pub ahead: i64,
    pub behind: i64,
}

/// Line counts of uncommitted changes, and whether there are any.
#[derive(Clone, Copy, Debug)]
pub struct DiffStat {
    pub additions: i64,
    pub deletions: i64,
    pub dirty: bool,
}

/// The pull request found for a branch.
#[derive(Clone, Debug)]
pub struct PullRequestInfo {
    pub number: i64,
    pub state: String,
    pub base: Option<String>,
    pub url: Option<String>,
}

/// The summary of a pull request's checks.
#[derive(Clone, Debug)]
pub struct ChecksInfo {
    pub passed: i64,
    pub total: i64,
    pub state: Option<String>,
}

/// What the cache store holds for one identity key.
#[derive(Clone, Debug)]
pub struct CachedWorktree {
    pub pr_number: Option<i64>,
    pub pr_state: Option<String>,
    pub pr_base: Option<String>,
    pub pr_url: Option<String>,
    pub checks_passed: Option<i64>,
    pub checks_total: Option<i64>,
    pub checks_state: Option<String>,
    pub additions: i64,
    pub deletions: i64,
    pub dirty: bool,
}

/// One row of the worktree list, with its four groups of refreshable data
/// and a validated flag for each group.
#[derive(Clone, Debug)]
pub struct WorktreeInfo {
    pub path: String,
    pub branch: String,
    pub head: String,
    pub ref_name: Option<String>,
    pub cache_key: String,
    pub last_commit_ts: i64,
    pub pull: i64,
    pub push: i64,
    pub pull_push_validated: bool,
    pub has_upstream: bool,
    pub behind: i64,
    pub ahead: i64,
    pub additions: i64,
    pub deletions: i64,
    pub dirty: bool,
    pub pr_number: Option<i64>,
    pub pr_state: Option<String>,
    pub pr_base: Option<String>,
    pub pr_url: Option<String>,
    pub pr_validated: bool,
    pub checks_passed: Option<i64>,
    pub checks_total: Option<i64>,
    pub checks_state: Option<String>,
    pub checks_validated: bool,
    pub changes_validated: bool,
}

impl WorktreeInfo {
    /// A worktree is detached when it has no branch ref.
    pub fn is_detached(&self) -> (r: bool)
        ensures
            r == self.ref_name.is_none(),
    {
        self.ref_name.is_none()
    }

    /// A copy of the row.
    pub fn duplicate(&self) -> (r: Self)
        ensures
            r == *self,
    {
        WorktreeInfo {
            path: self.path.clone(),
            branch: self.branch.clone(),
            head: self.head.clone(),
            ref_name: copy_opt_string(&self.ref_name),
            cache_key: self.cache_key.clone(),
            last_commit_ts: self.last_commit_ts,
            pull: self.pull,
            push: self.push,
            pull_push_validated: self.pull_push_validated,
            has_upstream: self.has_upstream,
            behind: self.behind,
            ahead: self.ahead,
            additions: self.additions,
            deletions: self.deletions,
            dirty: self.dirty,
            pr_number: self.pr_number,
            pr_state: copy_opt_string(&self.pr_state),
            pr_base: copy_opt_string(&self.pr_base),
            pr_url: copy_opt_string(&self.pr_url),
            pr_validated: self.pr_validated,
            checks_passed: self.checks_passed,
            checks_total: self.checks_total,
            checks_state: copy_opt_string(&self.checks_state),
            checks_validated: self.checks_validated,
            changes_validated: self.changes_validated,
        }
    }
}

/// The classification of drift between branches and worktrees.
#[derive(Clone, Debug)]
pub struct HealthReport {
    /// Branches that have no worktree.
    pub missing_worktrees: Vec<String>,
    /// Worktree paths that have no valid owning branch.
    pub orphaned_worktrees: Vec<String>,
    /// Reasons why an automatic repair cannot proceed.
    pub unrecoverable_reasons: Vec<String>,
}

impl HealthReport {
    /// Whether any of the three lists is non-empty.
    pub fn has_issues(&self) -> (r: bool)
        ensures
            r == (self.missing_worktrees@.len() > 0 || self.orphaned_worktrees@.len() > 0
                || self.unrecoverable_reasons@.len() > 0),
    {
        !self.missing_worktrees.is_empty() || !self.orphaned_worktrees.is_empty()
            || !self.unrecoverable_reasons.is_empty()
    }

    /// A report is recoverable when it lists no unrecoverable reason.
    pub fn is_recoverable(&self) -> (r: bool)
        ensures
            r == (self.unrecoverable_reasons@.len() == 0),
    {
        self.unrecoverable_reasons.is_empty()
    }
}

} // verus!
