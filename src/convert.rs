//! The layout converter: turns an ordinary repository into a bare root with
//! one worktree per branch. Every mutation is recorded in a transaction log
//! as it happens, so that a failure at any step can be undone in strict
//! reverse order.
use vstd::prelude::*;
use crate::health::contains_text;
use crate::text::{child_path, concat3, decimal, decimal_string, insert_sorted_unique, join_path,
    strictly_sorted, texts};

verus! {

/// The number of backup directory names tried before giving up.
pub const BACKUP_ATTEMPTS: u32 = 50;

/// An entry of the repository root moved aside into the backup directory.
pub struct StagedEntry {
    pub original: String,
    pub backup: String,
}

/// The log of one conversion attempt.
pub struct ConversionTx {
    pub repo_root: String,
    pub backup_dir: String,
    pub staged_entries: Vec<StagedEntry>,
    pub created_worktrees: Vec<String>,
    pub bare_changed: bool,
}

/// One step that undoes part of a conversion.
pub enum RollbackStep {
    /// Remove a worktree that the conversion created.
    RemoveWorktree { path: String },
    /// Set the repository back to non-bare.
    RestoreNonBare,
    /// Move a staged entry back from the backup directory.
    Restore { backup: String, original: String },
    /// Remove the backup directory.
    RemoveBackupDir { path: String },
}

/// The entries the staging step leaves in place: those given, the
/// repository's own directory and the tool's settings directory.
pub fn preserved_with_git(keep: Vec<String>) -> (r: Vec<String>)
    ensures
        strictly_sorted(texts(r@)),
        forall|x: Seq<char>|
            texts(r@).contains(x) <==> (texts(keep@).contains(x) || x == ".git"@ || x == ".gw"@),
{
    let r0: Vec<String> = Vec::new();
    let mut r = r0;
    insert_sorted_unique(&mut r, String::from_str(".git"));
    insert_sorted_unique(&mut r, String::from_str(".gw"));
    let mut i: usize = 0;
    while i < keep.len()
        invariant
            i <= keep@.len(),
            strictly_sorted(texts(r@)),
            forall|x: Seq<char>|
                texts(r@).contains(x) <==> (texts(keep@).subrange(0, i as int).contains(x) || x
                    == ".git"@ || x == ".gw"@),
        decreases keep@.len() - i,
    {
        insert_sorted_unique(&mut r, keep[i].clone());
        proof {
            let pre = texts(keep@).subrange(0, i as int);
            let post = texts(keep@).subrange(0, i + 1);
            assert(post =~= pre.push(keep@[i as int]@));
            assert forall|x: Seq<char>| post.contains(x) <==> (pre.contains(x) || x == keep@[i as int]@) by {
                if post.contains(x) {
                    let k = choose|k: int| 0 <= k < post.len() && post[k] == x;
                    if k < i {
                        assert(pre[k] == x);
                    }
                }
                if pre.contains(x) {
                    let k = choose|k: int| 0 <= k < pre.len() && pre[k] == x;
                    assert(post[k] == x);
                }
                if x == keep@[i as int]@ {
                    assert(post[i as int] == x);
                }
            }
        }
        i = i + 1;
    }
    assert(texts(keep@).subrange(0, i as int) =~= texts(keep@));
    r
}

/// The name of the backup directory tried at `attempt` by process `pid`.
pub open spec fn backup_name(pid: nat, attempt: nat) -> Seq<char> {
    ".gw-init-backup-"@ + decimal(pid) + "-"@ + decimal(attempt)
}

/// The backup directory tried at `attempt` by process `pid`, inside the root.
pub fn backup_dir_candidate(repo_root: &str, pid: u32, attempt: u32) -> (r: String)
    ensures
        r@ == child_path(repo_root@, backup_name(pid as nat, attempt as nat)),
{
    let p = decimal_string(pid as u64);
    let a = decimal_string(attempt as u64);
    let name = concat3(concat3(".gw-init-backup-", p.as_str(), "-").as_str(), a.as_str(), "");
    proof { reveal_strlit(""); }
    assert(name@ =~= backup_name(pid as nat, attempt as nat));
    join_path(repo_root, name.as_str())
}

/// The message for a target path of a branch that already exists.
pub open spec fn target_taken_message(root: Seq<char>, b: Seq<char>) -> Seq<char> {
    "gw init: cannot create worktree for "@ + b + "; target path already exists: "@ + child_path(root, b)
}

/// Refuses the conversion if the target path of a branch to create is taken
/// (`target_exists[i]` tells it for `missing_branches[i]`); the first such
/// branch is named.
pub fn preflight_worktree_targets(
    repo_root: &str,
    missing_branches: &Vec<String>,
    target_exists: &Vec<bool>,
) -> (r: Result<(), String>)
    requires
        target_exists@.len() == missing_branches@.len(),
    ensures
        r is Ok <==> forall|i: int| 0 <= i < target_exists@.len() ==> !#[trigger] target_exists@[i],
        r matches Err(e) ==> exists|i: int|
            0 <= i < target_exists@.len() && target_exists@[i] && (forall|j: int|
                0 <= j < i ==> !#[trigger] target_exists@[j]) && e@ == target_taken_message(
                repo_root@,
                #[trigger] missing_branches@[i]@,
            ),
{
    let mut i: usize = 0;
    while i < missing_branches.len()
        invariant
            target_exists@.len() == missing_branches@.len(),
            i <= missing_branches@.len(),
            forall|j: int| 0 <= j < i ==> !#[trigger] target_exists@[j],
        decreases missing_branches@.len() - i,
    {
        if target_exists[i] {
            let b = &missing_branches[i];
            let target = join_path(repo_root, b.as_str());
            let mut e = concat3("gw init: cannot create worktree for ", b.as_str(),
                "; target path already exists: ");
            e.append(target.as_str());
            return Err(e);
        }
        i = i + 1;
    }
    Ok(())
}

/// The entries to move aside, in listing order: every entry of the root
/// that is neither preserved nor the backup directory itself.
pub fn stage_plan(
    repo_root: &str,
    entries: &Vec<String>,
    keep: &Vec<String>,
    backup_dir: &str,
    backup_entry: &str,
) -> (r: Vec<StagedEntry>)
    ensures
        r@.len() == entries@.filter(
            |e: String| !texts(keep@).contains(e@) && e@ != backup_entry@,
        ).len(),
        forall|k: int|
            0 <= k < r@.len() ==> {
                let name = entries@.filter(
                    |e: String| !texts(keep@).contains(e@) && e@ != backup_entry@,
                )[k]@;
                &&& (#[trigger] r@[k]).original@ == child_path(repo_root@, name)
                &&& r@[k].backup@ == child_path(backup_dir@, name)
            },
{
    let ghost pred = |e: String| !texts(keep@).contains(e@) && e@ != backup_entry@;
    let mut r: Vec<StagedEntry> = Vec::new();
    let mut i: usize = 0;
    while i < entries.len()
        invariant
            i <= entries@.len(),
            pred == (|e: String| !texts(keep@).contains(e@) && e@ != backup_entry@),
            r@.len() == entries@.take(i as int).filter(pred).len(),
            forall|k: int|
                0 <= k < r@.len() ==> {
                    let name = entries@.take(i as int).filter(pred)[k]@;
                    &&& (#[trigger] r@[k]).original@ == child_path(repo_root@, name)
                    &&& r@[k].backup@ == child_path(backup_dir@, name)
                },
        decreases entries@.len() - i,
    {
        let name = &entries[i];
        assert(entries@.take(i + 1).drop_last() =~= entries@.take(i as int));
        assert(entries@.take(i + 1).last() == *name);
        reveal(Seq::filter);
        let kept = contains_text(keep, name.as_str());
        let is_backup = crate::text::compare_text(name.as_str(), backup_entry) == 0;
        if !kept && !is_backup {
            let original = join_path(repo_root, name.as_str());
            let backup = join_path(backup_dir, name.as_str());
            r.push(StagedEntry { original, backup });
        }
        i = i + 1;
    }
    assert(entries@.take(i as int) =~= entries@);
    r
}

/// The message for a branch whose worktree did not show up after creation.
pub open spec fn postcheck_message(b: Seq<char>) -> Seq<char> {
    "gw init: post-check failed; worktree for branch "@ + b + " was not registered"@
}

/// Confirms that every branch that was to gain a worktree now has one
/// (`mapped` lists the branches that have one); the first that lacks one is named.
pub fn postcheck_worktrees(missing_branches: &Vec<String>, mapped: &Vec<String>) -> (r: Result<(), String>)
    ensures
        r is Ok <==> forall|i: int|
            0 <= i < missing_branches@.len() ==> texts(mapped@).contains(
                #[trigger] missing_branches@[i]@,
            ),
        r matches Err(e) ==> exists|i: int|
            0 <= i < missing_branches@.len() && !texts(mapped@).contains(
                #[trigger] missing_branches@[i]@,
            ) && e@ == postcheck_message(missing_branches@[i]@),
{
    let mut i: usize = 0;
    while i < missing_branches.len()
        invariant
            i <= missing_branches@.len(),
            forall|j: int| 0 <= j < i ==> texts(mapped@).contains(#[trigger] missing_branches@[j]@),
        decreases missing_branches@.len() - i,
    {
        let b = &missing_branches[i];
        if !contains_text(mapped, b.as_str()) {
            return Err(concat3("gw init: post-check failed; worktree for branch ", b.as_str(),
                " was not registered"));
        }
        i = i + 1;
    }
    Ok(())
}

/// The rollback of a log, in strict reverse order: the created worktrees
/// from last to first, the bare flag if it was set, the staged entries from
/// last to first, and finally the backup directory.
pub open spec fn is_rollback_plan(steps: Seq<RollbackStep>, tx: ConversionTx) -> bool {
    let nc = tx.created_worktrees@.len();
    let nb: int = if tx.bare_changed { 1 } else { 0 };
    let ns = tx.staged_entries@.len();
    &&& steps.len() == nc + nb + ns + 1
    &&& forall|k: int|
        0 <= k < nc ==> (#[trigger] steps[k]) == (RollbackStep::RemoveWorktree {
            path: tx.created_worktrees@[nc - 1 - k],
        })
    &&& tx.bare_changed ==> steps[nc as int] == RollbackStep::RestoreNonBare
    &&& forall|j: int|
        nc + nb <= j < nc + nb + ns ==> (#[trigger] steps[j]) == (RollbackStep::Restore {
            backup: tx.staged_entries@[nc + nb + ns - 1 - j].backup,
            original: tx.staged_entries@[nc + nb + ns - 1 - j].original,
        })
    &&& steps[nc + nb + ns] == (RollbackStep::RemoveBackupDir { path: tx.backup_dir })
}

impl ConversionTx {
    /// A fresh log for a conversion of `repo_root` that backs up into `backup_dir`.
    pub fn new(repo_root: String, backup_dir: String) -> (r: ConversionTx)
        ensures
            r.repo_root == repo_root,
            r.backup_dir == backup_dir,
            r.staged_entries@.len() == 0,
            r.created_worktrees@.len() == 0,
            !r.bare_changed,
    {
        ConversionTx {
            repo_root,
            backup_dir,
            staged_entries: Vec::new(),
            created_worktrees: Vec::new(),
            bare_changed: false,
        }
    }

    /// Records that an entry was moved aside.
    pub fn record_staged(&mut self, entry: StagedEntry)
        ensures
            final(self).staged_entries@ == old(self).staged_entries@.push(entry),
            final(self).created_worktrees == old(self).created_worktrees,
            final(self).bare_changed == old(self).bare_changed,
            final(self).repo_root == old(self).repo_root,
            final(self).backup_dir == old(self).backup_dir,
    {
        self.staged_entries.push(entry);
    }

    /// Records that the repository was set to bare.
    pub fn record_bare(&mut self)
        ensures
            *final(self) == (ConversionTx { bare_changed: true, ..*old(self) }),
    {
        self.bare_changed = true;
    }

    /// Records that a worktree was created at `path`.
    pub fn record_worktree(&mut self, path: String)
        ensures
            final(self).created_worktrees@ == old(self).created_worktrees@.push(path),
            final(self).staged_entries == old(self).staged_entries,
            final(self).bare_changed == old(self).bare_changed,
            final(self).repo_root == old(self).repo_root,
            final(self).backup_dir == old(self).backup_dir,
    {
        self.created_worktrees.push(path);
    }

    /// The steps that undo everything this log records.
    pub fn rollback_plan(&self) -> (r: Vec<RollbackStep>)
        ensures
            is_rollback_plan(r@, *self),
    {
        let mut r: Vec<RollbackStep> = Vec::new();
        let nc = self.created_worktrees.len();
        let mut k: usize = 0;
        while k < nc
            invariant
                nc == self.created_worktrees@.len(),
                k <= nc,
                r@.len() == k,
                forall|j: int|
                    0 <= j < k ==> (#[trigger] r@[j]) == (RollbackStep::RemoveWorktree {
                        path: self.created_worktrees@[nc - 1 - j],
                    }),
            decreases nc - k,
        {
            r.push(RollbackStep::RemoveWorktree { path: self.created_worktrees[nc - 1 - k].clone() });
            k = k + 1;
        }
        if self.bare_changed {
            r.push(RollbackStep::RestoreNonBare);
        }
        let ghost nb: int = if self.bare_changed { 1 } else { 0 };
        let ns = self.staged_entries.len();
        let mut k: usize = 0;
        while k < ns
            invariant
                nc == self.created_worktrees@.len(),
                ns == self.staged_entries@.len(),
                nb == if self.bare_changed { 1int } else { 0int },
                k <= ns,
                r@.len() == nc + nb + k,
                forall|j: int|
                    0 <= j < nc ==> (#[trigger] r@[j]) == (RollbackStep::RemoveWorktree {
                        path: self.created_worktrees@[nc - 1 - j],
                    }),
                self.bare_changed ==> r@[nc as int] == RollbackStep::RestoreNonBare,
                forall|j: int|
                    nc + nb <= j < nc + nb + k ==> (#[trigger] r@[j]) == (RollbackStep::Restore {
                        backup: self.staged_entries@[nc + nb + ns - 1 - j].backup,
                        original: self.staged_entries@[nc + nb + ns - 1 - j].original,
                    }),
            decreases ns - k,
        {
            let e = &self.staged_entries[ns - 1 - k];
            r.push(RollbackStep::Restore { backup: e.backup.clone(), original: e.original.clone() });
            k = k + 1;
        }
        r.push(RollbackStep::RemoveBackupDir { path: self.backup_dir.clone() });
        r
    }
}

/// Joins lines with a newline between each two.
pub open spec fn joined_lines(v: Seq<Seq<char>>) -> Seq<char>
    decreases v.len(),
{
    if v.len() == 0 {
        Seq::empty()
    } else if v.len() == 1 {
        v[0]
    } else {
        joined_lines(v.drop_last()) + "\n"@ + v.last()
    }
}

/// The error of a failed conversion: the original error alone when the
/// rollback went through, else followed by every rollback step that failed.
pub fn rollback_report(error: &str, rollback_errors: &Vec<String>) -> (r: String)
    ensures
        r@ == if rollback_errors@.len() == 0 {
            error@
        } else {
            error@ + "\ngw init: rollback encountered errors:\n"@ + joined_lines(texts(rollback_errors@))
        },
{
    let mut r = String::from_str(error);
    if rollback_errors.len() == 0 {
        return r;
    }
    r.append("\ngw init: rollback encountered errors:\n");
    let ghost head = r@;
    let mut i: usize = 0;
    while i < rollback_errors.len()
        invariant
            i <= rollback_errors@.len(),
            rollback_errors@.len() > 0,
            r@ == head + joined_lines(texts(rollback_errors@).take(i as int)),
        decreases rollback_errors@.len() - i,
    {
        assert(texts(rollback_errors@).take(i + 1).drop_last() =~= texts(rollback_errors@).take(i as int));
        if i > 0 {
            r.append("\n");
        }
        r.append(rollback_errors[i].as_str());
        proof {
            if i == 0 {
                assert(texts(rollback_errors@).take(1) =~= seq![rollback_errors@[0]@]);
            }
        }
        assert(r@ =~= head + joined_lines(texts(rollback_errors@).take(i + 1)));
        i = i + 1;
    }
    assert(texts(rollback_errors@).take(i as int) =~= texts(rollback_errors@));
    r
}


/// The part of the file system a conversion touches: the names directly
/// under the repository root, whether the repository is bare, and the names
/// inside the backup directory.
pub struct FsModel {
    pub entries: Set<Seq<char>>,
    pub bare: bool,
    pub backup_entries: Set<Seq<char>>,
}

/// The names `n` whose path under `dir` is `path`.
pub open spec fn names_at(dir: Seq<char>, path: Seq<char>) -> Set<Seq<char>> {
    Set::new(|n: Seq<char>| child_path(dir, n) == path)
}

/// What one rollback step does to the file system, for a root `root` whose
/// backup directory is `backup_dir`.
pub open spec fn undo_step(s: FsModel, root: Seq<char>, backup_dir: Seq<char>, step: RollbackStep) -> FsModel {
    match step {
        RollbackStep::RemoveWorktree { path } => FsModel {
            entries: s.entries.difference(names_at(root, path@)),
            ..s
        },
        RollbackStep::RestoreNonBare => FsModel { bare: false, ..s },
        RollbackStep::Restore { backup, original } => FsModel {
            entries: s.entries.union(names_at(root, original@)),
            backup_entries: s.backup_entries.difference(names_at(backup_dir, backup@)),
            ..s
        },
        RollbackStep::RemoveBackupDir { path } => FsModel {
            entries: s.entries.difference(names_at(root, path@)),
            backup_entries: Set::empty(),
            ..s
        },
    }
}

/// What a sequence of rollback steps does, in order.
pub open spec fn undo_all(s: FsModel, root: Seq<char>, backup_dir: Seq<char>, steps: Seq<RollbackStep>) -> FsModel
    decreases steps.len(),
{
    if steps.len() == 0 {
        s
    } else {
        undo_all(undo_step(s, root, backup_dir, steps[0]), root, backup_dir, steps.drop_first())
    }
}

/// The file system part way through a conversion that started from
/// `entries`, not bare: the backup directory `backup` was created, the names
/// `staged` were moved into it, the bare flag was set if `bare_changed`, and
/// worktrees were created under the names `created`.
pub open spec fn converting(
    entries: Set<Seq<char>>,
    backup: Seq<char>,
    staged: Seq<Seq<char>>,
    created: Seq<Seq<char>>,
    bare_changed: bool,
) -> FsModel {
    FsModel {
        entries: entries.insert(backup).difference(staged.to_set()).union(created.to_set()),
        bare: bare_changed,
        backup_entries: staged.to_set(),
    }
}

/// `s` from last to first.
pub open spec fn reversed(s: Seq<Seq<char>>) -> Seq<Seq<char>> {
    Seq::new(s.len(), |k: int| s[s.len() - 1 - k])
}

proof fn lemma_to_set_first(names: Seq<Seq<char>>)
    requires
        names.len() > 0,
    ensures
        names.to_set() == names.drop_first().to_set().insert(names[0]),
{
    assert forall|x: Seq<char>| names.to_set().contains(x) <==> names.drop_first().to_set().insert(names[0]).contains(x) by {
        if names.contains(x) {
            let k = choose|k: int| 0 <= k < names.len() && names[k] == x;
            if k > 0 {
                assert(names.drop_first()[k - 1] == x);
            }
        }
        if names.drop_first().contains(x) {
            let k = choose|k: int| 0 <= k < names.drop_first().len() && names.drop_first()[k] == x;
            assert(names[k + 1] == x);
        }
        if x == names[0] {
            assert(names.contains(x));
        }
    }
    assert(names.to_set() =~= names.drop_first().to_set().insert(names[0]));
}

proof fn lemma_reversed_to_set(s: Seq<Seq<char>>)
    ensures
        reversed(s).to_set() == s.to_set(),
{
    let r = reversed(s);
    assert forall|x: Seq<char>| r.to_set().contains(x) <==> s.to_set().contains(x) by {
        if r.contains(x) {
            let k = choose|k: int| 0 <= k < r.len() && r[k] == x;
            assert(s[s.len() - 1 - k] == x);
        }
        if s.contains(x) {
            let k = choose|k: int| 0 <= k < s.len() && s[k] == x;
            assert(r[s.len() - 1 - k] == x);
        }
    }
    assert(r.to_set() =~= s.to_set());
}

proof fn lemma_names_at_child(dir: Seq<char>, n: Seq<char>)
    ensures
        names_at(dir, child_path(dir, n)) == set![n],
{
    assert forall|m: Seq<char>| names_at(dir, child_path(dir, n)).contains(m) <==> m == n by {
        if child_path(dir, m) == child_path(dir, n) {
            assert(m =~= child_path(dir, m).subrange((dir.len() + 1) as int, child_path(dir, m).len() as int));
            assert(n =~= child_path(dir, n).subrange((dir.len() + 1) as int, child_path(dir, n).len() as int));
        }
    }
    assert(names_at(dir, child_path(dir, n)) =~= set![n]);
}

proof fn lemma_undo_append(s: FsModel, root: Seq<char>, bdir: Seq<char>, a: Seq<RollbackStep>, b: Seq<RollbackStep>)
    ensures
        undo_all(s, root, bdir, a + b) == undo_all(undo_all(s, root, bdir, a), root, bdir, b),
    decreases a.len(),
{
    if a.len() == 0 {
        assert(a + b =~= b);
    } else {
        assert((a + b).drop_first() =~= a.drop_first() + b);
        lemma_undo_append(undo_step(s, root, bdir, a[0]), root, bdir, a.drop_first(), b);
    }
}

proof fn lemma_undo_removals(s: FsModel, root: Seq<char>, bdir: Seq<char>, steps: Seq<RollbackStep>, names: Seq<Seq<char>>)
    requires
        steps.len() == names.len(),
        forall|k: int| 0 <= k < steps.len() ==> match #[trigger] steps[k] {
            RollbackStep::RemoveWorktree { path } => path@ == child_path(root, names[k]),
            _ => false,
        },
    ensures
        undo_all(s, root, bdir, steps) == (FsModel { entries: s.entries.difference(names.to_set()), ..s }),
    decreases steps.len(),
{
    if steps.len() == 0 {
        assert(s.entries.difference(names.to_set()) =~= s.entries);
    } else {
        lemma_names_at_child(root, names[0]);
        let s1 = undo_step(s, root, bdir, steps[0]);
        assert(s1.entries == s.entries.difference(set![names[0]]));
        assert forall|k: int| 0 <= k < steps.drop_first().len() implies match #[trigger] steps.drop_first()[k] {
            RollbackStep::RemoveWorktree { path } => path@ == child_path(root, names.drop_first()[k]),
            _ => false,
        } by {
            assert(steps.drop_first()[k] == steps[k + 1]);
        }
        lemma_undo_removals(s1, root, bdir, steps.drop_first(), names.drop_first());
        lemma_to_set_first(names);
        assert(s1.entries.difference(names.drop_first().to_set()) =~= s.entries.difference(names.to_set()));
    }
}

proof fn lemma_undo_restores(s: FsModel, root: Seq<char>, bdir: Seq<char>, steps: Seq<RollbackStep>, names: Seq<Seq<char>>)
    requires
        steps.len() == names.len(),
        forall|k: int| 0 <= k < steps.len() ==> match #[trigger] steps[k] {
            RollbackStep::Restore { backup, original } => original@ == child_path(root, names[k])
                && backup@ == child_path(bdir, names[k]),
            _ => false,
        },
    ensures
        undo_all(s, root, bdir, steps) == (FsModel {
            entries: s.entries.union(names.to_set()),
            backup_entries: s.backup_entries.difference(names.to_set()),
            ..s
        }),
    decreases steps.len(),
{
    if steps.len() == 0 {
        assert(s.entries.union(names.to_set()) =~= s.entries);
        assert(s.backup_entries.difference(names.to_set()) =~= s.backup_entries);
    } else {
        lemma_names_at_child(root, names[0]);
        lemma_names_at_child(bdir, names[0]);
        let s1 = undo_step(s, root, bdir, steps[0]);
        assert forall|k: int| 0 <= k < steps.drop_first().len() implies match #[trigger] steps.drop_first()[k] {
            RollbackStep::Restore { backup, original } => original@ == child_path(root, names.drop_first()[k])
                && backup@ == child_path(bdir, names.drop_first()[k]),
            _ => false,
        } by {
            assert(steps.drop_first()[k] == steps[k + 1]);
        }
        lemma_undo_restores(s1, root, bdir, steps.drop_first(), names.drop_first());
        lemma_to_set_first(names);
        assert(s1.entries.union(names.drop_first().to_set()) =~= s.entries.union(names.to_set()));
        assert(s1.backup_entries.difference(names.drop_first().to_set()) =~= s.backup_entries.difference(names.to_set()));
    }
}

/// Rollback is complete: whatever prefix of a conversion ran (entries moved
/// aside, the bare flag set, worktrees created), running the rollback plan of
/// its log brings back exactly the original entries of the root, the
/// non-bare flag, and no backup directory. Worktrees are modelled as entries
/// directly under the root, so the branches created have one-component names.
pub proof fn lemma_rollback_restores(
    entries: Set<Seq<char>>,
    root: Seq<char>,
    backup: Seq<char>,
    staged: Seq<Seq<char>>,
    created: Seq<Seq<char>>,
    tx: ConversionTx,
    plan: Seq<RollbackStep>,
)
    requires
        !entries.contains(backup),
        forall|k: int| 0 <= k < staged.len() ==> entries.contains(#[trigger] staged[k]),
        forall|k: int| 0 <= k < created.len() ==> !entries.contains(#[trigger] created[k]) && created[k] != backup,
        tx.backup_dir@ == child_path(root, backup),
        tx.staged_entries@.len() == staged.len(),
        forall|k: int| 0 <= k < staged.len() ==> (#[trigger] tx.staged_entries@[k]).original@ == child_path(root, staged[k])
            && tx.staged_entries@[k].backup@ == child_path(tx.backup_dir@, staged[k]),
        tx.created_worktrees@.len() == created.len(),
        forall|k: int| 0 <= k < created.len() ==> (#[trigger] tx.created_worktrees@[k])@ == child_path(root, created[k]),
        is_rollback_plan(plan, tx),
    ensures
        undo_all(converting(entries, backup, staged, created, tx.bare_changed), root, tx.backup_dir@, plan)
            == (FsModel { entries: entries, bare: false, backup_entries: Set::empty() }),
{
    let bdir = tx.backup_dir@;
    let nc = tx.created_worktrees@.len() as int;
    let nb: int = if tx.bare_changed { 1 } else { 0 };
    let ns = tx.staged_entries@.len() as int;
    let removals = plan.subrange(0, nc);
    let flag = plan.subrange(nc, nc + nb);
    let restores = plan.subrange(nc + nb, nc + nb + ns);
    let last = plan.subrange(nc + nb + ns, plan.len() as int);
    assert(plan =~= removals + flag + restores + last);
    let s0 = converting(entries, backup, staged, created, tx.bare_changed);
    lemma_undo_append(s0, root, bdir, removals + flag + restores, last);
    lemma_undo_append(s0, root, bdir, removals + flag, restores);
    lemma_undo_append(s0, root, bdir, removals, flag);
    let rev_created = reversed(created);
    lemma_undo_removals(s0, root, bdir, removals, rev_created);
    lemma_reversed_to_set(created);
    let s1 = undo_all(s0, root, bdir, removals);
    let s2 = undo_all(s1, root, bdir, flag);
    if tx.bare_changed {
        assert(flag.drop_first().len() == 0);
        assert(flag[0] == plan[nc]);
        assert(s2 == undo_all(undo_step(s1, root, bdir, flag[0]), root, bdir, flag.drop_first()));
    } else {
        assert(flag.len() == 0);
        assert(s2 == s1);
    }
    assert(s2 == (FsModel { bare: false, ..s1 }));
    let rev_staged = reversed(staged);
    assert forall|k: int| 0 <= k < restores.len() implies match #[trigger] restores[k] {
        RollbackStep::Restore { backup, original } => original@ == child_path(root, rev_staged[k])
            && backup@ == child_path(bdir, rev_staged[k]),
        _ => false,
    } by {
        assert(restores[k] == plan[nc + nb + k]);
        assert(plan[nc + nb + k] == (RollbackStep::Restore {
            backup: tx.staged_entries@[nc + nb + ns - 1 - (nc + nb + k)].backup,
            original: tx.staged_entries@[nc + nb + ns - 1 - (nc + nb + k)].original,
        }));
        assert(tx.staged_entries@[ns - 1 - k].original@ == child_path(root, staged[ns - 1 - k]));
    }
    lemma_undo_restores(s2, root, bdir, restores, rev_staged);
    lemma_reversed_to_set(staged);
    let s3 = undo_all(s2, root, bdir, restores);
    assert(last.len() == 1 && last[0] == plan[nc + nb + ns]);
    assert(last.drop_first().len() == 0);
    lemma_names_at_child(root, backup);
    let s4 = undo_all(s3, root, bdir, last);
    assert(s4 == undo_all(undo_step(s3, root, bdir, last[0]), root, bdir, last.drop_first()));
    assert(s4 == undo_step(s3, root, bdir, last[0]));
    assert(s4.entries == s3.entries.difference(set![backup]));
    assert(s3.entries == s2.entries.union(staged.to_set()));
    assert(s2.entries == s0.entries.difference(created.to_set()));
    assert(s4.entries =~= entries) by {
        assert forall|x: Seq<char>| s4.entries.contains(x) <==> entries.contains(x) by {
            if staged.to_set().contains(x) {
                let k = choose|k: int| 0 <= k < staged.len() && staged[k] == x;
                assert(entries.contains(staged[k]));
            }
            if created.to_set().contains(x) {
                let k = choose|k: int| 0 <= k < created.len() && created[k] == x;
                assert(!entries.contains(created[k]));
            }
        }
    }
    assert(s4.backup_entries =~= Set::<Seq<char>>::empty());
}


/// The branches that conversion gives a worktree: those without one, and,
/// when the root is not yet bare, also those checked out at the root itself
/// (`mapped` lists the branches that have a worktree, `at_root` those whose
/// worktree is the root).
pub open spec fn needs_worktree(b: Seq<char>, mapped: Seq<Seq<char>>, at_root: Seq<Seq<char>>, is_bare: bool) -> bool {
    !mapped.contains(b) || (!is_bare && at_root.contains(b))
}

/// The branches that conversion gives a worktree, in branch order.
pub fn init_missing_branches(
    branches: &Vec<String>,
    mapped: &Vec<String>,
    at_root: &Vec<String>,
    is_bare: bool,
) -> (r: Vec<String>)
    ensures
        texts(r@) == texts(branches@).filter(
            |b: Seq<char>| needs_worktree(b, texts(mapped@), texts(at_root@), is_bare),
        ),
{
    let ghost pred = |b: Seq<char>| needs_worktree(b, texts(mapped@), texts(at_root@), is_bare);
    let mut r: Vec<String> = Vec::new();
    let mut i: usize = 0;
    while i < branches.len()
        invariant
            i <= branches@.len(),
            pred == (|b: Seq<char>| needs_worktree(b, texts(mapped@), texts(at_root@), is_bare)),
            texts(r@) == texts(branches@).take(i as int).filter(pred),
        decreases branches@.len() - i,
    {
        let b = &branches[i];
        assert(texts(branches@).take(i + 1).drop_last() =~= texts(branches@).take(i as int));
        assert(texts(branches@).take(i + 1).last() == b@);
        reveal(Seq::filter);
        if !contains_text(mapped, b.as_str()) || (!is_bare && contains_text(at_root, b.as_str())) {
            let ghost r0 = r@;
            r.push(b.clone());
            assert(texts(r@) =~= texts(r0).push(b@));
        }
        i = i + 1;
    }
    assert(texts(branches@).take(i as int) =~= texts(branches@));
    r
}

/// The first `n` branches to create whose target path is taken by something
/// that is not their worktree, in order.
pub open spec fn conflicts_upto(
    missing: Seq<String>,
    mapped: Seq<Seq<char>>,
    target_exists: Seq<bool>,
    n: int,
) -> Seq<Seq<char>>
    decreases n,
{
    if n <= 0 {
        Seq::empty()
    } else {
        let r = conflicts_upto(missing, mapped, target_exists, n - 1);
        if target_exists[n - 1] && !mapped.contains(missing[n - 1]@) {
            r.push(missing[n - 1]@)
        } else {
            r
        }
    }
}

/// The branches to create whose target path is taken by something that is
/// not their worktree (`target_exists[i]` tells it for `missing[i]`), in order.
pub fn conflicting_branches(missing: &Vec<String>, mapped: &Vec<String>, target_exists: &Vec<bool>) -> (r: Vec<String>)
    requires
        target_exists@.len() == missing@.len(),
    ensures
        texts(r@) == conflicts_upto(missing@, texts(mapped@), target_exists@, missing@.len() as int),
{
    let mut r: Vec<String> = Vec::new();
    let mut i: usize = 0;
    while i < missing.len()
        invariant
            target_exists@.len() == missing@.len(),
            i <= missing@.len(),
            texts(r@) == conflicts_upto(missing@, texts(mapped@), target_exists@, i as int),
        decreases missing@.len() - i,
    {
        let b = &missing[i];
        if target_exists[i] && !contains_text(mapped, b.as_str()) {
            let ghost r0 = r@;
            r.push(b.clone());
            assert(texts(r@) =~= texts(r0).push(b@));
        }
        i = i + 1;
    }
    r
}

/// Joins texts with a comma and a space between each two.
pub open spec fn comma_joined(v: Seq<Seq<char>>) -> Seq<char>
    decreases v.len(),
{
    if v.len() == 0 {
        Seq::empty()
    } else if v.len() == 1 {
        v[0]
    } else {
        comma_joined(v.drop_last()) + ", "@ + v.last()
    }
}

/// The error that refuses a conversion whose target paths are taken.
pub fn conflict_message(conflicts: &Vec<String>) -> (r: String)
    ensures
        r@ == "gw init: cannot create worktrees; paths already exist: "@ + comma_joined(texts(conflicts@)),
{
    let mut r = String::from_str("gw init: cannot create worktrees; paths already exist: ");
    let ghost head = r@;
    let mut i: usize = 0;
    assert(texts(conflicts@).take(0) =~= Seq::<Seq<char>>::empty());
    while i < conflicts.len()
        invariant
            i <= conflicts@.len(),
            head == "gw init: cannot create worktrees; paths already exist: "@,
            r@ == head + comma_joined(texts(conflicts@).take(i as int)),
        decreases conflicts@.len() - i,
    {
        assert(texts(conflicts@).take(i + 1).drop_last() =~= texts(conflicts@).take(i as int));
        if i > 0 {
            r.append(", ");
        }
        r.append(conflicts[i].as_str());
        proof {
            if i == 0 {
                assert(texts(conflicts@).take(1) =~= seq![conflicts@[0]@]);
            }
        }
        assert(r@ =~= head + comma_joined(texts(conflicts@).take(i + 1)));
        i = i + 1;
    }
    assert(texts(conflicts@).take(i as int) =~= texts(conflicts@));
    r
}

} // verus!
