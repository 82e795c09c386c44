//! The consistency checker: classifies drift between the branch list and the
//! registered worktrees into missing, orphaned and unrecoverable findings,
//! and plans the repair of a recoverable report.
use vstd::prelude::*;
use crate::models::{is_headless_branch, is_headless_name, HealthReport, ParsedWorktree};
use crate::text::{concat3, lemma_strictly_sorted_distinct, decimal, decimal_string, child_path, join_path, sorted_unique,
    strictly_sorted, texts};

verus! {

/// What the checker reads of a repository: its branches, whether its root is
/// bare, its worktrees, whether each worktree's resolved path lies inside the
/// root, and whether each branch's conventional target path already exists.
pub struct RepoSnapshot {
    pub repo_root: String,
    pub branches: Vec<String>,
    pub is_bare: bool,
    pub worktrees: Vec<ParsedWorktree>,
    pub inside_root: Vec<bool>,
    pub target_exists: Vec<bool>,
}

/// A worktree as the checker sees it.
pub struct WorktreeView {
    pub path: Seq<char>,
    pub branch: Seq<char>,
    pub inside_root: bool,
}

/// The mathematical model of a snapshot.
pub struct RepoModel {
    pub root: Seq<char>,
    pub branches: Seq<Seq<char>>,
    pub is_bare: bool,
    pub worktrees: Seq<WorktreeView>,
    pub target_exists: Seq<bool>,
}

impl RepoModel {
    /// One target flag for each branch.
    pub open spec fn wf(self) -> bool {
        self.target_exists.len() == self.branches.len()
    }
}

impl RepoSnapshot {
    /// One flag for each worktree and one for each branch.
    pub open spec fn wf(&self) -> bool {
        &&& self.inside_root@.len() == self.worktrees@.len()
        &&& self.target_exists@.len() == self.branches@.len()
    }
}

impl View for RepoSnapshot {
    type V = RepoModel;

    open spec fn view(&self) -> RepoModel {
        RepoModel {
            root: self.repo_root@,
            branches: texts(self.branches@),
            is_bare: self.is_bare,
            worktrees: Seq::new(
                self.worktrees@.len(),
                |i: int|
                    WorktreeView {
                        path: self.worktrees@[i].path@,
                        branch: self.worktrees@[i].branch@,
                        inside_root: self.inside_root@[i],
                    },
            ),
            target_exists: self.target_exists@,
        }
    }
}

/// Whether worktree `w` is mapped: inside the root, on a branch of the list.
pub open spec fn maps(w: WorktreeView, branches: Seq<Seq<char>>) -> bool {
    &&& w.inside_root
    &&& !is_headless_name(w.branch)
    &&& branches.contains(w.branch)
}

/// Whether worktree `i` is mapped.
pub open spec fn is_mapped(m: RepoModel, i: int) -> bool {
    maps(m.worktrees[i], m.branches)
}

/// The number of mapped worktrees in `ws` that are on branch `b`.
pub open spec fn count_on(ws: Seq<WorktreeView>, branches: Seq<Seq<char>>, b: Seq<char>) -> nat
    decreases ws.len(),
{
    if ws.len() == 0 {
        0
    } else {
        count_on(ws.drop_last(), branches, b) + if maps(ws.last(), branches) && ws.last().branch
            == b {
            1nat
        } else {
            0nat
        }
    }
}

/// The number of mapped worktrees on branch `b`.
pub open spec fn checkouts(m: RepoModel, b: Seq<char>) -> nat {
    count_on(m.worktrees, m.branches, b)
}

/// The reason given for a worktree outside the repository root.
pub open spec fn outside_root_reason(path: Seq<char>) -> Seq<char> {
    "worktree path is outside repo root: "@ + path
}

/// The reason given for a branch checked out in `n` worktrees.
pub open spec fn duplicate_checkout_reason(b: Seq<char>, n: nat) -> Seq<char> {
    "branch "@ + b + " is checked out in "@ + decimal(n) + " worktrees"@
}

/// The reason given for a branch without a worktree whose target path is taken.
pub open spec fn path_collision_reason(root: Seq<char>, b: Seq<char>) -> Seq<char> {
    "missing worktree for branch "@ + b + ", but target path already exists: "@ + child_path(root, b)
}

/// The reason given for a repository root that is not bare.
pub open spec fn not_bare_reason() -> Seq<char> {
    "repository root is not bare; run `gw init` to convert layout"@
}

/// Branch `k` of the list has no mapped worktree.
pub open spec fn is_unmapped_branch(m: RepoModel, k: int) -> bool {
    checkouts(m, m.branches[k]) == 0
}

/// Branch `k` is `b`, has no worktree, and its target path is free.
pub open spec fn branch_is_missing(m: RepoModel, k: int, b: Seq<char>) -> bool {
    m.branches[k] == b && is_unmapped_branch(m, k) && !m.target_exists[k]
}

/// Worktree `i` has path `p`, lies inside the root, and has no valid owning branch.
pub open spec fn worktree_is_orphan(m: RepoModel, i: int, p: Seq<char>) -> bool {
    m.worktrees[i].path == p && m.worktrees[i].inside_root && !is_mapped(m, i)
}

/// Worktree `i` gives the unrecoverable reason `x`: it lies outside the root,
/// or its branch is checked out more than once.
pub open spec fn worktree_gives_reason(m: RepoModel, i: int, x: Seq<char>) -> bool {
    ||| (!m.worktrees[i].inside_root && x == outside_root_reason(m.worktrees[i].path))
    ||| (is_mapped(m, i) && checkouts(m, m.worktrees[i].branch) > 1 && x
        == duplicate_checkout_reason(m.worktrees[i].branch, checkouts(m, m.worktrees[i].branch)))
}

/// Branch `k` gives the unrecoverable reason `x`: it has no worktree, but its
/// target path is taken.
pub open spec fn branch_gives_reason(m: RepoModel, k: int, x: Seq<char>) -> bool {
    is_unmapped_branch(m, k) && m.target_exists[k] && x == path_collision_reason(m.root, m.branches[k])
}

/// Some branch among the first `n` is missing and is `b`.
pub open spec fn missing_upto(m: RepoModel, b: Seq<char>, n: int) -> bool {
    exists|k: int| 0 <= k < n && #[trigger] branch_is_missing(m, k, b)
}

/// Some worktree among the first `n` is an orphan at path `p`.
pub open spec fn orphaned_upto(m: RepoModel, p: Seq<char>, n: int) -> bool {
    exists|i: int| 0 <= i < n && #[trigger] worktree_is_orphan(m, i, p)
}

/// Some worktree among the first `n` gives the reason `x`.
pub open spec fn worktree_reason_upto(m: RepoModel, x: Seq<char>, n: int) -> bool {
    exists|i: int| 0 <= i < n && #[trigger] worktree_gives_reason(m, i, x)
}

/// Some branch among the first `n` gives the reason `x`.
pub open spec fn collision_reason_upto(m: RepoModel, x: Seq<char>, n: int) -> bool {
    exists|k: int| 0 <= k < n && #[trigger] branch_gives_reason(m, k, x)
}

/// `x` is one of the reasons why the snapshot cannot be repaired automatically.
pub open spec fn is_unrecoverable_reason(m: RepoModel, x: Seq<char>) -> bool {
    ||| worktree_reason_upto(m, x, m.worktrees.len() as int)
    ||| collision_reason_upto(m, x, m.branches.len() as int)
    ||| (!m.is_bare && x == not_bare_reason())
}

/// `r` is the report of the repository `m`: each list is sorted without duplicates
/// and holds exactly the findings of its kind.
pub open spec fn describes(r: HealthReport, m: RepoModel) -> bool {
    &&& strictly_sorted(texts(r.missing_worktrees@))
    &&& strictly_sorted(texts(r.orphaned_worktrees@))
    &&& strictly_sorted(texts(r.unrecoverable_reasons@))
    &&& forall|b: Seq<char>|
        texts(r.missing_worktrees@).contains(b) <==> missing_upto(m, b, m.branches.len() as int)
    &&& forall|p: Seq<char>|
        texts(r.orphaned_worktrees@).contains(p) <==> orphaned_upto(
            m,
            p,
            m.worktrees.len() as int,
        )
    &&& forall|x: Seq<char>|
        texts(r.unrecoverable_reasons@).contains(x) <==> is_unrecoverable_reason(m, x)
}

proof fn lemma_texts_push(v: Seq<String>, e: String)
    ensures
        texts(v.push(e)) == texts(v).push(e@),
        forall|x: Seq<char>| texts(v.push(e)).contains(x) <==> (texts(v).contains(x) || x == e@),
{
    assert(texts(v.push(e)) =~= texts(v).push(e@));
    assert forall|x: Seq<char>| texts(v.push(e)).contains(x) <==> (texts(v).contains(x) || x == e@) by {
        let t = texts(v.push(e));
        if t.contains(x) {
            let k = choose|k: int| 0 <= k < t.len() && t[k] == x;
            if k < v.len() {
                assert(texts(v)[k] == x);
            }
        }
        if texts(v).contains(x) {
            let k = choose|k: int| 0 <= k < texts(v).len() && texts(v)[k] == x;
            assert(t[k] == x);
        }
        if x == e@ {
            assert(t[v.len() as int] == x);
        }
    }
}

proof fn lemma_missing_upto_step(m: RepoModel, b: Seq<char>, n: int)
    requires
        0 <= n,
    ensures
        missing_upto(m, b, n + 1) == (missing_upto(m, b, n) || branch_is_missing(m, n, b)),
{
    if missing_upto(m, b, n + 1) && !branch_is_missing(m, n, b) {
        let j = choose|j: int| 0 <= j < n + 1 && #[trigger] branch_is_missing(m, j, b);
        assert(j < n);
    }
    if missing_upto(m, b, n) {
        let j = choose|j: int| 0 <= j < n && #[trigger] branch_is_missing(m, j, b);
        assert(0 <= j < n + 1 && branch_is_missing(m, j, b));
    }
    if branch_is_missing(m, n, b) {
        assert(0 <= n < n + 1 && branch_is_missing(m, n, b));
    }
}

proof fn lemma_orphaned_upto_step(m: RepoModel, p: Seq<char>, n: int)
    requires
        0 <= n,
    ensures
        orphaned_upto(m, p, n + 1) == (orphaned_upto(m, p, n) || worktree_is_orphan(m, n, p)),
{
    if orphaned_upto(m, p, n + 1) && !worktree_is_orphan(m, n, p) {
        let j = choose|j: int| 0 <= j < n + 1 && #[trigger] worktree_is_orphan(m, j, p);
        assert(j < n);
    }
    if orphaned_upto(m, p, n) {
        let j = choose|j: int| 0 <= j < n && #[trigger] worktree_is_orphan(m, j, p);
        assert(0 <= j < n + 1 && worktree_is_orphan(m, j, p));
    }
    if worktree_is_orphan(m, n, p) {
        assert(0 <= n < n + 1 && worktree_is_orphan(m, n, p));
    }
}

proof fn lemma_worktree_reason_upto_step(m: RepoModel, x: Seq<char>, n: int)
    requires
        0 <= n,
    ensures
        worktree_reason_upto(m, x, n + 1) == (worktree_reason_upto(m, x, n) || worktree_gives_reason(m, n, x)),
{
    if worktree_reason_upto(m, x, n + 1) && !worktree_gives_reason(m, n, x) {
        let j = choose|j: int| 0 <= j < n + 1 && #[trigger] worktree_gives_reason(m, j, x);
        assert(j < n);
    }
    if worktree_reason_upto(m, x, n) {
        let j = choose|j: int| 0 <= j < n && #[trigger] worktree_gives_reason(m, j, x);
        assert(0 <= j < n + 1 && worktree_gives_reason(m, j, x));
    }
    if worktree_gives_reason(m, n, x) {
        assert(0 <= n < n + 1 && worktree_gives_reason(m, n, x));
    }
}

proof fn lemma_collision_reason_upto_step(m: RepoModel, x: Seq<char>, n: int)
    requires
        0 <= n,
    ensures
        collision_reason_upto(m, x, n + 1) == (collision_reason_upto(m, x, n) || branch_gives_reason(m, n, x)),
{
    if collision_reason_upto(m, x, n + 1) && !branch_gives_reason(m, n, x) {
        let j = choose|j: int| 0 <= j < n + 1 && #[trigger] branch_gives_reason(m, j, x);
        assert(j < n);
    }
    if collision_reason_upto(m, x, n) {
        let j = choose|j: int| 0 <= j < n && #[trigger] branch_gives_reason(m, j, x);
        assert(0 <= j < n + 1 && branch_gives_reason(m, j, x));
    }
    if branch_gives_reason(m, n, x) {
        assert(0 <= n < n + 1 && branch_gives_reason(m, n, x));
    }
}

/// Whether `v` holds a string equal to `s`.
pub fn contains_text(v: &Vec<String>, s: &str) -> (r: bool)
    ensures
        r == texts(v@).contains(s@),
{
    let mut i: usize = 0;
    while i < v.len()
        invariant
            i <= v@.len(),
            forall|k: int| 0 <= k < i ==> v@[k]@ != s@,
        decreases v@.len() - i,
    {
        if crate::text::compare_text(v[i].as_str(), s) == 0 {
            assert(texts(v@)[i as int] == s@);
            return true;
        }
        i = i + 1;
    }
    proof {
        if texts(v@).contains(s@) {
            let k = choose|k: int| 0 <= k < texts(v@).len() && texts(v@)[k] == s@;
            assert(v@[k]@ == s@);
        }
    }
    false
}

/// The number of mapped worktrees on branch `b`.
fn count_checkouts(s: &RepoSnapshot, b: &str) -> (r: usize)
    requires
        s.wf(),
    ensures
        r == checkouts(s@, b@),
        r <= s.worktrees@.len(),
{
    let n = s.worktrees.len();
    let mut c: usize = 0;
    let mut i: usize = 0;
    while i < n
        invariant
            s.wf(),
            n == s.worktrees@.len(),
            i <= n,
            c == count_on(s@.worktrees.take(i as int), s@.branches, b@),
            c <= i,
        decreases n - i,
    {
        let w = &s.worktrees[i];
        if s.inside_root[i] && !is_headless_branch(w.branch.as_str()) && contains_text(
            &s.branches,
            w.branch.as_str(),
        ) && crate::text::compare_text(w.branch.as_str(), b) == 0 {
            c = c + 1;
        }
        assert(s@.worktrees.take(i + 1).drop_last() =~= s@.worktrees.take(i as int));
        i = i + 1;
    }
    assert(s@.worktrees.take(n as int) =~= s@.worktrees);
    c
}

fn outside_root_message(path: &str) -> (r: String)
    ensures
        r@ == outside_root_reason(path@),
{
    let mut r = String::from_str("worktree path is outside repo root: ");
    r.append(path);
    r
}

fn duplicate_checkout_message(b: &str, n: usize) -> (r: String)
    ensures
        r@ == duplicate_checkout_reason(b@, n as nat),
{
    let count = decimal_string(n as u64);
    let head = concat3("branch ", b, " is checked out in ");
    let r = concat3(head.as_str(), count.as_str(), " worktrees");
    r
}

fn path_collision_message(root: &str, b: &str) -> (r: String)
    ensures
        r@ == path_collision_reason(root@, b@),
{
    let target = join_path(root, b);
    let head = concat3("missing worktree for branch ", b, ", but target path already exists: ");
    let mut r = head;
    r.append(target.as_str());
    r
}

/// Classifies the snapshot: worktrees outside the root, branches checked out
/// more than once, branches whose free target path is taken, and a root that
/// is not bare are unrecoverable; worktrees inside the root without a listed
/// branch are orphaned; branches without a worktree are missing.
pub fn health_check(s: &RepoSnapshot) -> (r: HealthReport)
    requires
        s.wf(),
    ensures
        describes(r, s@),
{
    let n = s.worktrees.len();
    let mut orphans: Vec<String> = Vec::new();
    let mut reasons: Vec<String> = Vec::new();
    let mut i: usize = 0;
    while i < n
        invariant
            s.wf(),
            n == s.worktrees@.len(),
            i <= n,
            forall|p: Seq<char>| texts(orphans@).contains(p) <==> orphaned_upto(s@, p, i as int),
            forall|x: Seq<char>|
                texts(reasons@).contains(x) <==> worktree_reason_upto(s@, x, i as int),
        decreases n - i,
    {
        let w = &s.worktrees[i];
        let ghost oi = orphans@;
        let ghost ri = reasons@;
        if !s.inside_root[i] {
            let m = outside_root_message(w.path.as_str());
            proof { lemma_texts_push(ri, m); }
            reasons.push(m);
            assert(forall|x: Seq<char>| worktree_gives_reason(s@, i as int, x) <==> x == m@);
            assert(forall|q: Seq<char>| !worktree_is_orphan(s@, i as int, q));
            assert forall|q: Seq<char>| texts(orphans@).contains(q) <==> orphaned_upto(s@, q, i + 1) by {
                lemma_orphaned_upto_step(s@, q, i as int);
                assert(texts(oi).contains(q) <==> orphaned_upto(s@, q, i as int));
            }
            assert forall|x: Seq<char>| texts(reasons@).contains(x) <==> worktree_reason_upto(s@, x, i + 1) by {
                lemma_worktree_reason_upto_step(s@, x, i as int);
                assert(texts(ri).contains(x) <==> worktree_reason_upto(s@, x, i as int));
            }
        } else if is_headless_branch(w.branch.as_str()) || !contains_text(
            &s.branches,
            w.branch.as_str(),
        ) {
            let p = w.path.clone();
            proof { lemma_texts_push(oi, p); }
            orphans.push(p);
            assert(!is_mapped(s@, i as int));
            assert(forall|q: Seq<char>| worktree_is_orphan(s@, i as int, q) <==> q == p@);
            assert(forall|x: Seq<char>| !worktree_gives_reason(s@, i as int, x));
            assert forall|q: Seq<char>| texts(orphans@).contains(q) <==> orphaned_upto(s@, q, i + 1) by {
                lemma_orphaned_upto_step(s@, q, i as int);
                assert(texts(oi).contains(q) <==> orphaned_upto(s@, q, i as int));
            }
            assert forall|x: Seq<char>| texts(reasons@).contains(x) <==> worktree_reason_upto(s@, x, i + 1) by {
                lemma_worktree_reason_upto_step(s@, x, i as int);
                assert(texts(ri).contains(x) <==> worktree_reason_upto(s@, x, i as int));
            }
        } else {
            assert(is_mapped(s@, i as int));
            assert(forall|q: Seq<char>| !worktree_is_orphan(s@, i as int, q));
            let c = count_checkouts(s, w.branch.as_str());
            if c > 1 {
                let m = duplicate_checkout_message(w.branch.as_str(), c);
                proof { lemma_texts_push(ri, m); }
                reasons.push(m);
                assert(forall|x: Seq<char>| worktree_gives_reason(s@, i as int, x) <==> x == m@);
            assert forall|x: Seq<char>| texts(reasons@).contains(x) <==> worktree_reason_upto(s@, x, i + 1) by {
                lemma_worktree_reason_upto_step(s@, x, i as int);
                assert(texts(ri).contains(x) <==> worktree_reason_upto(s@, x, i as int));
            }
            } else {
                assert(forall|x: Seq<char>| !worktree_gives_reason(s@, i as int, x));
            assert forall|x: Seq<char>| texts(reasons@).contains(x) <==> worktree_reason_upto(s@, x, i + 1) by {
                lemma_worktree_reason_upto_step(s@, x, i as int);
                assert(texts(ri).contains(x) <==> worktree_reason_upto(s@, x, i as int));
            }
            }
            assert forall|q: Seq<char>| texts(orphans@).contains(q) <==> orphaned_upto(s@, q, i + 1) by {
                lemma_orphaned_upto_step(s@, q, i as int);
                assert(texts(oi).contains(q) <==> orphaned_upto(s@, q, i as int));
            }
        }
        i = i + 1;
    }
    let nb = s.branches.len();
    let mut missing: Vec<String> = Vec::new();
    let mut k: usize = 0;
    while k < nb
        invariant
            s.wf(),
            n == s.worktrees@.len(),
            nb == s.branches@.len(),
            k <= nb,
            forall|b: Seq<char>| texts(missing@).contains(b) <==> missing_upto(s@, b, k as int),
            forall|x: Seq<char>|
                texts(reasons@).contains(x) <==> (worktree_reason_upto(s@, x, n as int)
                    || collision_reason_upto(s@, x, k as int)),
        decreases nb - k,
    {
        let b = &s.branches[k];
        let k1 = k + 1;
        let c = count_checkouts(s, b.as_str());
        let ghost mk = missing@;
        let ghost rk = reasons@;
        let collides = c == 0 && s.target_exists[k];
        let absent = c == 0 && !s.target_exists[k];
        if collides {
            let m = path_collision_message(s.repo_root.as_str(), b.as_str());
            proof { lemma_texts_push(rk, m); }
            reasons.push(m);
        }
        if absent {
            let bc = b.clone();
            proof { lemma_texts_push(mk, bc); }
            missing.push(bc);
        }
        assert forall|q: Seq<char>| texts(missing@).contains(q) <==> missing_upto(s@, q, k1 as int) by {
            lemma_missing_upto_step(s@, q, k as int);
            assert(texts(mk).contains(q) <==> missing_upto(s@, q, k as int));
            if absent {
                assert(texts(missing@) == texts(mk).push(b@));
                assert(branch_is_missing(s@, k as int, q) <==> q == b@);
            } else {
                assert(missing@ == mk);
                assert(!branch_is_missing(s@, k as int, q));
            }
        }
        assert forall|x: Seq<char>|
            texts(reasons@).contains(x) <==> (worktree_reason_upto(s@, x, n as int)
                || collision_reason_upto(s@, x, k1 as int)) by {
            lemma_collision_reason_upto_step(s@, x, k as int);
            assert(texts(rk).contains(x) <==> (worktree_reason_upto(s@, x, n as int)
                || collision_reason_upto(s@, x, k as int)));
            if collides {
                assert(texts(reasons@).contains(x) <==> (texts(rk).contains(x) || x == path_collision_reason(s.repo_root@, b@)));
                assert(branch_gives_reason(s@, k as int, x) <==> x == path_collision_reason(s.repo_root@, b@));
            } else {
                assert(reasons@ == rk);
                assert(!branch_gives_reason(s@, k as int, x));
            }
        }
        k = k1;
    }
    if !s.is_bare {
        let m = String::from_str("repository root is not bare; run `gw init` to convert layout");
        proof { lemma_texts_push(reasons@, m); }
        reasons.push(m);
    }
    HealthReport {
        missing_worktrees: sorted_unique(&missing),
        orphaned_worktrees: sorted_unique(&orphans),
        unrecoverable_reasons: sorted_unique(&reasons),
    }
}


/// Every text in the list occurs once.
pub open spec fn distinct_texts(v: Seq<Seq<char>>) -> bool {
    forall|i: int, j: int| 0 <= i < j < v.len() ==> v[i] != v[j]
}

/// Nothing blocks an automatic repair: the root is bare, every worktree lies
/// inside it, no branch is checked out twice, and no free target is taken.
pub open spec fn no_blockers(m: RepoModel) -> bool {
    &&& m.is_bare
    &&& forall|i: int| 0 <= i < m.worktrees.len() ==> #[trigger] m.worktrees[i].inside_root
    &&& forall|i: int|
        0 <= i < m.worktrees.len() && is_mapped(m, i) ==> checkouts(m, #[trigger] m.worktrees[i].branch)
            <= 1
    &&& forall|k: int|
        0 <= k < m.branches.len() ==> !(#[trigger] is_unmapped_branch(m, k) && m.target_exists[k])
}

proof fn lemma_reason_heads(path: Seq<char>, b: Seq<char>, n: nat, root: Seq<char>, c: Seq<char>)
    ensures
        outside_root_reason(path)[0] == 'w',
        duplicate_checkout_reason(b, n)[0] == 'b',
        path_collision_reason(root, c)[0] == 'm',
        not_bare_reason()[0] == 'r',
        outside_root_reason(path).len() > 0,
        duplicate_checkout_reason(b, n).len() > 0,
        path_collision_reason(root, c).len() > 0,
        not_bare_reason().len() > 0,
{
    reveal_strlit("worktree path is outside repo root: ");
    reveal_strlit("branch ");
    reveal_strlit("missing worktree for branch ");
    reveal_strlit("repository root is not bare; run `gw init` to convert layout");
}

proof fn lemma_collision_reason_injective(root: Seq<char>, b1: Seq<char>, b2: Seq<char>)
    requires
        path_collision_reason(root, b1) == path_collision_reason(root, b2),
    ensures
        b1 == b2,
{
    reveal_strlit("missing worktree for branch ");
    reveal_strlit(", but target path already exists: ");
    let h = "missing worktree for branch "@;
    let x1 = path_collision_reason(root, b1);
    let x2 = path_collision_reason(root, b2);
    assert(x1.len() == h.len() + 2 * b1.len() + ", but target path already exists: "@.len() + root.len() + 1);
    assert(x2.len() == h.len() + 2 * b2.len() + ", but target path already exists: "@.len() + root.len() + 1);
    assert(b1.len() == b2.len());
    assert(x1.subrange(h.len() as int, (h.len() + b1.len()) as int) =~= b1);
    assert(x2.subrange(h.len() as int, (h.len() + b2.len()) as int) =~= b2);
}

/// Classification accounts for every branch exactly once: a listed branch is
/// either missing from the report, checked out in a mapped worktree, or the
/// subject of a path-collision reason, and never two of these. The report is
/// free of unrecoverable reasons exactly when nothing blocks a repair.
pub proof fn lemma_health_classification_exhaustive(m: RepoModel, r: HealthReport)
    requires
        m.wf(),
        distinct_texts(m.branches),
        describes(r, m),
    ensures
        forall|k: int|
            0 <= k < m.branches.len() ==> {
                let b = #[trigger] m.branches[k];
                let missing = texts(r.missing_worktrees@).contains(b);
                let mapped = checkouts(m, b) > 0;
                let collided = texts(r.unrecoverable_reasons@).contains(
                    path_collision_reason(m.root, b),
                );
                (missing && !mapped && !collided) || (!missing && mapped && !collided) || (
                !missing && !mapped && collided)
            },
        forall|b: Seq<char>| texts(r.missing_worktrees@).contains(b) ==> m.branches.contains(b),
        (r.unrecoverable_reasons@.len() == 0) == no_blockers(m),
{
    assert forall|k: int| 0 <= k < m.branches.len() implies {
        let b = #[trigger] m.branches[k];
        let missing = texts(r.missing_worktrees@).contains(b);
        let mapped = checkouts(m, b) > 0;
        let collided = texts(r.unrecoverable_reasons@).contains(path_collision_reason(m.root, b));
        (missing && !mapped && !collided) || (!missing && mapped && !collided) || (!missing
            && !mapped && collided)
    } by {
        let b = m.branches[k];
        let x = path_collision_reason(m.root, b);
        assert(texts(r.missing_worktrees@).contains(b) == missing_upto(m, b, m.branches.len() as int));
        assert(texts(r.unrecoverable_reasons@).contains(x) == is_unrecoverable_reason(m, x));
        if missing_upto(m, b, m.branches.len() as int) {
            let j = choose|j: int| 0 <= j < m.branches.len() && #[trigger] branch_is_missing(m, j, b);
            assert(j == k);
        }
        if worktree_reason_upto(m, x, m.worktrees.len() as int) {
            let i = choose|i: int| 0 <= i < m.worktrees.len() && #[trigger] worktree_gives_reason(m, i, x);
            lemma_reason_heads(m.worktrees[i].path, m.worktrees[i].branch, checkouts(m, m.worktrees[i].branch), m.root, b);
        }
        if !m.is_bare && x == not_bare_reason() {
            lemma_reason_heads(b, b, 0, m.root, b);
        }
        if collision_reason_upto(m, x, m.branches.len() as int) {
            let j = choose|j: int| 0 <= j < m.branches.len() && #[trigger] branch_gives_reason(m, j, x);
            lemma_collision_reason_injective(m.root, m.branches[j], b);
            assert(j == k);
        }
        if checkouts(m, b) == 0 {
            if m.target_exists[k] {
                assert(branch_gives_reason(m, k, x));
            } else {
                assert(branch_is_missing(m, k, b));
            }
        }
    }
    assert forall|b: Seq<char>| texts(r.missing_worktrees@).contains(b) implies m.branches.contains(b) by {
        let j = choose|j: int| 0 <= j < m.branches.len() && #[trigger] branch_is_missing(m, j, b);
        assert(m.branches[j] == b);
    }
    if r.unrecoverable_reasons@.len() == 0 {
        assert(texts(r.unrecoverable_reasons@).len() == 0);
        if !m.is_bare {
            assert(is_unrecoverable_reason(m, not_bare_reason()));
        }
        assert forall|i: int| 0 <= i < m.worktrees.len() implies #[trigger] m.worktrees[i].inside_root by {
            if !m.worktrees[i].inside_root {
                assert(worktree_gives_reason(m, i, outside_root_reason(m.worktrees[i].path)));
                assert(is_unrecoverable_reason(m, outside_root_reason(m.worktrees[i].path)));
            }
        }
        assert forall|i: int| 0 <= i < m.worktrees.len() && is_mapped(m, i) implies checkouts(m, #[trigger] m.worktrees[i].branch) <= 1 by {
            let b = m.worktrees[i].branch;
            let x = duplicate_checkout_reason(b, checkouts(m, b));
            if checkouts(m, b) > 1 {
                assert(worktree_gives_reason(m, i, x));
                assert(is_unrecoverable_reason(m, x));
            }
        }
        assert forall|k: int| 0 <= k < m.branches.len() implies !(#[trigger] is_unmapped_branch(m, k) && m.target_exists[k]) by {
            let x = path_collision_reason(m.root, m.branches[k]);
            if is_unmapped_branch(m, k) && m.target_exists[k] {
                assert(branch_gives_reason(m, k, x));
                assert(is_unrecoverable_reason(m, x));
            }
        }
    }
    if no_blockers(m) && r.unrecoverable_reasons@.len() > 0 {
        let x = texts(r.unrecoverable_reasons@)[0];
        assert(texts(r.unrecoverable_reasons@).contains(x));
        assert(is_unrecoverable_reason(m, x));
        if worktree_reason_upto(m, x, m.worktrees.len() as int) {
            let i = choose|i: int| 0 <= i < m.worktrees.len() && #[trigger] worktree_gives_reason(m, i, x);
            assert(m.worktrees[i].inside_root);
            if is_mapped(m, i) {
                assert(checkouts(m, m.worktrees[i].branch) <= 1);
            }
        }
        if collision_reason_upto(m, x, m.branches.len() as int) {
            let k = choose|k: int| 0 <= k < m.branches.len() && #[trigger] branch_gives_reason(m, k, x);
            assert(!(is_unmapped_branch(m, k) && m.target_exists[k]));
        }
    }
}


/// One step of a repair.
pub enum RepairStep {
    /// Remove the worktree at `path`.
    RemoveWorktree { path: String },
    /// Create a worktree for the existing branch `branch` at `path`.
    AddWorktree { path: String, branch: String },
}

/// `steps` removes each orphaned worktree of `r`, then creates a worktree
/// under `root` for each missing branch, in the report's order.
pub open spec fn is_repair_plan(steps: Seq<RepairStep>, root: Seq<char>, r: HealthReport) -> bool {
    let no = r.orphaned_worktrees@.len();
    &&& steps.len() == no + r.missing_worktrees@.len()
    &&& forall|i: int|
        0 <= i < no ==> match #[trigger] steps[i] {
            RepairStep::RemoveWorktree { path } => path@ == r.orphaned_worktrees@[i]@,
            _ => false,
        }
    &&& forall|j: int|
        0 <= j < r.missing_worktrees@.len() ==> match #[trigger] steps[no + j] {
            RepairStep::AddWorktree { path, branch } => {
                &&& branch@ == r.missing_worktrees@[j]@
                &&& path@ == child_path(root, r.missing_worktrees@[j]@)
            },
            _ => false,
        }
}

/// The error of a repair refused for an unrecoverable report.
pub open spec fn unrecoverable_repair_message() -> Seq<char> {
    "gw: setup has unrecoverable issues; run `gw init` first"@
}

/// Plans the repair of a report: refused when the report lists an
/// unrecoverable reason; otherwise the orphaned worktrees are removed and the
/// missing ones created at `<root>/<branch>`.
pub fn doctor_repo(repo_root: &str, report: &HealthReport) -> (r: Result<Vec<RepairStep>, String>)
    ensures
        r.is_err() == (report.unrecoverable_reasons@.len() > 0),
        r matches Err(e) ==> e@ == unrecoverable_repair_message(),
        r matches Ok(steps) ==> is_repair_plan(steps@, repo_root@, *report),
{
    if !report.is_recoverable() {
        return Err(String::from_str("gw: setup has unrecoverable issues; run `gw init` first"));
    }
    let mut steps: Vec<RepairStep> = Vec::new();
    let no = report.orphaned_worktrees.len();
    let mut i: usize = 0;
    while i < no
        invariant
            no == report.orphaned_worktrees@.len(),
            i <= no,
            steps@.len() == i,
            forall|k: int|
                0 <= k < i ==> match #[trigger] steps@[k] {
                    RepairStep::RemoveWorktree { path } => path@ == report.orphaned_worktrees@[k]@,
                    _ => false,
                },
        decreases no - i,
    {
        steps.push(RepairStep::RemoveWorktree { path: report.orphaned_worktrees[i].clone() });
        i = i + 1;
    }
    let nm = report.missing_worktrees.len();
    let mut j: usize = 0;
    while j < nm
        invariant
            no == report.orphaned_worktrees@.len(),
            nm == report.missing_worktrees@.len(),
            j <= nm,
            steps@.len() == no + j,
            forall|k: int|
                0 <= k < no ==> match #[trigger] steps@[k] {
                    RepairStep::RemoveWorktree { path } => path@ == report.orphaned_worktrees@[k]@,
                    _ => false,
                },
            forall|k: int|
                0 <= k < j ==> match #[trigger] steps@[no + k] {
                    RepairStep::AddWorktree { path, branch } => {
                        &&& branch@ == report.missing_worktrees@[k]@
                        &&& path@ == child_path(repo_root@, report.missing_worktrees@[k]@)
                    },
                    _ => false,
                },
        decreases nm - j,
    {
        let b = &report.missing_worktrees[j];
        let path = join_path(repo_root, b.as_str());
        steps.push(RepairStep::AddWorktree { path, branch: b.clone() });
        j = j + 1;
    }
    Ok(steps)
}


/// The worktrees of `ws` whose path is not among `paths`, in order.
pub open spec fn without_paths(ws: Seq<WorktreeView>, paths: Seq<Seq<char>>) -> Seq<WorktreeView>
    decreases ws.len(),
{
    if ws.len() == 0 {
        ws
    } else {
        let rest = without_paths(ws.drop_last(), paths);
        if paths.contains(ws.last().path) {
            rest
        } else {
            rest.push(ws.last())
        }
    }
}

/// The worktrees that a repair creates under `root` for the branches `missing`.
pub open spec fn created_worktrees(root: Seq<char>, missing: Seq<Seq<char>>) -> Seq<WorktreeView> {
    Seq::new(
        missing.len(),
        |j: int| WorktreeView { path: child_path(root, missing[j]), branch: missing[j], inside_root: true },
    )
}

/// The repository after the steps of a repair plan for `r` have all run.
pub open spec fn after_repair(m: RepoModel, r: HealthReport) -> RepoModel {
    RepoModel {
        worktrees: without_paths(m.worktrees, texts(r.orphaned_worktrees@)) + created_worktrees(
            m.root,
            texts(r.missing_worktrees@),
        ),
        ..m
    }
}

proof fn lemma_count_on_append(a: Seq<WorktreeView>, b: Seq<WorktreeView>, br: Seq<Seq<char>>, x: Seq<char>)
    ensures
        count_on(a + b, br, x) == count_on(a, br, x) + count_on(b, br, x),
    decreases b.len(),
{
    if b.len() == 0 {
        assert(a + b =~= a);
    } else {
        assert((a + b).drop_last() =~= a + b.drop_last());
        lemma_count_on_append(a, b.drop_last(), br, x);
    }
}

proof fn lemma_count_on_without(ws: Seq<WorktreeView>, paths: Seq<Seq<char>>, br: Seq<Seq<char>>, x: Seq<char>)
    ensures
        count_on(without_paths(ws, paths), br, x) <= count_on(ws, br, x),
    decreases ws.len(),
{
    if ws.len() > 0 {
        lemma_count_on_without(ws.drop_last(), paths, br, x);
        let rest = without_paths(ws.drop_last(), paths);
        if !paths.contains(ws.last().path) {
            assert(rest.push(ws.last()).drop_last() =~= rest);
        }
    }
}

proof fn lemma_count_on_without_keeps(
    ws: Seq<WorktreeView>,
    paths: Seq<Seq<char>>,
    br: Seq<Seq<char>>,
    x: Seq<char>,
    i: int,
)
    requires
        0 <= i < ws.len(),
        !paths.contains(ws[i].path),
        maps(ws[i], br),
        ws[i].branch == x,
    ensures
        count_on(without_paths(ws, paths), br, x) > 0,
    decreases ws.len(),
{
    let rest = without_paths(ws.drop_last(), paths);
    if !paths.contains(ws.last().path) {
        assert(rest.push(ws.last()).drop_last() =~= rest);
    }
    if i < ws.len() - 1 {
        lemma_count_on_without_keeps(ws.drop_last(), paths, br, x, i);
    }
}

proof fn lemma_count_on_positive(ws: Seq<WorktreeView>, br: Seq<Seq<char>>, x: Seq<char>) -> (i: int)
    requires
        count_on(ws, br, x) > 0,
    ensures
        0 <= i < ws.len(),
        maps(ws[i], br),
        ws[i].branch == x,
    decreases ws.len(),
{
    if maps(ws.last(), br) && ws.last().branch == x {
        ws.len() - 1
    } else {
        lemma_count_on_positive(ws.drop_last(), br, x)
    }
}

proof fn lemma_without_paths_from(ws: Seq<WorktreeView>, paths: Seq<Seq<char>>, i: int) -> (j: int)
    requires
        0 <= i < without_paths(ws, paths).len(),
    ensures
        0 <= j < ws.len(),
        without_paths(ws, paths)[i] == ws[j],
        !paths.contains(ws[j].path),
    decreases ws.len(),
{
    let rest = without_paths(ws.drop_last(), paths);
    if !paths.contains(ws.last().path) && i == rest.len() {
        ws.len() - 1
    } else {
        lemma_without_paths_from(ws.drop_last(), paths, i)
    }
}

proof fn lemma_count_on_created(root: Seq<char>, missing: Seq<Seq<char>>, br: Seq<Seq<char>>, x: Seq<char>)
    requires
        distinct_texts(missing),
        forall|j: int| 0 <= j < missing.len() ==> br.contains(#[trigger] missing[j]) && !is_headless_name(missing[j]),
    ensures
        count_on(created_worktrees(root, missing), br, x) == if missing.contains(x) { 1nat } else { 0nat },
    decreases missing.len(),
{
    if missing.len() > 0 {
        let front = missing.drop_last();
        assert(created_worktrees(root, missing).drop_last() =~= created_worktrees(root, front));
        assert(distinct_texts(front));
        lemma_count_on_created(root, front, br, x);
        assert(missing =~= front.push(missing.last()));
        if front.contains(x) {
            let k = choose|k: int| 0 <= k < front.len() && front[k] == x;
            assert(missing[k] == x);
            assert(missing.contains(x));
            assert(missing.last() != x);
        }
        if missing.contains(x) && !front.contains(x) {
            let k = choose|k: int| 0 <= k < missing.len() && missing[k] == x;
            if k < front.len() {
                assert(front[k] == x);
            }
        }
        if !missing.contains(x) {
            assert(missing[missing.len() - 1] == missing.last());
        }
    }
}

/// Repairing a recoverable report leaves nothing to report: a health check of
/// the repository after the plan's steps have run finds no missing, no
/// orphaned worktree and no unrecoverable reason. This holds of repositories
/// whose branch names are distinct real branch names and whose worktree
/// paths are distinct.
pub proof fn lemma_repair_round_trip(m: RepoModel, r: HealthReport, r2: HealthReport)
    requires
        m.wf(),
        distinct_texts(m.branches),
        forall|k: int| 0 <= k < m.branches.len() ==> !is_headless_name(#[trigger] m.branches[k]),
        forall|i: int, j: int|
            0 <= i < j < m.worktrees.len() ==> m.worktrees[i].path != m.worktrees[j].path,
        describes(r, m),
        r.unrecoverable_reasons@.len() == 0,
        describes(r2, after_repair(m, r)),
    ensures
        r2.missing_worktrees@.len() == 0,
        r2.orphaned_worktrees@.len() == 0,
        r2.unrecoverable_reasons@.len() == 0,
{
    lemma_health_classification_exhaustive(m, r);
    let m2 = after_repair(m, r);
    let orphans = texts(r.orphaned_worktrees@);
    let missing = texts(r.missing_worktrees@);
    let kept = without_paths(m.worktrees, orphans);
    let created = created_worktrees(m.root, missing);
    assert(m2.worktrees == kept + created);
    assert(distinct_texts(missing)) by {
        lemma_strictly_sorted_distinct(missing);
    }
    assert forall|j: int| 0 <= j < missing.len() implies m.branches.contains(#[trigger] missing[j])
        && !is_headless_name(missing[j]) by {
        assert(missing.contains(missing[j]));
        let k = choose|k: int| 0 <= k < m.branches.len() && m.branches[k] == missing[j];
    }
    // every branch's checkouts after the repair
    assert forall|x: Seq<char>| #[trigger] checkouts(m2, x) == count_on(kept, m.branches, x) + (if missing.contains(x) { 1nat } else { 0nat }) by {
        lemma_count_on_append(kept, created, m.branches, x);
        lemma_count_on_created(m.root, missing, m.branches, x);
    }
    // a kept worktree is mapped
    assert forall|i: int| 0 <= i < m2.worktrees.len() implies is_mapped(m2, i) by {
        if i < kept.len() {
            let j = lemma_without_paths_from(m.worktrees, orphans, i);
            assert(m2.worktrees[i] == m.worktrees[j]);
            assert(m.worktrees[j].inside_root);
            if !is_mapped(m, j) {
                assert(worktree_is_orphan(m, j, m.worktrees[j].path));
                assert(orphans.contains(m.worktrees[j].path));
            }
        } else {
            assert(m2.worktrees[i] == created[i - kept.len()]);
        }
    }
    // every branch keeps or gains a worktree, and none has two
    assert forall|k: int| 0 <= k < m.branches.len() implies checkouts(m2, m.branches[k]) == 1 by {
        let b = m.branches[k];
        lemma_count_on_without(m.worktrees, orphans, m.branches, b);
        if checkouts(m, b) > 0 {
            let i = lemma_count_on_positive(m.worktrees, m.branches, b);
            assert(is_mapped(m, i));
            assert(checkouts(m, m.worktrees[i].branch) <= 1);
            if orphans.contains(m.worktrees[i].path) {
                let i2 = choose|i2: int| 0 <= i2 < m.worktrees.len() && #[trigger] worktree_is_orphan(m, i2, m.worktrees[i].path);
                assert(i2 == i);
            }
            lemma_count_on_without_keeps(m.worktrees, orphans, m.branches, b, i);
            if missing.contains(b) {
                let j = choose|j: int| 0 <= j < m.branches.len() && #[trigger] branch_is_missing(m, j, b);
            }
        } else {
            assert(!(is_unmapped_branch(m, k) && m.target_exists[k]));
            assert(branch_is_missing(m, k, b));
            assert(missing.contains(b));
        }
    }
    assert(no_blockers(m));
    assert(m2.is_bare);
    assert forall|x: Seq<char>| !#[trigger] is_unrecoverable_reason(m2, x) by {
        if worktree_reason_upto(m2, x, m2.worktrees.len() as int) {
            let i = choose|i: int| 0 <= i < m2.worktrees.len() && #[trigger] worktree_gives_reason(m2, i, x);
            assert(is_mapped(m2, i));
            let b = m2.worktrees[i].branch;
            assert(m.branches.contains(b));
            let k = choose|k: int| 0 <= k < m.branches.len() && m.branches[k] == b;
            assert(checkouts(m2, m.branches[k]) == 1);
        }
        if collision_reason_upto(m2, x, m2.branches.len() as int) {
            let k = choose|k: int| 0 <= k < m2.branches.len() && #[trigger] branch_gives_reason(m2, k, x);
            assert(checkouts(m2, m.branches[k]) == 1);
        }
    }
    if r2.missing_worktrees@.len() > 0 {
        let b = texts(r2.missing_worktrees@)[0];
        assert(texts(r2.missing_worktrees@).contains(b));
        let k = choose|k: int| 0 <= k < m2.branches.len() && #[trigger] branch_is_missing(m2, k, b);
        assert(checkouts(m2, m.branches[k]) == 1);
    }
    if r2.orphaned_worktrees@.len() > 0 {
        let p = texts(r2.orphaned_worktrees@)[0];
        assert(texts(r2.orphaned_worktrees@).contains(p));
        let i = choose|i: int| 0 <= i < m2.worktrees.len() && #[trigger] worktree_is_orphan(m2, i, p);
    }
    if r2.unrecoverable_reasons@.len() > 0 {
        let x = texts(r2.unrecoverable_reasons@)[0];
        assert(texts(r2.unrecoverable_reasons@).contains(x));
        assert(is_unrecoverable_reason(m2, x));
    }
}

} // verus!
