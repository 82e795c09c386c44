//! The version-control collaborator's commands, as values: each builder
//! gives the working directory and the arguments of one `git` invocation, and
//! each reader turns what the invocation printed into a result.
use vstd::prelude::*;
use crate::models::{is_headless_branch, is_headless_name, AheadBehind, DiffStat, ParsedWorktree};
use crate::text::{concat3, insert_sorted_unique, strictly_sorted, find_char, first_index_of, i64_text_value, lines, parse_i64, split_lines,
    split_words, starts_with, texts, trim, trimmed, words};

verus! {

/// One invocation of `git`: where it runs and with which arguments.
pub struct GitCommand {
    pub cwd: String,
    pub args: Vec<String>,
}

/// Creates a worktree at `path`: with a `base`, on a new branch `branch`
/// started from it; without, for the existing branch `branch`.
pub fn worktree_add(repo_root: &str, path: &str, branch: &str, base: Option<&str>) -> (r: GitCommand)
    ensures
        r.cwd@ == repo_root@,
        texts(r.args@) == match base {
            Some(b) => seq!["worktree"@, "add"@, "-b"@, branch@, path@, b@],
            None => seq!["worktree"@, "add"@, path@, branch@],
        },
{
    let mut args: Vec<String> = Vec::new();
    args.push(String::from_str("worktree"));
    args.push(String::from_str("add"));
    match base {
        Some(b) => {
            args.push(String::from_str("-b"));
            args.push(String::from_str(branch));
            args.push(String::from_str(path));
            args.push(String::from_str(b));
        },
        None => {
            args.push(String::from_str(path));
            args.push(String::from_str(branch));
        },
    }
    let r = GitCommand { cwd: String::from_str(repo_root), args };
    assert(texts(r.args@) =~= match base {
        Some(b) => seq!["worktree"@, "add"@, "-b"@, branch@, path@, b@],
        None => seq!["worktree"@, "add"@, path@, branch@],
    });
    r
}

/// Fetches origin's `branch` into the local branch of the same name.
pub fn fetch_branch(repo_root: &str, branch: &str) -> (r: GitCommand)
    ensures
        r.cwd@ == repo_root@,
        texts(r.args@) == seq!["fetch"@, "origin"@, branch@ + ":"@ + branch@],
{
    let mut args: Vec<String> = Vec::new();
    args.push(String::from_str("fetch"));
    args.push(String::from_str("origin"));
    args.push(concat3(branch, ":", branch));
    let r = GitCommand { cwd: String::from_str(repo_root), args };
    assert(texts(r.args@) =~= seq!["fetch"@, "origin"@, branch@ + ":"@ + branch@]);
    r
}

/// Asks for the upstream of the branch `ref_name`.
pub fn upstream_command(repo_root: &str, ref_name: &str) -> (r: GitCommand)
    ensures
        r.cwd@ == repo_root@,
        texts(r.args@) == seq!["rev-parse"@, "--abbrev-ref"@, ref_name@ + "@{upstream}"@],
{
    let mut args: Vec<String> = Vec::new();
    args.push(String::from_str("rev-parse"));
    args.push(String::from_str("--abbrev-ref"));
    let mut spec = String::from_str(ref_name);
    spec.append("@{upstream}");
    args.push(spec);
    let r = GitCommand { cwd: String::from_str(repo_root), args };
    assert(texts(r.args@) =~= seq!["rev-parse"@, "--abbrev-ref"@, ref_name@ + "@{upstream}"@]);
    r
}

/// Counts the commits on each side of `left...right`.
pub fn ahead_behind_command(repo_root: &str, left: &str, right: &str) -> (r: GitCommand)
    ensures
        r.cwd@ == repo_root@,
        texts(r.args@) == seq!["rev-list"@, "--left-right"@, "--count"@, left@ + "..."@ + right@],
{
    let mut args: Vec<String> = Vec::new();
    args.push(String::from_str("rev-list"));
    args.push(String::from_str("--left-right"));
    args.push(String::from_str("--count"));
    args.push(concat3(left, "...", right));
    let r = GitCommand { cwd: String::from_str(repo_root), args };
    assert(texts(r.args@) =~= seq!["rev-list"@, "--left-right"@, "--count"@, left@ + "..."@ + right@]);
    r
}

/// Asks whether the local branch `branch` exists.
pub fn branch_exists_command(repo_root: &str, branch: &str) -> (r: GitCommand)
    ensures
        r.cwd@ == repo_root@,
        texts(r.args@) == seq!["show-ref"@, "--verify"@, "refs/heads/"@ + branch@],
{
    let mut args: Vec<String> = Vec::new();
    args.push(String::from_str("show-ref"));
    args.push(String::from_str("--verify"));
    let mut full = String::from_str("refs/heads/");
    full.append(branch);
    args.push(full);
    let r = GitCommand { cwd: String::from_str(repo_root), args };
    assert(texts(r.args@) =~= seq!["show-ref"@, "--verify"@, "refs/heads/"@ + branch@]);
    r
}

/// Prunes stale worktree records of the repository.
pub fn prune_worktrees(repo_root: &str) -> (r: GitCommand)
    ensures
        r.cwd@ == repo_root@,
        texts(r.args@) == seq!["worktree"@, "prune"@],
{
    let mut args: Vec<String> = Vec::new();
    args.push(String::from_str("worktree"));
    args.push(String::from_str("prune"));
    let r = GitCommand { cwd: String::from_str(repo_root), args };
    assert(texts(r.args@) =~= seq!["worktree"@, "prune"@]);
    r
}

/// Fetches from all remotes, dropping deleted remote branches.
pub fn fetch_prune(repo_root: &str) -> (r: GitCommand)
    ensures
        r.cwd@ == repo_root@,
        texts(r.args@) == seq!["fetch"@, "--prune"@],
{
    let mut args: Vec<String> = Vec::new();
    args.push(String::from_str("fetch"));
    args.push(String::from_str("--prune"));
    let r = GitCommand { cwd: String::from_str(repo_root), args };
    assert(texts(r.args@) =~= seq!["fetch"@, "--prune"@]);
    r
}

/// Removes the worktree at `path`, even when it has changes.
pub fn worktree_remove(repo_root: &str, path: &str) -> (r: GitCommand)
    ensures
        r.cwd@ == repo_root@,
        texts(r.args@) == seq!["worktree"@, "remove"@, "--force"@, path@],
{
    let mut args: Vec<String> = Vec::new();
    args.push(String::from_str("worktree"));
    args.push(String::from_str("remove"));
    args.push(String::from_str("--force"));
    args.push(String::from_str(path));
    let r = GitCommand { cwd: String::from_str(repo_root), args };
    assert(texts(r.args@) =~= seq!["worktree"@, "remove"@, "--force"@, path@]);
    r
}

/// Moves the worktree at `src` to `dest`.
pub fn worktree_move(repo_root: &str, src: &str, dest: &str) -> (r: GitCommand)
    ensures
        r.cwd@ == repo_root@,
        texts(r.args@) == seq!["worktree"@, "move"@, src@, dest@],
{
    let mut args: Vec<String> = Vec::new();
    args.push(String::from_str("worktree"));
    args.push(String::from_str("move"));
    args.push(String::from_str(src));
    args.push(String::from_str(dest));
    let r = GitCommand { cwd: String::from_str(repo_root), args };
    assert(texts(r.args@) =~= seq!["worktree"@, "move"@, src@, dest@]);
    r
}

/// Deletes the local branch `branch`, merged or not.
pub fn branch_delete(repo_root: &str, branch: &str) -> (r: GitCommand)
    ensures
        r.cwd@ == repo_root@,
        texts(r.args@) == seq!["branch"@, "-D"@, branch@],
{
    let mut args: Vec<String> = Vec::new();
    args.push(String::from_str("branch"));
    args.push(String::from_str("-D"));
    args.push(String::from_str(branch));
    let r = GitCommand { cwd: String::from_str(repo_root), args };
    assert(texts(r.args@) =~= seq!["branch"@, "-D"@, branch@]);
    r
}

/// Renames the local branch `old_name` to `new_name`.
pub fn branch_rename(repo_root: &str, old_name: &str, new_name: &str) -> (r: GitCommand)
    ensures
        r.cwd@ == repo_root@,
        texts(r.args@) == seq!["branch"@, "-m"@, old_name@, new_name@],
{
    let mut args: Vec<String> = Vec::new();
    args.push(String::from_str("branch"));
    args.push(String::from_str("-m"));
    args.push(String::from_str(old_name));
    args.push(String::from_str(new_name));
    let r = GitCommand { cwd: String::from_str(repo_root), args };
    assert(texts(r.args@) =~= seq!["branch"@, "-m"@, old_name@, new_name@]);
    r
}

/// Makes `upstream` the upstream of `branch`.
pub fn branch_set_upstream(repo_root: &str, branch: &str, upstream: &str) -> (r: GitCommand)
    ensures
        r.cwd@ == repo_root@,
        texts(r.args@) == seq!["branch"@, "--set-upstream-to"@, upstream@, branch@],
{
    let mut args: Vec<String> = Vec::new();
    args.push(String::from_str("branch"));
    args.push(String::from_str("--set-upstream-to"));
    args.push(String::from_str(upstream));
    args.push(String::from_str(branch));
    let r = GitCommand { cwd: String::from_str(repo_root), args };
    assert(texts(r.args@) =~= seq!["branch"@, "--set-upstream-to"@, upstream@, branch@]);
    r
}

/// Pulls into the worktree at `worktree_path`.
pub fn pull(worktree_path: &str) -> (r: GitCommand)
    ensures
        r.cwd@ == worktree_path@,
        texts(r.args@) == seq!["pull"@],
{
    let mut args: Vec<String> = Vec::new();
    args.push(String::from_str("pull"));
    let r = GitCommand { cwd: String::from_str(worktree_path), args };
    assert(texts(r.args@) =~= seq!["pull"@]);
    r
}

/// Pushes from the worktree at `worktree_path`.
pub fn push(worktree_path: &str) -> (r: GitCommand)
    ensures
        r.cwd@ == worktree_path@,
        texts(r.args@) == seq!["push"@],
{
    let mut args: Vec<String> = Vec::new();
    args.push(String::from_str("push"));
    let r = GitCommand { cwd: String::from_str(worktree_path), args };
    assert(texts(r.args@) =~= seq!["push"@]);
    r
}

/// Pushes `branch` to origin from the worktree at `worktree_path`, recording it as upstream.
pub fn push_set_upstream(worktree_path: &str, branch: &str) -> (r: GitCommand)
    ensures
        r.cwd@ == worktree_path@,
        texts(r.args@) == seq!["push"@, "-u"@, "origin"@, branch@],
{
    let mut args: Vec<String> = Vec::new();
    args.push(String::from_str("push"));
    args.push(String::from_str("-u"));
    args.push(String::from_str("origin"));
    args.push(String::from_str(branch));
    let r = GitCommand { cwd: String::from_str(worktree_path), args };
    assert(texts(r.args@) =~= seq!["push"@, "-u"@, "origin"@, branch@]);
    r
}

/// Marks the repository as bare.
pub fn set_bare(repo_root: &str) -> (r: GitCommand)
    ensures
        r.cwd@ == repo_root@,
        texts(r.args@) == seq!["config"@, "core.bare"@, "true"@],
{
    let mut args: Vec<String> = Vec::new();
    args.push(String::from_str("config"));
    args.push(String::from_str("core.bare"));
    args.push(String::from_str("true"));
    let r = GitCommand { cwd: String::from_str(repo_root), args };
    assert(texts(r.args@) =~= seq!["config"@, "core.bare"@, "true"@]);
    r
}

/// Marks the repository as not bare.
pub fn unset_bare(repo_root: &str) -> (r: GitCommand)
    ensures
        r.cwd@ == repo_root@,
        texts(r.args@) == seq!["config"@, "core.bare"@, "false"@],
{
    let mut args: Vec<String> = Vec::new();
    args.push(String::from_str("config"));
    args.push(String::from_str("core.bare"));
    args.push(String::from_str("false"));
    let r = GitCommand { cwd: String::from_str(repo_root), args };
    assert(texts(r.args@) =~= seq!["config"@, "core.bare"@, "false"@]);
    r
}

/// Asks whether the repository is bare.
pub fn is_bare_repo_command(repo_root: &str) -> (r: GitCommand)
    ensures
        r.cwd@ == repo_root@,
        texts(r.args@) == seq!["rev-parse"@, "--is-bare-repository"@],
{
    let mut args: Vec<String> = Vec::new();
    args.push(String::from_str("rev-parse"));
    args.push(String::from_str("--is-bare-repository"));
    let r = GitCommand { cwd: String::from_str(repo_root), args };
    assert(texts(r.args@) =~= seq!["rev-parse"@, "--is-bare-repository"@]);
    r
}

/// Asks for the branch that origin's HEAD points at.
pub fn default_branch_command(repo_root: &str) -> (r: GitCommand)
    ensures
        r.cwd@ == repo_root@,
        texts(r.args@) == seq!["symbolic-ref"@, "--quiet"@, "--short"@, "refs/remotes/origin/HEAD"@],
{
    let mut args: Vec<String> = Vec::new();
    args.push(String::from_str("symbolic-ref"));
    args.push(String::from_str("--quiet"));
    args.push(String::from_str("--short"));
    args.push(String::from_str("refs/remotes/origin/HEAD"));
    let r = GitCommand { cwd: String::from_str(repo_root), args };
    assert(texts(r.args@) =~= seq!["symbolic-ref"@, "--quiet"@, "--short"@, "refs/remotes/origin/HEAD"@]);
    r
}

/// Lists the worktrees in machine-readable form.
pub fn list_worktrees_command(repo_root: &str) -> (r: GitCommand)
    ensures
        r.cwd@ == repo_root@,
        texts(r.args@) == seq!["worktree"@, "list"@, "--porcelain"@],
{
    let mut args: Vec<String> = Vec::new();
    args.push(String::from_str("worktree"));
    args.push(String::from_str("list"));
    args.push(String::from_str("--porcelain"));
    let r = GitCommand { cwd: String::from_str(repo_root), args };
    assert(texts(r.args@) =~= seq!["worktree"@, "list"@, "--porcelain"@]);
    r
}

/// Lists the short names of the local branches.
pub fn list_local_branches_command(repo_root: &str) -> (r: GitCommand)
    ensures
        r.cwd@ == repo_root@,
        texts(r.args@) == seq!["for-each-ref"@, "--format=%(refname:short)"@, "refs/heads"@],
{
    let mut args: Vec<String> = Vec::new();
    args.push(String::from_str("for-each-ref"));
    args.push(String::from_str("--format=%(refname:short)"));
    args.push(String::from_str("refs/heads"));
    let r = GitCommand { cwd: String::from_str(repo_root), args };
    assert(texts(r.args@) =~= seq!["for-each-ref"@, "--format=%(refname:short)"@, "refs/heads"@]);
    r
}

/// Asks origin for its branch `branch`.
pub fn remote_branch_command(repo_root: &str, branch: &str) -> (r: GitCommand)
    ensures
        r.cwd@ == repo_root@,
        texts(r.args@) == seq!["ls-remote"@, "--heads"@, "origin"@, branch@],
{
    let mut args: Vec<String> = Vec::new();
    args.push(String::from_str("ls-remote"));
    args.push(String::from_str("--heads"));
    args.push(String::from_str("origin"));
    args.push(String::from_str(branch));
    let r = GitCommand { cwd: String::from_str(repo_root), args };
    assert(texts(r.args@) =~= seq!["ls-remote"@, "--heads"@, "origin"@, branch@]);
    r
}

/// Asks whether `name` is a legal branch name.
pub fn check_branch_name_command(repo_root: &str, name: &str) -> (r: GitCommand)
    ensures
        r.cwd@ == repo_root@,
        texts(r.args@) == seq!["check-ref-format"@, "--branch"@, name@],
{
    let mut args: Vec<String> = Vec::new();
    args.push(String::from_str("check-ref-format"));
    args.push(String::from_str("--branch"));
    args.push(String::from_str(name));
    let r = GitCommand { cwd: String::from_str(repo_root), args };
    assert(texts(r.args@) =~= seq!["check-ref-format"@, "--branch"@, name@]);
    r
}

/// Lists the changed and untracked files of the worktree at `path`.
pub fn status_command(path: &str) -> (r: GitCommand)
    ensures
        r.cwd@ == path@,
        texts(r.args@) == seq!["status"@, "--porcelain"@],
{
    let mut args: Vec<String> = Vec::new();
    args.push(String::from_str("status"));
    args.push(String::from_str("--porcelain"));
    let r = GitCommand { cwd: String::from_str(path), args };
    assert(texts(r.args@) =~= seq!["status"@, "--porcelain"@]);
    r
}

/// Counts changed lines per file in the worktree at `path`.
pub fn numstat_command(path: &str) -> (r: GitCommand)
    ensures
        r.cwd@ == path@,
        texts(r.args@) == seq!["diff"@, "--numstat"@],
{
    let mut args: Vec<String> = Vec::new();
    args.push(String::from_str("diff"));
    args.push(String::from_str("--numstat"));
    let r = GitCommand { cwd: String::from_str(path), args };
    assert(texts(r.args@) =~= seq!["diff"@, "--numstat"@]);
    r
}

/// Asks for the commit time of `target`.
pub fn last_commit_command(repo_root: &str, target: &str) -> (r: GitCommand)
    ensures
        r.cwd@ == repo_root@,
        texts(r.args@) == seq!["log"@, "-1"@, "--format=%ct"@, target@],
{
    let mut args: Vec<String> = Vec::new();
    args.push(String::from_str("log"));
    args.push(String::from_str("-1"));
    args.push(String::from_str("--format=%ct"));
    args.push(String::from_str(target));
    let r = GitCommand { cwd: String::from_str(repo_root), args };
    assert(texts(r.args@) =~= seq!["log"@, "-1"@, "--format=%ct"@, target@]);
    r
}


/// `line` begins with `p`.
pub open spec fn has_prefix(line: Seq<char>, p: Seq<char>) -> bool {
    p.len() <= line.len() && line.take(p.len() as int) == p
}

/// `b` with every leading `refs/heads/` removed.
pub open spec fn strip_heads(b: Seq<char>) -> Seq<char>
    decreases b.len(),
{
    if "refs/heads/"@.len() > 0 && has_prefix(b, "refs/heads/"@) {
        strip_heads(b.skip("refs/heads/"@.len() as int))
    } else {
        b
    }
}

/// The state of reading a porcelain worktree listing: the records finished
/// so far, and the path, branch, head and bare flag of the record being read.
pub struct PorcelainState {
    pub records: Seq<(Seq<char>, Seq<char>, Seq<char>)>,
    pub path: Seq<char>,
    pub branch: Seq<char>,
    pub head: Seq<char>,
    pub bare: bool,
}

/// The records with the one being read, if it is a non-bare worktree with a
/// path and a branch or head.
pub open spec fn flushed(st: PorcelainState) -> Seq<(Seq<char>, Seq<char>, Seq<char>)> {
    if st.path.len() > 0 && !st.bare && (st.branch.len() > 0 || st.head.len() > 0) {
        st.records.push((st.path, st.branch, st.head))
    } else {
        st.records
    }
}

/// Reads one line of the listing.
pub open spec fn porcelain_step(st: PorcelainState, line: Seq<char>) -> PorcelainState {
    if has_prefix(line, "worktree "@) {
        PorcelainState {
            records: flushed(st),
            path: line.skip("worktree "@.len() as int),
            branch: Seq::empty(),
            head: Seq::empty(),
            bare: false,
        }
    } else if has_prefix(line, "branch "@) {
        PorcelainState { branch: strip_heads(line.skip("branch "@.len() as int)), ..st }
    } else if has_prefix(line, "HEAD "@) {
        PorcelainState { head: line.skip("HEAD "@.len() as int), ..st }
    } else if has_prefix(line, "detached"@) {
        PorcelainState { branch: "(detached)"@, ..st }
    } else if has_prefix(line, "bare"@) {
        PorcelainState { bare: true, ..st }
    } else {
        st
    }
}

/// The state after reading the lines `ls`.
pub open spec fn porcelain_fold(ls: Seq<Seq<char>>) -> PorcelainState
    decreases ls.len(),
{
    if ls.len() == 0 {
        PorcelainState {
            records: Seq::empty(),
            path: Seq::empty(),
            branch: Seq::empty(),
            head: Seq::empty(),
            bare: false,
        }
    } else {
        porcelain_step(porcelain_fold(ls.drop_last()), ls.last())
    }
}

/// The worktree records of a porcelain listing, as (path, branch, head).
pub open spec fn porcelain_records(output: Seq<char>) -> Seq<(Seq<char>, Seq<char>, Seq<char>)> {
    flushed(porcelain_fold(lines(output)))
}

/// The (path, branch, head) texts of parsed worktrees.
pub open spec fn record_views(v: Seq<ParsedWorktree>) -> Seq<(Seq<char>, Seq<char>, Seq<char>)> {
    v.map_values(|w: ParsedWorktree| (w.path@, w.branch@, w.head@))
}

fn strip_heads_exec(b: &str) -> (r: String)
    ensures
        r@ == strip_heads(b@),
{
    proof { reveal_strlit("refs/heads/"); }
    let mut cur = String::from_str(b);
    while starts_with(cur.as_str(), "refs/heads/")
        invariant
            strip_heads(cur@) == strip_heads(b@),
        decreases cur@.len(),
    {
        proof { reveal_strlit("refs/heads/"); }
        let n = cur.unicode_len();
        cur = String::from_str(cur.as_str().substring_char(11, n));
    }
    cur
}

fn rest_after(line: &str, k: usize) -> (r: String)
    requires
        k <= line@.len(),
    ensures
        r@ == line@.skip(k as int),
{
    let n = line.unicode_len();
    let r = String::from_str(line.substring_char(k, n));
    assert(r@ =~= line@.skip(k as int));
    r
}

/// Reads the porcelain listing of the worktrees: one record per non-bare
/// worktree that has a path and a branch or head, in listing order.
pub fn parse_worktrees(output: &str) -> (r: Vec<ParsedWorktree>)
    ensures
        record_views(r@) == porcelain_records(output@),
{
    proof {
        reveal_strlit("worktree ");
        reveal_strlit("branch ");
        reveal_strlit("HEAD ");
        reveal_strlit("detached");
        reveal_strlit("bare");
        reveal_strlit("(detached)");
    }
    let ls = split_lines(output);
    let mut records: Vec<ParsedWorktree> = Vec::new();
    let mut path = String::new();
    let mut branch = String::new();
    let mut head = String::new();
    let mut bare = false;
    let mut i: usize = 0;
    assert(texts(ls@).take(0) =~= Seq::<Seq<char>>::empty());
    assert(record_views(records@) =~= Seq::empty());
    while i < ls.len()
        invariant
            texts(ls@) == lines(output@),
            i <= ls@.len(),
            porcelain_fold(texts(ls@).take(i as int)) == (PorcelainState {
                records: record_views(records@),
                path: path@,
                branch: branch@,
                head: head@,
                bare: bare,
            }),
        decreases ls@.len() - i,
    {
        proof {
            reveal_strlit("worktree ");
            reveal_strlit("branch ");
            reveal_strlit("HEAD ");
            reveal_strlit("detached");
            reveal_strlit("bare");
            reveal_strlit("(detached)");
        }
        let line = ls[i].as_str();
        assert(texts(ls@).take(i + 1).drop_last() =~= texts(ls@).take(i as int));
        assert(texts(ls@).take(i + 1).last() == line@);
        if starts_with(line, "worktree ") {
            if path.unicode_len() > 0 && !bare && (branch.unicode_len() > 0 || head.unicode_len() > 0) {
                let ghost r0 = records@;
                records.push(ParsedWorktree { path: path.clone(), branch: branch.clone(), head: head.clone() });
                assert(record_views(records@) =~= record_views(r0).push((path@, branch@, head@)));
            }
            path = rest_after(line, 9);
            branch = String::new();
            head = String::new();
            bare = false;
        } else if starts_with(line, "branch ") {
            let rest = rest_after(line, 7);
            branch = strip_heads_exec(rest.as_str());
        } else if starts_with(line, "HEAD ") {
            head = rest_after(line, 5);
        } else if starts_with(line, "detached") {
            branch = String::from_str("(detached)");
        } else if starts_with(line, "bare") {
            bare = true;
        }
        i = i + 1;
    }
    assert(texts(ls@).take(i as int) =~= texts(ls@));
    if path.unicode_len() > 0 && !bare && (branch.unicode_len() > 0 || head.unicode_len() > 0) {
        let ghost r0 = records@;
        records.push(ParsedWorktree { path, branch, head });
        assert(record_views(records@) =~= record_views(r0).push((path@, branch@, head@)));
    }
    records
}


/// Whether the repository reported itself bare.
pub fn is_bare_repo(output: &str) -> (r: bool)
    ensures
        r == (output@ == "true"@),
{
    crate::text::compare_text(output, "true") == 0
}

/// The default branch named by origin's HEAD (`origin/<branch>`): the part
/// after the first slash, else `main`.
pub open spec fn default_branch_of(reference: Option<Seq<char>>) -> Seq<char> {
    match reference {
        Some(r) => if first_index_of(r, '/') >= 0 {
            r.skip(first_index_of(r, '/') + 1)
        } else {
            "main"@
        },
        None => "main"@,
    }
}

/// The default branch, from what the query for origin's HEAD printed
/// (nothing when it failed).
pub fn get_default_branch(reference: &Option<String>) -> (r: String)
    ensures
        r@ == default_branch_of(match reference {
            Some(s) => Some(s@),
            None => None,
        }),
{
    if let Some(s) = reference {
        if let Some(k) = find_char(s.as_str(), '/') {
            let n = s.unicode_len();
            let r = String::from_str(s.as_str().substring_char(k + 1, n));
            assert(r@ =~= s@.skip(k + 1));
            return r;
        }
    }
    String::from_str("main")
}

/// A number the collaborator printed, or 0 when there is none or it does not read as one.
pub open spec fn number_or_zero(t: Option<Seq<char>>) -> i64 {
    match t {
        Some(s) => match i64_text_value(s) {
            Some(v) => v,
            None => 0,
        },
        None => 0,
    }
}

/// The commit time printed for a ref, or 0 when the query failed.
pub fn get_last_commit_ts(output: &Option<String>) -> (r: i64)
    ensures
        r == number_or_zero(match output {
            Some(s) => Some(s@),
            None => None,
        }),
{
    match output {
        Some(s) => match parse_i64(s.as_str()) {
            Some(v) => v,
            None => 0,
        },
        None => 0,
    }
}

/// The ahead and behind counts printed as two words, each 0 when missing or
/// unreadable, both 0 when the query failed.
pub fn count_ahead_behind(output: &Option<String>) -> (r: AheadBehind)
    ensures
        match output {
            Some(s) => {
                let w = words(s@);
                &&& r.ahead == number_or_zero(if w.len() > 0 { Some(w[0]) } else { None })
                &&& r.behind == number_or_zero(if w.len() > 1 { Some(w[1]) } else { None })
            },
            None => r.ahead == 0 && r.behind == 0,
        },
{
    match output {
        Some(s) => {
            let w = split_words(s.as_str());
            let ahead = if w.len() > 0 {
                match parse_i64(w[0].as_str()) {
                    Some(v) => v,
                    None => 0,
                }
            } else {
                0
            };
            let behind = if w.len() > 1 {
                match parse_i64(w[1].as_str()) {
                    Some(v) => v,
                    None => 0,
                }
            } else {
                0
            };
            AheadBehind { ahead, behind }
        },
        None => AheadBehind { ahead: 0, behind: 0 },
    }
}

/// Whether the query for a local branch succeeded.
pub fn branch_exists(output: &Option<String>) -> (r: bool)
    ensures
        r == output is Some,
{
    output.is_some()
}

/// Whether the query for a legal branch name succeeded.
pub fn is_valid_branch_name(output: &Option<String>) -> (r: bool)
    ensures
        r == output is Some,
{
    output.is_some()
}

/// Whether origin listed the branch: the query succeeded and printed something.
pub fn remote_branch_exists(output: &Option<String>) -> (r: bool)
    ensures
        r == match output {
            Some(s) => trimmed(s@).len() > 0,
            None => false,
        },
{
    match output {
        Some(s) => trim(s.as_str()).unicode_len() > 0,
        None => false,
    }
}

/// Whether the status listing names any changed or untracked file.
pub fn has_uncommitted_changes(status: &str) -> (r: bool)
    ensures
        r == (trimmed(status@).len() > 0),
{
    trim(status).unicode_len() > 0
}

/// Whether a branch may hold commits that are not pushed: it has no
/// upstream, or it is ahead of it.
pub fn has_unpushed_commits(upstream: &Option<String>, counts: AheadBehind) -> (r: bool)
    ensures
        r == (upstream is None || counts.ahead > 0),
{
    upstream.is_none() || counts.ahead > 0
}

/// The branches of the listing, one per non-blank line, trimmed.
pub open spec fn branch_names(output: Seq<char>) -> Seq<Seq<char>> {
    lines(output).map_values(|l: Seq<char>| trimmed(l)).filter(|l: Seq<char>| l.len() > 0)
}

/// Reads the list of local branches.
pub fn list_local_branches(output: &str) -> (r: Vec<String>)
    ensures
        texts(r@) == branch_names(output@),
{
    let ls = split_lines(output);
    let mut r: Vec<String> = Vec::new();
    let mut i: usize = 0;
    while i < ls.len()
        invariant
            texts(ls@) == lines(output@),
            i <= ls@.len(),
            texts(r@) == texts(ls@).take(i as int).map_values(|l: Seq<char>| trimmed(l)).filter(
                |l: Seq<char>| l.len() > 0,
            ),
        decreases ls@.len() - i,
    {
        let t = trim(ls[i].as_str());
        proof {
            let pre = texts(ls@).take(i as int).map_values(|l: Seq<char>| trimmed(l));
            let post = texts(ls@).take(i + 1).map_values(|l: Seq<char>| trimmed(l));
            assert(post.drop_last() =~= pre);
            assert(post.last() == t@);
            reveal(Seq::filter);
        }
        if t.unicode_len() > 0 {
            let ghost r0 = r@;
            r.push(t);
            assert(texts(r@) =~= texts(r0).push(t@));
        }
        i = i + 1;
    }
    assert(texts(ls@).take(i as int) =~= texts(ls@));
    r
}

/// The worktrees that are on a branch, in listing order: the map from each
/// branch to its worktree.
pub fn worktree_branch_map(worktrees: &Vec<ParsedWorktree>) -> (r: Vec<ParsedWorktree>)
    ensures
        r@ == worktrees@.filter(|w: ParsedWorktree| !is_headless_name(w.branch@)),
{
    let mut r: Vec<ParsedWorktree> = Vec::new();
    let mut i: usize = 0;
    while i < worktrees.len()
        invariant
            i <= worktrees@.len(),
            r@ == worktrees@.take(i as int).filter(|w: ParsedWorktree| !is_headless_name(w.branch@)),
        decreases worktrees@.len() - i,
    {
        let w = &worktrees[i];
        assert(worktrees@.take(i + 1).drop_last() =~= worktrees@.take(i as int));
        assert(worktrees@.take(i + 1).last() == *w);
        reveal(Seq::filter);
        if !is_headless_branch(w.branch.as_str()) {
            r.push(w.duplicate());
        }
        i = i + 1;
    }
    assert(worktrees@.take(i as int) =~= worktrees@);
    r
}


/// `v` held to the range of a 64-bit signed integer.
pub open spec fn saturate(v: int) -> int {
    if v > i64::MAX {
        i64::MAX as int
    } else if v < i64::MIN {
        i64::MIN as int
    } else {
        v
    }
}

fn saturating_add(a: i64, b: i64) -> (r: i64)
    ensures
        r == saturate(a + b),
{
    if b > 0 && a > i64::MAX - b {
        i64::MAX
    } else if b < 0 && a < i64::MIN - b {
        i64::MIN
    } else {
        a + b
    }
}

/// The first two tab-separated fields of a line; the second is absent when
/// the line has no tab.
pub open spec fn tab_fields(line: Seq<char>) -> (Seq<char>, Option<Seq<char>>) {
    let k = first_index_of(line, '\t');
    if k < 0 {
        (line, None)
    } else {
        let rest = line.skip(k + 1);
        let j = first_index_of(rest, '\t');
        (line.take(k), Some(if j < 0 { rest } else { rest.take(j) }))
    }
}

/// The added and deleted line totals of a numstat listing: lines whose first
/// two fields both read as numbers count, others are skipped.
pub open spec fn numstat_totals(ls: Seq<Seq<char>>) -> (int, int)
    decreases ls.len(),
{
    if ls.len() == 0 {
        (0, 0)
    } else {
        let (a, d) = numstat_totals(ls.drop_last());
        let (f0, f1) = tab_fields(ls.last());
        match (i64_text_value(f0), f1) {
            (Some(x), Some(t)) => match i64_text_value(t) {
                Some(y) => (saturate(a + x), saturate(d + y)),
                None => (a, d),
            },
            _ => (a, d),
        }
    }
}

/// The lines of a status listing that name an untracked file.
pub open spec fn untracked_lines(status: Seq<char>) -> nat {
    lines(status).filter(|l: Seq<char>| has_prefix(l, "?? "@)).len()
}

fn tab_fields_exec(line: &str) -> (r: (String, Option<String>))
    ensures
        r.0@ == tab_fields(line@).0,
        match (r.1, tab_fields(line@).1) {
            (Some(a), Some(b)) => a@ == b,
            (None, None) => true,
            _ => false,
        },
{
    let n = line.unicode_len();
    match find_char(line, '\t') {
        None => (String::from_str(line), None),
        Some(k) => {
            let first = String::from_str(line.substring_char(0, k));
            let rest = line.substring_char(k + 1, n);
            assert(rest@ =~= line@.skip(k + 1));
            assert(first@ =~= line@.take(k as int));
            let m = rest.unicode_len();
            let second = match find_char(rest, '\t') {
                None => String::from_str(rest),
                Some(j) => {
                    let t = String::from_str(rest.substring_char(0, j));
                    assert(t@ =~= rest@.take(j as int));
                    t
                },
            };
            (first, Some(second))
        },
    }
}

/// The diff statistics of a worktree from its status listing and its
/// numstat listing: changed lines plus one added line per untracked file,
/// deleted lines, and whether the status lists anything. A worktree whose
/// directory is gone has none.
pub fn diff_counts(is_dir: bool, status: &str, numstat: &str) -> (r: DiffStat)
    ensures
        !is_dir ==> r.additions == 0 && r.deletions == 0 && !r.dirty,
        is_dir ==> {
            let (a, d) = numstat_totals(lines(numstat@));
            &&& r.dirty == (trimmed(status@).len() > 0)
            &&& r.additions == saturate(a + saturate(untracked_lines(status@) as int))
            &&& r.deletions == d
        },
{
    if !is_dir {
        return DiffStat { additions: 0, deletions: 0, dirty: false };
    }
    let dirty = trim(status).unicode_len() > 0;
    let ls = split_lines(numstat);
    let mut additions: i64 = 0;
    let mut deletions: i64 = 0;
    let mut i: usize = 0;
    assert(texts(ls@).take(0) =~= Seq::<Seq<char>>::empty());
    while i < ls.len()
        invariant
            texts(ls@) == lines(numstat@),
            i <= ls@.len(),
            (additions as int, deletions as int) == numstat_totals(texts(ls@).take(i as int)),
        decreases ls@.len() - i,
    {
        assert(texts(ls@).take(i + 1).drop_last() =~= texts(ls@).take(i as int));
        assert(texts(ls@).take(i + 1).last() == ls@[i as int]@);
        let (f0, f1) = tab_fields_exec(ls[i].as_str());
        match (parse_i64(f0.as_str()), f1) {
            (Some(x), Some(t)) => match parse_i64(t.as_str()) {
                Some(y) => {
                    additions = saturating_add(additions, x);
                    deletions = saturating_add(deletions, y);
                },
                None => {},
            },
            _ => {},
        }
        i = i + 1;
    }
    assert(texts(ls@).take(i as int) =~= texts(ls@));
    let sl = split_lines(status);
    let mut untracked: i64 = 0;
    let mut k: usize = 0;
    proof { reveal_strlit("?? "); }
    while k < sl.len()
        invariant
            texts(sl@) == lines(status@),
            k <= sl@.len(),
            untracked as int == saturate(texts(sl@).take(k as int).filter(|l: Seq<char>| has_prefix(l, "?? "@)).len() as int),
            untracked >= 0,
        decreases sl@.len() - k,
    {
        assert(texts(sl@).take(k + 1).drop_last() =~= texts(sl@).take(k as int));
        assert(texts(sl@).take(k + 1).last() == sl@[k as int]@);
        reveal(Seq::filter);
        if starts_with(sl[k].as_str(), "?? ") && untracked < i64::MAX {
            untracked = untracked + 1;
        }
        k = k + 1;
    }
    assert(texts(sl@).take(k as int) =~= texts(sl@));
    DiffStat { additions: saturating_add(additions, untracked), deletions, dirty }
}

/// The entry directly under `root` through which the path `p` passes, if
/// `p` lies strictly inside `root`.
pub open spec fn entry_under(root: Seq<char>, p: Seq<char>) -> Option<Seq<char>> {
    let base = root + seq!['/'];
    if has_prefix(p, base) {
        let rel = p.skip(base.len() as int);
        let k = first_index_of(rel, '/');
        let first = if k < 0 { rel } else { rel.take(k) };
        if first.len() > 0 { Some(first) } else { None }
    } else {
        None
    }
}

fn entry_under_exec(root: &str, p: &str) -> (r: Option<String>)
    ensures
        match (r, entry_under(root@, p@)) {
            (Some(a), Some(b)) => a@ == b,
            (None, None) => true,
            _ => false,
        },
{
    let mut base = String::from_str(root);
    proof { reveal_strlit("/"); }
    base.append("/");
    assert(base@ =~= root@ + seq!['/']);
    if !starts_with(p, base.as_str()) {
        return None;
    }
    let n = p.unicode_len();
    let b = base.unicode_len();
    let rel = p.substring_char(b, n);
    assert(rel@ =~= p@.skip(b as int));
    let first = match find_char(rel, '/') {
        None => String::from_str(rel),
        Some(k) => {
            let f = String::from_str(rel.substring_char(0, k));
            assert(f@ =~= rel@.take(k as int));
            f
        },
    };
    if first.unicode_len() > 0 {
        Some(first)
    } else {
        None
    }
}

/// The names directly under the root that conversion must leave in place:
/// the repository's directory, the tool's settings directory, and the first
/// component of every worktree path inside the root (paths given resolved,
/// the root's own path included), sorted and without duplicates.
pub fn get_entries_to_preserve(repo_root: &str, worktree_paths: &Vec<String>) -> (r: Vec<String>)
    ensures
        strictly_sorted(texts(r@)),
        forall|x: Seq<char>|
            texts(r@).contains(x) <==> (x == ".git"@ || x == ".gw"@ || exists|i: int|
                0 <= i < worktree_paths@.len() && entry_under(repo_root@, #[trigger] worktree_paths@[i]@)
                    == Some(x)),
{
    let mut keep: Vec<String> = Vec::new();
    insert_sorted_unique(&mut keep, String::from_str(".git"));
    insert_sorted_unique(&mut keep, String::from_str(".gw"));
    let mut i: usize = 0;
    while i < worktree_paths.len()
        invariant
            i <= worktree_paths@.len(),
            strictly_sorted(texts(keep@)),
            forall|x: Seq<char>|
                texts(keep@).contains(x) <==> (x == ".git"@ || x == ".gw"@ || exists|j: int|
                    0 <= j < i && entry_under(repo_root@, #[trigger] worktree_paths@[j]@) == Some(x)),
        decreases worktree_paths@.len() - i,
    {
        let e = entry_under_exec(repo_root, worktree_paths[i].as_str());
        let ghost k0 = texts(keep@);
        match e {
            Some(name) => {
                let ghost nv = name@;
                insert_sorted_unique(&mut keep, name);
                assert forall|x: Seq<char>|
                    texts(keep@).contains(x) <==> (x == ".git"@ || x == ".gw"@ || exists|j: int|
                        0 <= j < i + 1 && entry_under(repo_root@, #[trigger] worktree_paths@[j]@) == Some(x)) by {
                    if exists|j: int| 0 <= j < i + 1 && entry_under(repo_root@, #[trigger] worktree_paths@[j]@) == Some(x) {
                        let j = choose|j: int| 0 <= j < i + 1 && entry_under(repo_root@, #[trigger] worktree_paths@[j]@) == Some(x);
                        if j < i {
                            assert(k0.contains(x));
                        }
                    }
                    if x == nv {
                        assert(entry_under(repo_root@, worktree_paths@[i as int]@) == Some(x));
                    }
                }
            },
            None => {
                assert forall|x: Seq<char>|
                    texts(keep@).contains(x) <==> (x == ".git"@ || x == ".gw"@ || exists|j: int|
                        0 <= j < i + 1 && entry_under(repo_root@, #[trigger] worktree_paths@[j]@) == Some(x)) by {
                    if exists|j: int| 0 <= j < i + 1 && entry_under(repo_root@, #[trigger] worktree_paths@[j]@) == Some(x) {
                        let j = choose|j: int| 0 <= j < i + 1 && entry_under(repo_root@, #[trigger] worktree_paths@[j]@) == Some(x);
                        assert(j < i);
                    }
                }
            },
        }
        i = i + 1;
    }
    keep
}

} // verus!
