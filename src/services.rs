//! The list of worktree rows: building it from what the collaborators
//! reported, keeping it in recency order, and folding refreshed values into it.
use vstd::prelude::*;
use vstd::pervasive::VecAdditionalExecFns;
use crate::models::{
    copy_opt_string, is_headless_branch, is_headless_name, AheadBehind, CachedWorktree, ChecksInfo,
    DiffStat, ParsedWorktree, PullRequestInfo, WorktreeInfo,
};

verus! {

broadcast use vstd::seq_lib::group_to_multiset_ensures;

/// The identity key of a worktree: its branch, or `detached:<head>` without one.
pub open spec fn cache_key_of(branch: Seq<char>, head: Seq<char>) -> Seq<char> {
    if is_headless_name(branch) {
        "detached:"@ + head
    } else {
        branch
    }
}

/// The identity key of a worktree: its branch, or `detached:<head>` without one.
pub fn make_cache_key(branch: &str, head: &str) -> (r: String)
    ensures
        r@ == cache_key_of(branch@, head@),
{
    if is_headless_branch(branch) {
        let mut r = String::from_str("detached:");
        r.append(head);
        r
    } else {
        String::from_str(branch)
    }
}

/// The branch ref of a listed worktree: none when it is headless.
pub fn ref_name_of(w: &ParsedWorktree) -> (r: Option<String>)
    ensures
        r == if is_headless_name(w.branch@) { None } else { Some(w.branch) },
{
    if is_headless_branch(w.branch.as_str()) {
        None
    } else {
        Some(w.branch.clone())
    }
}

/// The ref whose commits describe a worktree: its branch, else its head commit.
pub fn commit_target(w: &ParsedWorktree) -> (r: String)
    ensures
        r@ == if is_headless_name(w.branch@) { w.head@ } else { w.branch@ },
{
    if is_headless_branch(w.branch.as_str()) {
        w.head.clone()
    } else {
        w.branch.clone()
    }
}

/// What the collaborators report about one listed worktree: whether its
/// directory exists, the time of its last commit, its counts against its
/// upstream (none without a branch or an upstream), its counts against the
/// default branch, and what the cache store holds for its key.
pub struct WorktreeFacts {
    pub worktree: ParsedWorktree,
    pub is_dir: bool,
    pub last_commit_ts: i64,
    pub upstream_counts: Option<AheadBehind>,
    pub default_counts: AheadBehind,
    pub cached: Option<CachedWorktree>,
}

/// The row built from the facts of one worktree: cached values stand in the
/// refreshable groups, none of which is validated yet.
pub open spec fn row_of(f: WorktreeFacts) -> WorktreeInfo {
    let w = f.worktree;
    let has_ref = !is_headless_name(w.branch@);
    let up = has_ref && f.upstream_counts is Some;
    WorktreeInfo {
        path: w.path,
        branch: if w.branch@.len() == 0 { w.head } else { w.branch },
        head: w.head,
        ref_name: if has_ref { Some(w.branch) } else { None },
        cache_key: f.worktree.branch,
        last_commit_ts: f.last_commit_ts,
        pull: if up { f.upstream_counts->0.behind } else { 0 },
        push: if up { f.upstream_counts->0.ahead } else { 0 },
        pull_push_validated: false,
        has_upstream: up,
        behind: f.default_counts.behind,
        ahead: f.default_counts.ahead,
        additions: match f.cached { Some(c) => c.additions, None => 0 },
        deletions: match f.cached { Some(c) => c.deletions, None => 0 },
        dirty: match f.cached { Some(c) => c.dirty, None => false },
        pr_number: match f.cached { Some(c) => c.pr_number, None => None },
        pr_state: match f.cached { Some(c) => c.pr_state, None => None },
        pr_base: match f.cached { Some(c) => c.pr_base, None => None },
        pr_url: match f.cached { Some(c) => c.pr_url, None => None },
        pr_validated: false,
        checks_passed: match f.cached { Some(c) => c.checks_passed, None => None },
        checks_total: match f.cached { Some(c) => c.checks_total, None => None },
        checks_state: match f.cached { Some(c) => c.checks_state, None => None },
        checks_validated: false,
        changes_validated: false,
    }
}

/// `a` agrees with `row_of(f)` in every field but the key, whose text is `w`'s identity key.
pub open spec fn is_row_of(a: WorktreeInfo, f: WorktreeFacts) -> bool {
    &&& a.cache_key@ == cache_key_of(f.worktree.branch@, f.worktree.head@)
    &&& a == WorktreeInfo { cache_key: a.cache_key, ..row_of(f) }
}

/// Builds the row of one worktree from its facts.
pub fn build_row(f: &WorktreeFacts) -> (r: WorktreeInfo)
    ensures
        is_row_of(r, *f),
{
    let w = &f.worktree;
    let ref_name = ref_name_of(w);
    let up = ref_name.is_some() && f.upstream_counts.is_some();
    let mut pull: i64 = 0;
    let mut push: i64 = 0;
    if up {
        if let Some(c) = f.upstream_counts {
            pull = c.behind;
            push = c.ahead;
        }
    }
    let (additions, deletions, dirty, pr_number, pr_state, pr_base, pr_url) = match &f.cached {
        Some(c) => (c.additions, c.deletions, c.dirty, c.pr_number, copy_opt_string(&c.pr_state),
            copy_opt_string(&c.pr_base), copy_opt_string(&c.pr_url)),
        None => (0i64, 0i64, false, None, None, None, None),
    };
    let (checks_passed, checks_total, checks_state) = match &f.cached {
        Some(c) => (c.checks_passed, c.checks_total, copy_opt_string(&c.checks_state)),
        None => (None, None, None),
    };
    let r = WorktreeInfo {
        path: w.path.clone(),
        branch: if w.branch.unicode_len() == 0 { w.head.clone() } else { w.branch.clone() },
        head: w.head.clone(),
        ref_name,
        cache_key: make_cache_key(w.branch.as_str(), w.head.as_str()),
        last_commit_ts: f.last_commit_ts,
        pull,
        push,
        pull_push_validated: false,
        has_upstream: up,
        behind: f.default_counts.behind,
        ahead: f.default_counts.ahead,
        additions,
        deletions,
        dirty,
        pr_number,
        pr_state,
        pr_base,
        pr_url,
        pr_validated: false,
        checks_passed,
        checks_total,
        checks_state,
        checks_validated: false,
        changes_validated: false,
    };
    r
}

/// Rows in descending order of last-commit time.
pub open spec fn by_recency(s: Seq<WorktreeInfo>) -> bool {
    forall|i: int, j: int|
        0 <= i < j < s.len() ==> #[trigger] s[i].last_commit_ts >= #[trigger] s[j].last_commit_ts
}

/// Inserts `x` after every row at least as recent, keeping the order.
fn insert_by_recency(v: &mut Vec<WorktreeInfo>, x: WorktreeInfo)
    requires
        by_recency(old(v)@),
    ensures
        by_recency(final(v)@),
        final(v)@.len() == old(v)@.len() + 1,
        final(v)@.to_multiset() == old(v)@.to_multiset().insert(x),
{
    let n = v.len();
    let mut i: usize = 0;
    while i < n && v[i].last_commit_ts >= x.last_commit_ts
        invariant
            n == v@.len(),
            i <= n,
            v@ == old(v)@,
            forall|k: int| 0 <= k < i ==> #[trigger] v@[k].last_commit_ts >= x.last_commit_ts,
        decreases n - i,
    {
        i = i + 1;
    }
    let ghost v0 = v@;
    let ghost xv = x;
    v.insert(i, x);
    proof {
        vstd::seq_lib::to_multiset_insert(v0, i as int, xv);
        assert(v@ == v0.insert(i as int, xv));
        assert forall|a: int, b: int| 0 <= a < b < v@.len() implies #[trigger] v@[a].last_commit_ts
            >= #[trigger] v@[b].last_commit_ts by {
            if a < i && b == i {
            } else if a < i && b > i {
                assert(v@[b] == v0[b - 1]);
            } else if a == i {
                assert(v@[b] == v0[b - 1]);
                assert(v0[i as int].last_commit_ts < xv.last_commit_ts);
            } else if a > i {
                assert(v@[a] == v0[a - 1] && v@[b] == v0[b - 1]);
            } else {
                assert(v@[a] == v0[a] && v@[b] == v0[b]);
            }
        }
    }
}

/// The facts of the worktrees whose directory exists.
pub open spec fn present(facts: Seq<WorktreeFacts>) -> Seq<WorktreeFacts> {
    facts.filter(|f: WorktreeFacts| f.is_dir)
}

/// Builds the list of rows: one for each worktree whose directory exists,
/// most recent last commit first.
pub fn load_worktrees(facts: &Vec<WorktreeFacts>) -> (r: Vec<WorktreeInfo>)
    ensures
        by_recency(r@),
        r@.len() == present(facts@).len(),
        exists|rows: Seq<WorktreeInfo>|
            #![trigger rows.len()]
            rows.len() == present(facts@).len() && (forall|k: int|
                0 <= k < rows.len() ==> is_row_of(#[trigger] rows[k], present(facts@)[k]))
                && rows.to_multiset() == r@.to_multiset(),
{
    let mut r: Vec<WorktreeInfo> = Vec::new();
    let ghost mut rows: Seq<WorktreeInfo> = Seq::empty();
    let mut i: usize = 0;
    while i < facts.len()
        invariant
            i <= facts@.len(),
            by_recency(r@),
            rows.len() == present(facts@.take(i as int)).len(),
            forall|k: int|
                0 <= k < rows.len() ==> is_row_of(#[trigger] rows[k], present(facts@.take(i as int))[k]),
            rows.to_multiset() == r@.to_multiset(),
            r@.len() == rows.len(),
        decreases facts@.len() - i,
    {
        let f = &facts[i];
        assert(facts@.take(i + 1).drop_last() =~= facts@.take(i as int));
        assert(facts@.take(i + 1).last() == *f);
        reveal(Seq::filter);
        if f.is_dir {
            let row = build_row(f);
            proof {
                rows = rows.push(row);
            }
            insert_by_recency(&mut r, row);
        }
        i = i + 1;
    }
    assert(facts@.take(i as int) =~= facts@);
    r
}


/// A row after its pull/push group was refreshed: a detached row or one
/// without an upstream has no counts; the group is validated either way.
pub open spec fn with_pull_push(item: WorktreeInfo, upstream: Option<AheadBehind>) -> WorktreeInfo {
    let up = item.ref_name is Some && upstream is Some;
    WorktreeInfo {
        pull: if up { upstream->0.behind } else { 0 },
        push: if up { upstream->0.ahead } else { 0 },
        has_upstream: up,
        pull_push_validated: true,
        ..item
    }
}

/// A row after its diff-stat group was refreshed; a row whose directory is
/// gone (`None`) is left as it was.
pub open spec fn with_changes(item: WorktreeInfo, stats: Option<DiffStat>) -> WorktreeInfo {
    match stats {
        Some(d) => WorktreeInfo {
            additions: d.additions,
            deletions: d.deletions,
            dirty: d.dirty,
            changes_validated: true,
            ..item
        },
        None => item,
    }
}

/// What the code host reports for a branch: its pull request and, if known,
/// the summary of that request's checks.
pub struct PrReport {
    pub pr: PullRequestInfo,
    pub checks: Option<ChecksInfo>,
}

/// A row after its pull-request and checks groups were refreshed: a detached
/// row, or one for which the host knows no pull request, has none; both
/// groups are validated either way.
pub open spec fn with_pr(item: WorktreeInfo, report: Option<PrReport>) -> WorktreeInfo {
    match report {
        Some(p) if item.ref_name is Some => WorktreeInfo {
            pr_number: Some(p.pr.number),
            pr_state: Some(p.pr.state),
            pr_base: p.pr.base,
            pr_url: p.pr.url,
            pr_validated: true,
            checks_passed: match p.checks { Some(c) => Some(c.passed), None => None },
            checks_total: match p.checks { Some(c) => Some(c.total), None => None },
            checks_state: match p.checks { Some(c) => c.state, None => None },
            checks_validated: true,
            ..item
        },
        _ => WorktreeInfo {
            pr_number: None,
            pr_state: None,
            pr_base: None,
            pr_url: None,
            pr_validated: true,
            checks_passed: None,
            checks_total: None,
            checks_state: None,
            checks_validated: true,
            ..item
        },
    }
}

fn pull_push_row(item: &WorktreeInfo, upstream: Option<AheadBehind>) -> (r: WorktreeInfo)
    ensures
        r == with_pull_push(*item, upstream),
{
    let mut r = item.duplicate();
    let mut pull: i64 = 0;
    let mut push: i64 = 0;
    let mut up = false;
    if item.ref_name.is_some() {
        if let Some(c) = upstream {
            pull = c.behind;
            push = c.ahead;
            up = true;
        }
    }
    r.pull = pull;
    r.push = push;
    r.has_upstream = up;
    r.pull_push_validated = true;
    r
}

fn changes_row(item: &WorktreeInfo, stats: Option<DiffStat>) -> (r: WorktreeInfo)
    ensures
        r == with_changes(*item, stats),
{
    let mut r = item.duplicate();
    if let Some(d) = stats {
        r.additions = d.additions;
        r.deletions = d.deletions;
        r.dirty = d.dirty;
        r.changes_validated = true;
    }
    r
}

fn pr_row(item: &WorktreeInfo, report: &Option<PrReport>) -> (r: WorktreeInfo)
    ensures
        r == with_pr(*item, *report),
{
    let mut r = item.duplicate();
    match report {
        Some(p) if item.ref_name.is_some() => {
            r.pr_number = Some(p.pr.number);
            r.pr_state = Some(p.pr.state.clone());
            r.pr_base = copy_opt_string(&p.pr.base);
            r.pr_url = copy_opt_string(&p.pr.url);
            match &p.checks {
                Some(c) => {
                    r.checks_passed = Some(c.passed);
                    r.checks_total = Some(c.total);
                    r.checks_state = copy_opt_string(&c.state);
                },
                None => {
                    r.checks_passed = None;
                    r.checks_total = None;
                    r.checks_state = None;
                },
            }
        },
        _ => {
            r.pr_number = None;
            r.pr_state = None;
            r.pr_base = None;
            r.pr_url = None;
            r.checks_passed = None;
            r.checks_total = None;
            r.checks_state = None;
        },
    }
    r.pr_validated = true;
    r.checks_validated = true;
    r
}

/// Refreshes the pull/push group of every row from its upstream counts
/// (`upstream[i]` is none when row `i` has no upstream).
pub fn refresh_pull_push(items: &mut Vec<WorktreeInfo>, upstream: &Vec<Option<AheadBehind>>)
    requires
        upstream@.len() == old(items)@.len(),
    ensures
        final(items)@.len() == old(items)@.len(),
        forall|i: int|
            0 <= i < final(items)@.len() ==> #[trigger] final(items)@[i] == with_pull_push(
                old(items)@[i],
                upstream@[i],
            ),
{
    let n = items.len();
    let mut i: usize = 0;
    while i < n
        invariant
            n == items@.len(),
            n == old(items)@.len(),
            upstream@.len() == n,
            i <= n,
            forall|k: int| 0 <= k < i ==> #[trigger] items@[k] == with_pull_push(old(items)@[k], upstream@[k]),
            forall|k: int| i <= k < n ==> #[trigger] items@[k] == old(items)@[k],
        decreases n - i,
    {
        let row = pull_push_row(&items[i], upstream[i]);
        items.set(i, row);
        i = i + 1;
    }
}

/// Refreshes the diff-stat group of every row whose directory still exists
/// (`stats[i]` is none when it does not).
pub fn refresh_changes(items: &mut Vec<WorktreeInfo>, stats: &Vec<Option<DiffStat>>)
    requires
        stats@.len() == old(items)@.len(),
    ensures
        final(items)@.len() == old(items)@.len(),
        forall|i: int|
            0 <= i < final(items)@.len() ==> #[trigger] final(items)@[i] == with_changes(
                old(items)@[i],
                stats@[i],
            ),
{
    let n = items.len();
    let mut i: usize = 0;
    while i < n
        invariant
            n == items@.len(),
            n == old(items)@.len(),
            stats@.len() == n,
            i <= n,
            forall|k: int| 0 <= k < i ==> #[trigger] items@[k] == with_changes(old(items)@[k], stats@[k]),
            forall|k: int| i <= k < n ==> #[trigger] items@[k] == old(items)@[k],
        decreases n - i,
    {
        let row = changes_row(&items[i], stats[i]);
        items.set(i, row);
        i = i + 1;
    }
}

/// Refreshes the pull-request and checks groups of every row (`reports[i]`
/// is none when the host knows no pull request for row `i`).
pub fn refresh_github(items: &mut Vec<WorktreeInfo>, reports: &Vec<Option<PrReport>>)
    requires
        reports@.len() == old(items)@.len(),
    ensures
        final(items)@.len() == old(items)@.len(),
        forall|i: int|
            0 <= i < final(items)@.len() ==> #[trigger] final(items)@[i] == with_pr(
                old(items)@[i],
                reports@[i],
            ),
{
    let n = items.len();
    let mut i: usize = 0;
    while i < n
        invariant
            n == items@.len(),
            n == old(items)@.len(),
            reports@.len() == n,
            i <= n,
            forall|k: int| 0 <= k < i ==> #[trigger] items@[k] == with_pr(old(items)@[k], reports@[k]),
            forall|k: int| i <= k < n ==> #[trigger] items@[k] == old(items)@[k],
        decreases n - i,
    {
        let row = pr_row(&items[i], &reports[i]);
        items.set(i, row);
        i = i + 1;
    }
}

/// A row after a full refresh; the pull-request groups only when the code
/// host is available.
pub open spec fn refreshed_row(
    item: WorktreeInfo,
    upstream: Option<AheadBehind>,
    stats: Option<DiffStat>,
    report: Option<PrReport>,
    gh_available: bool,
) -> WorktreeInfo {
    let r = with_changes(with_pull_push(item, upstream), stats);
    if gh_available {
        with_pr(r, report)
    } else {
        r
    }
}

/// Refreshes every group of every row from the collaborators' results.
pub fn refresh_from_upstream(
    items: &mut Vec<WorktreeInfo>,
    upstream: &Vec<Option<AheadBehind>>,
    stats: &Vec<Option<DiffStat>>,
    reports: &Vec<Option<PrReport>>,
    gh_available: bool,
)
    requires
        upstream@.len() == old(items)@.len(),
        stats@.len() == old(items)@.len(),
        reports@.len() == old(items)@.len(),
    ensures
        final(items)@.len() == old(items)@.len(),
        forall|i: int|
            0 <= i < final(items)@.len() ==> #[trigger] final(items)@[i] == refreshed_row(
                old(items)@[i],
                upstream@[i],
                stats@[i],
                reports@[i],
                gh_available,
            ),
{
    refresh_pull_push(items, upstream);
    refresh_changes(items, stats);
    if gh_available {
        refresh_github(items, reports);
    }
}

/// The position of the last row of `r` keyed `key`, or -1 if none is.
pub open spec fn last_with_key(r: Seq<WorktreeInfo>, key: Seq<char>) -> int
    decreases r.len(),
{
    if r.len() == 0 {
        -1
    } else if r.last().cache_key@ == key {
        r.len() - 1
    } else {
        last_with_key(r.drop_last(), key)
    }
}

proof fn lemma_last_with_key(r: Seq<WorktreeInfo>, key: Seq<char>)
    ensures
        -1 <= last_with_key(r, key) < r.len(),
        last_with_key(r, key) >= 0 ==> r[last_with_key(r, key)].cache_key@ == key,
        forall|k: int| last_with_key(r, key) < k < r.len() ==> r[k].cache_key@ != key,
    decreases r.len(),
{
    if r.len() > 0 {
        lemma_last_with_key(r.drop_last(), key);
        assert forall|k: int| last_with_key(r, key) < k < r.len() implies r[k].cache_key@ != key by {
            if k < r.len() - 1 {
                assert(r[k] == r.drop_last()[k]);
            }
        }
    }
}

/// `c` with the refreshable groups of `n`: pull/push, upstream flag, diff
/// stats, pull request and checks, with their validated flags.
pub open spec fn take_refreshable(c: WorktreeInfo, n: WorktreeInfo) -> WorktreeInfo {
    WorktreeInfo {
        pull: n.pull,
        push: n.push,
        pull_push_validated: n.pull_push_validated,
        has_upstream: n.has_upstream,
        additions: n.additions,
        deletions: n.deletions,
        dirty: n.dirty,
        pr_number: n.pr_number,
        pr_state: n.pr_state,
        pr_base: n.pr_base,
        pr_url: n.pr_url,
        pr_validated: n.pr_validated,
        checks_passed: n.checks_passed,
        checks_total: n.checks_total,
        checks_state: n.checks_state,
        checks_validated: n.checks_validated,
        changes_validated: n.changes_validated,
        ..c
    }
}

/// The merge of refreshed rows into the current list: each current row whose
/// key some refreshed row has takes the refreshable groups of the last such
/// row; every other row stays as it is.
pub open spec fn merged(c: Seq<WorktreeInfo>, r: Seq<WorktreeInfo>) -> Seq<WorktreeInfo> {
    Seq::new(
        c.len(),
        |i: int|
            {
                let j = last_with_key(r, c[i].cache_key@);
                if j >= 0 {
                    take_refreshable(c[i], r[j])
                } else {
                    c[i]
                }
            },
    )
}

fn find_last_key(r: &Vec<WorktreeInfo>, key: &str) -> (res: Option<usize>)
    ensures
        match res {
            Some(j) => j as int == last_with_key(r@, key@) && j < r@.len(),
            None => last_with_key(r@, key@) == -1,
        },
{
    proof { lemma_last_with_key(r@, key@); }
    let mut j: usize = r.len();
    while j > 0
        invariant
            j <= r@.len(),
            forall|k: int| j <= k < r@.len() ==> r@[k].cache_key@ != key@,
            -1 <= last_with_key(r@, key@) < r@.len(),
            last_with_key(r@, key@) >= 0 ==> r@[last_with_key(r@, key@)].cache_key@ == key@,
            forall|k: int| last_with_key(r@, key@) < k < r@.len() ==> r@[k].cache_key@ != key@,
        decreases j,
    {
        if crate::text::compare_text(r[j - 1].cache_key.as_str(), key) == 0 {
            return Some(j - 1);
        }
        j = j - 1;
    }
    None
}

fn refreshable_from(c: &WorktreeInfo, n: &WorktreeInfo) -> (r: WorktreeInfo)
    ensures
        r == take_refreshable(*c, *n),
{
    let mut r = c.duplicate();
    r.pull = n.pull;
    r.push = n.push;
    r.pull_push_validated = n.pull_push_validated;
    r.has_upstream = n.has_upstream;
    r.additions = n.additions;
    r.deletions = n.deletions;
    r.dirty = n.dirty;
    r.pr_number = n.pr_number;
    r.pr_state = copy_opt_string(&n.pr_state);
    r.pr_base = copy_opt_string(&n.pr_base);
    r.pr_url = copy_opt_string(&n.pr_url);
    r.pr_validated = n.pr_validated;
    r.checks_passed = n.checks_passed;
    r.checks_total = n.checks_total;
    r.checks_state = copy_opt_string(&n.checks_state);
    r.checks_validated = n.checks_validated;
    r.changes_validated = n.changes_validated;
    r
}

/// Folds a completed refresh into the current list by identity key.
pub fn merge_refreshed_items(current: &mut Vec<WorktreeInfo>, refreshed: &Vec<WorktreeInfo>)
    ensures
        final(current)@ == merged(old(current)@, refreshed@),
{
    let n = current.len();
    let mut i: usize = 0;
    while i < n
        invariant
            n == current@.len(),
            n == old(current)@.len(),
            i <= n,
            forall|k: int| 0 <= k < i ==> #[trigger] current@[k] == merged(old(current)@, refreshed@)[k],
            forall|k: int| i <= k < n ==> #[trigger] current@[k] == old(current)@[k],
        decreases n - i,
    {
        match find_last_key(refreshed, current[i].cache_key.as_str()) {
            Some(j) => {
                let row = refreshable_from(&current[i], &refreshed[j]);
                current.set(i, row);
            },
            None => {},
        }
        i = i + 1;
    }
    assert(current@ =~= merged(old(current)@, refreshed@));
}

/// The fields that no refresh touches are equal.
pub open spec fn same_identity(a: WorktreeInfo, b: WorktreeInfo) -> bool {
    &&& a.path == b.path
    &&& a.branch == b.branch
    &&& a.head == b.head
    &&& a.ref_name == b.ref_name
    &&& a.cache_key == b.cache_key
    &&& a.last_commit_ts == b.last_commit_ts
    &&& a.behind == b.behind
    &&& a.ahead == b.ahead
}

/// Merging is local and idempotent: a row whose key no refreshed row has is
/// unchanged, every row keeps its identity fields and takes exactly the
/// refreshable groups of its refreshed counterpart, and merging the same
/// refreshed rows a second time changes nothing.
pub proof fn lemma_merge_local_idempotent(c: Seq<WorktreeInfo>, r: Seq<WorktreeInfo>)
    ensures
        merged(c, r).len() == c.len(),
        forall|i: int|
            0 <= i < c.len() ==> {
                let m = #[trigger] merged(c, r)[i];
                &&& same_identity(m, c[i])
                &&& (forall|j: int| 0 <= j < r.len() ==> r[j].cache_key@ != c[i].cache_key@)
                    ==> m == c[i]
                &&& (exists|j: int| 0 <= j < r.len() && r[j].cache_key@ == c[i].cache_key@)
                    ==> m == take_refreshable(c[i], r[last_with_key(r, c[i].cache_key@)])
            },
        merged(merged(c, r), r) == merged(c, r),
{
    assert forall|i: int| 0 <= i < c.len() implies {
        let m = #[trigger] merged(c, r)[i];
        &&& same_identity(m, c[i])
        &&& (forall|j: int| 0 <= j < r.len() ==> r[j].cache_key@ != c[i].cache_key@) ==> m == c[i]
        &&& (exists|j: int| 0 <= j < r.len() && r[j].cache_key@ == c[i].cache_key@) ==> m
            == take_refreshable(c[i], r[last_with_key(r, c[i].cache_key@)])
    } by {
        lemma_last_with_key(r, c[i].cache_key@);
        let j = last_with_key(r, c[i].cache_key@);
        if exists|j: int| 0 <= j < r.len() && r[j].cache_key@ == c[i].cache_key@ {
            let k = choose|k: int| 0 <= k < r.len() && r[k].cache_key@ == c[i].cache_key@;
            assert(j >= 0);
        }
        if j >= 0 {
            assert(r[j].cache_key@ == c[i].cache_key@);
        }
    }
    let m = merged(c, r);
    assert(merged(m, r) =~= m);
}

/// A list with every refreshable group marked validated.
pub open spec fn validated(item: WorktreeInfo) -> WorktreeInfo {
    WorktreeInfo {
        pull_push_validated: true,
        changes_validated: true,
        pr_validated: true,
        checks_validated: true,
        ..item
    }
}

/// Marks every refreshable group of every row as validated.
pub fn mark_refresh_columns_validated(items: &mut Vec<WorktreeInfo>)
    ensures
        final(items)@.len() == old(items)@.len(),
        forall|i: int| 0 <= i < final(items)@.len() ==> #[trigger] final(items)@[i] == validated(old(items)@[i]),
{
    let n = items.len();
    let mut i: usize = 0;
    while i < n
        invariant
            n == items@.len(),
            n == old(items)@.len(),
            i <= n,
            forall|k: int| 0 <= k < i ==> #[trigger] items@[k] == validated(old(items)@[k]),
            forall|k: int| i <= k < n ==> #[trigger] items@[k] == old(items)@[k],
        decreases n - i,
    {
        let mut row = items[i].duplicate();
        row.pull_push_validated = true;
        row.changes_validated = true;
        row.pr_validated = true;
        row.checks_validated = true;
        items.set(i, row);
        i = i + 1;
    }
}

} // verus!
