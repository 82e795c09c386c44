//! The text of each column of a worktree row.
use vstd::prelude::*;
use crate::models::WorktreeInfo;
use crate::text::{concat3, signed_decimal, signed_decimal_string};

verus! {

/// `a - b`, held to the range of a 64-bit signed integer.
fn saturating_sub(a: i64, b: i64) -> (r: i64)
    ensures
        r == crate::git_ops::saturate(a - b),
{
    if b < 0 && a > i64::MAX + b {
        i64::MAX
    } else if b > 0 && a < i64::MIN + b {
        i64::MIN
    } else {
        a - b
    }
}

/// How long ago `ts` was at time `now`, in the largest whole unit that fits:
/// seconds, minutes, hours, days, weeks or months of 30.4375 days.
pub open spec fn age_text(ts: int, now: int) -> Seq<char> {
    let delta = if now - ts < 0 { 0 } else { crate::git_ops::saturate(now - ts) };
    if ts <= 0 {
        "unknown"@
    } else if delta < 60 {
        signed_decimal(delta) + "s ago"@
    } else if delta < 3600 {
        signed_decimal(delta / 60) + "m ago"@
    } else if delta < 86400 {
        signed_decimal(delta / 3600) + "h ago"@
    } else if delta < 604800 {
        signed_decimal(delta / 86400) + "d ago"@
    } else if delta < 2629800 {
        signed_decimal(delta / 604800) + "w ago"@
    } else {
        signed_decimal(delta / 2629800) + "mo ago"@
    }
}

/// How long ago the commit time `ts` was at time `now`.
pub fn relative_time(ts: i64, now: i64) -> (r: String)
    ensures
        r@ == age_text(ts as int, now as int),
{
    if ts <= 0 {
        return String::from_str("unknown");
    }
    let d = saturating_sub(now, ts);
    let delta: i64 = if d < 0 { 0 } else { d };
    let (n, unit) = if delta < 60 {
        (delta, "s ago")
    } else if delta < 3600 {
        (delta / 60, "m ago")
    } else if delta < 86400 {
        (delta / 3600, "h ago")
    } else if delta < 604800 {
        (delta / 86400, "d ago")
    } else if delta < 2629800 {
        (delta / 604800, "w ago")
    } else {
        (delta / 2629800, "mo ago")
    };
    let mut r = signed_decimal_string(n);
    r.append(unit);
    r
}

/// `o` holds a string whose text is `t`.
pub open spec fn is_text(o: Option<String>, t: Seq<char>) -> bool {
    match o {
        Some(s) => s@ == t,
        None => false,
    }
}

fn opt_is(o: &Option<String>, t: &str) -> (r: bool)
    ensures
        r == is_text(*o, t@),
{
    match o {
        Some(s) => crate::text::compare_text(s.as_str(), t) == 0,
        None => false,
    }
}

/// The pull/push column: a merged pull request, else the counts against the
/// upstream when there are any, then a dirty marker.
pub open spec fn pull_push_text(item: WorktreeInfo) -> Seq<char> {
    let base = if is_text(item.pr_state, "MERGED"@) {
        "merged (remote deleted)"@
    } else if item.has_upstream && (item.pull != 0 || item.push != 0) {
        signed_decimal(item.pull as int) + "↓ "@ + signed_decimal(item.push as int) + "↑"@
    } else {
        Seq::empty()
    };
    if item.dirty {
        if base.len() == 0 { "(dirty)"@ } else { base + " (dirty)"@ }
    } else {
        base
    }
}

/// The pull/push column, and whether it shows a cached value.
pub fn format_pull_push(item: &WorktreeInfo) -> (r: (String, bool))
    ensures
        r.0@ == pull_push_text(*item),
        r.1 == !item.pull_push_validated,
{
    let mut s = if opt_is(&item.pr_state, "MERGED") {
        String::from_str("merged (remote deleted)")
    } else if item.has_upstream && (item.pull != 0 || item.push != 0) {
        let p = signed_decimal_string(item.pull);
        let q = signed_decimal_string(item.push);
        let mut t = concat3(p.as_str(), "↓ ", q.as_str());
        t.append("↑");
        t
    } else {
        String::new()
    };
    if item.dirty {
        if s.unicode_len() == 0 {
            s = String::from_str("(dirty)");
        } else {
            s.append(" (dirty)");
        }
    }
    (s, !item.pull_push_validated)
}

/// The pull-request column: its number and state, and its base when that is
/// not the default branch.
pub open spec fn pr_text(item: WorktreeInfo, default_branch: Seq<char>) -> Seq<char> {
    match item.pr_number {
        None => Seq::empty(),
        Some(n) => {
            let num = "#"@ + signed_decimal(n as int);
            let head = if is_text(item.pr_state, "MERGED"@) {
                num + " merged (remote deleted)"@
            } else if is_text(item.pr_state, "CLOSED"@) {
                num + " closed"@
            } else {
                num
            };
            match item.pr_base {
                Some(b) => if b@ != default_branch { head + " -> "@ + b@ } else { head },
                None => head,
            }
        },
    }
}

/// The pull-request column, and whether it shows a cached value.
pub fn format_pr(item: &WorktreeInfo, default_branch: &str) -> (r: (String, bool))
    ensures
        r.0@ == pr_text(*item, default_branch@),
        r.1 == !item.pr_validated,
{
    let s = match item.pr_number {
        None => String::new(),
        Some(n) => {
            let d = signed_decimal_string(n);
            let mut s = concat3("#", d.as_str(), "");
            proof { reveal_strlit(""); }
            assert(s@ =~= "#"@ + signed_decimal(n as int));
            if opt_is(&item.pr_state, "MERGED") {
                s.append(" merged (remote deleted)");
            } else if opt_is(&item.pr_state, "CLOSED") {
                s.append(" closed");
            }
            match &item.pr_base {
                Some(b) => {
                    if crate::text::compare_text(b.as_str(), default_branch) != 0 {
                        s.append(" -> ");
                        s.append(b.as_str());
                    }
                },
                None => {},
            }
            s
        },
    };
    (s, !item.pr_validated)
}

/// The changes column, and whether it shows a cached value.
pub fn format_changes(item: &WorktreeInfo) -> (r: (String, bool))
    ensures
        r.0@ == "+"@ + signed_decimal(item.additions as int) + " -"@ + signed_decimal(item.deletions as int),
        r.1 == !item.changes_validated,
{
    let a = signed_decimal_string(item.additions);
    let d = signed_decimal_string(item.deletions);
    let mut s = concat3("+", a.as_str(), " -");
    s.append(d.as_str());
    (s, !item.changes_validated)
}

/// `s` padded on the left with spaces to at least `width` characters.
pub open spec fn pad_left(s: Seq<char>, width: nat) -> Seq<char> {
    if s.len() >= width {
        s
    } else {
        Seq::new((width - s.len()) as nat, |i: int| ' ') + s
    }
}

fn pad_left_exec(s: &str, width: usize) -> (r: String)
    ensures
        r@ == pad_left(s@, width as nat),
{
    let n = s.unicode_len();
    let mut r = String::new();
    let mut k: usize = n;
    while k < width
        invariant
            n == s@.len(),
            n <= k,
            n >= width ==> k == n,
            n < width ==> k <= width,
            r@ == Seq::new((k - n) as nat, |i: int| ' '),
        decreases width - k,
    {
        crate::text::push_char(&mut r, ' ');
        assert(r@ =~= Seq::new((k + 1 - n) as nat, |i: int| ' '));
        k = k + 1;
    }
    let ghost sp = r@;
    r.append(s);
    proof {
        if n >= width {
            assert(sp =~= Seq::<char>::empty());
            assert(r@ =~= s@);
        } else {
            assert(k == width);
        }
    }
    r
}

/// The six columns of a row at time `now`, each with whether it shows a cached value.
pub fn format_row(item: &WorktreeInfo, default_branch: &str, now: i64) -> (r: Vec<(String, bool)>)
    ensures
        r@.len() == 6,
        r@[0].0@ == item.branch@ && !r@[0].1,
        r@[1].0@ == age_text(item.last_commit_ts as int, now as int) && !r@[1].1,
        r@[2].0@ == pull_push_text(*item) && r@[2].1 == !item.pull_push_validated,
        r@[3].0@ == pr_text(*item, default_branch@) && r@[3].1 == !item.pr_validated,
        r@[4].0@ == pad_left(signed_decimal(item.behind as int), 6) + "|"@ + signed_decimal(item.ahead as int)
            && !r@[4].1,
        r@[5].0@ == "+"@ + signed_decimal(item.additions as int) + " -"@ + signed_decimal(item.deletions as int)
            && r@[5].1 == !item.changes_validated,
{
    let behind = signed_decimal_string(item.behind);
    let ahead = signed_decimal_string(item.ahead);
    let padded = pad_left_exec(behind.as_str(), 6);
    let counts = concat3(padded.as_str(), "|", ahead.as_str());
    let mut r: Vec<(String, bool)> = Vec::new();
    r.push((item.branch.clone(), false));
    r.push((relative_time(item.last_commit_ts, now), false));
    r.push(format_pull_push(item));
    r.push(format_pr(item, default_branch));
    r.push((counts, false));
    r.push(format_changes(item));
    r
}

} // verus!
