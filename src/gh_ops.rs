//! What the code host reports: the state of a branch's pull request and the
//! summary of its checks.
use vstd::prelude::*;
use crate::models::{ChecksInfo, PullRequestInfo};

verus! {

/// A check conclusion that counts as passed.
pub open spec fn is_passing(c: Seq<char>) -> bool {
    c == "SUCCESS"@ || c == "NEUTRAL"@ || c == "SKIPPED"@
}

/// The text of an optional string.
pub open spec fn opt_view(o: Option<String>) -> Option<Seq<char>> {
    match o {
        Some(s) => Some(s@),
        None => None,
    }
}

/// The number of passed checks among the first `n`.
pub open spec fn passed_upto(conclusions: Seq<Option<String>>, n: int) -> nat
    decreases n,
{
    if n <= 0 {
        0
    } else {
        passed_upto(conclusions, n - 1) + match opt_view(conclusions[n - 1]) {
            Some(c) => if is_passing(c) { 1nat } else { 0nat },
            None => 0nat,
        }
    }
}

/// Check `i` failed: it concluded, but not with a passing conclusion.
pub open spec fn check_failed(conclusions: Seq<Option<String>>, i: int) -> bool {
    match opt_view(conclusions[i]) {
        Some(c) => !is_passing(c),
        None => false,
    }
}

/// Check `i` is pending: it has not concluded, or its state is not `COMPLETED`.
pub open spec fn check_pending(conclusions: Seq<Option<String>>, states: Seq<Option<String>>, i: int) -> bool {
    conclusions[i] is None || match opt_view(states[i]) {
        Some(s) => s != "COMPLETED"@,
        None => false,
    }
}

fn is_passing_text(c: &str) -> (r: bool)
    ensures
        r == is_passing(c@),
{
    crate::text::compare_text(c, "SUCCESS") == 0 || crate::text::compare_text(c, "NEUTRAL") == 0
        || crate::text::compare_text(c, "SKIPPED") == 0
}

/// The number of checks that have both a conclusion and a state entry.
pub open spec fn paired(conclusions: Seq<Option<String>>, states: Seq<Option<String>>) -> int {
    if conclusions.len() <= states.len() { conclusions.len() as int } else { states.len() as int }
}

/// Summarises a pull request's checks, given each check's conclusion and
/// state, taken in pairs: how many passed, how many conclusions there are,
/// and `fail` if any failed, else `pend` if any is pending, else `ok`; no
/// state without checks.
pub fn classify_checks(conclusions: &Vec<Option<String>>, states: &Vec<Option<String>>) -> (r: ChecksInfo)
    requires
        conclusions@.len() <= i64::MAX,
    ensures
        r.total == conclusions@.len(),
        r.passed == passed_upto(conclusions@, paired(conclusions@, states@)),
        opt_view(r.state) == if conclusions@.len() == 0 {
            None
        } else if exists|i: int| 0 <= i < paired(conclusions@, states@) && #[trigger] check_failed(conclusions@, i) {
            Some("fail"@)
        } else if exists|i: int| 0 <= i < paired(conclusions@, states@) && #[trigger] check_pending(conclusions@, states@, i) {
            Some("pend"@)
        } else {
            Some("ok"@)
        },
{
    let total = conclusions.len();
    let n = if conclusions.len() <= states.len() { conclusions.len() } else { states.len() };
    let mut passed: i64 = 0;
    let mut failed = false;
    let mut pending = false;
    let mut i: usize = 0;
    while i < n
        invariant
            n == paired(conclusions@, states@),
            n <= conclusions@.len(),
            n <= states@.len(),
            conclusions@.len() <= i64::MAX,
            i <= n,
            passed as int == passed_upto(conclusions@, i as int),
            passed <= i,
            failed == exists|j: int| 0 <= j < i && #[trigger] check_failed(conclusions@, j),
            pending == exists|j: int| 0 <= j < i && #[trigger] check_pending(conclusions@, states@, j),
        decreases n - i,
    {
        match &states[i] {
            Some(s) => {
                if crate::text::compare_text(s.as_str(), "COMPLETED") != 0 {
                    pending = true;
                }
            },
            None => {},
        }
        match &conclusions[i] {
            Some(c) => {
                if is_passing_text(c.as_str()) {
                    passed = passed + 1;
                } else {
                    failed = true;
                }
            },
            None => {
                pending = true;
            },
        }
        proof {
            let ii = i as int;
            if exists|j: int| 0 <= j < ii + 1 && #[trigger] check_failed(conclusions@, j) {
                let j = choose|j: int| 0 <= j < ii + 1 && #[trigger] check_failed(conclusions@, j);
                if j < ii {
                    assert(exists|j: int| 0 <= j < ii && #[trigger] check_failed(conclusions@, j));
                }
            }
            if check_failed(conclusions@, ii) {
                assert(0 <= ii < ii + 1 && check_failed(conclusions@, ii));
            }
            if exists|j: int| 0 <= j < ii && #[trigger] check_failed(conclusions@, j) {
                let j = choose|j: int| 0 <= j < ii && #[trigger] check_failed(conclusions@, j);
                assert(0 <= j < ii + 1 && check_failed(conclusions@, j));
            }
            if exists|j: int| 0 <= j < ii + 1 && #[trigger] check_pending(conclusions@, states@, j) {
                let j = choose|j: int| 0 <= j < ii + 1 && #[trigger] check_pending(conclusions@, states@, j);
                if j < ii {
                    assert(exists|j: int| 0 <= j < ii && #[trigger] check_pending(conclusions@, states@, j));
                }
            }
            if check_pending(conclusions@, states@, ii) {
                assert(0 <= ii < ii + 1 && check_pending(conclusions@, states@, ii));
            }
            if exists|j: int| 0 <= j < ii && #[trigger] check_pending(conclusions@, states@, j) {
                let j = choose|j: int| 0 <= j < ii && #[trigger] check_pending(conclusions@, states@, j);
                assert(0 <= j < ii + 1 && check_pending(conclusions@, states@, j));
            }
        }
        i = i + 1;
    }
    let state = if total == 0 {
        None
    } else if failed {
        Some(String::from_str("fail"))
    } else if pending {
        Some(String::from_str("pend"))
    } else {
        Some(String::from_str("ok"))
    };
    ChecksInfo { passed, total: total as i64, state }
}

/// The state shown for a pull request: `MERGED` once merged, else the
/// reported state, else `OPEN`.
pub fn pr_state(state: &Option<String>, merged: bool) -> (r: String)
    ensures
        r@ == if merged {
            "MERGED"@
        } else {
            match state {
                Some(s) => s@,
                None => "OPEN"@,
            }
        },
{
    if merged {
        String::from_str("MERGED")
    } else {
        match state {
            Some(s) => s.clone(),
            None => String::from_str("OPEN"),
        }
    }
}

/// The pull request of a branch from the first entry the host listed.
pub fn get_pr_info(
    number: i64,
    state: &Option<String>,
    base: Option<String>,
    url: Option<String>,
    merged: bool,
) -> (r: PullRequestInfo)
    ensures
        r.number == number,
        r.state@ == if merged {
            "MERGED"@
        } else {
            match state {
                Some(s) => s@,
                None => "OPEN"@,
            }
        },
        r.base == base,
        r.url == url,
{
    PullRequestInfo { number, state: pr_state(state, merged), base, url }
}

} // verus!
