//! Post-creation hooks: which configured entries are commands to run, and
//! how a failed hook is reported.
use vstd::prelude::*;
use crate::text::{concat3, texts, trim, trimmed};

verus! {

/// One configured hook entry, as far as the settings file gives it: its
/// `type` and its `command`, when those are strings.
pub struct HookEntry {
    pub kind: Option<String>,
    pub command: Option<String>,
}

/// The command an entry contributes: entries of type `command` with a
/// command that is not blank, trimmed.
pub open spec fn hook_command_of(e: HookEntry) -> Option<Seq<char>> {
    match (e.kind, e.command) {
        (Some(k), Some(c)) => if k@ == "command"@ && trimmed(c@).len() > 0 {
            Some(trimmed(c@))
        } else {
            None
        },
        _ => None,
    }
}

/// The commands of the configured entries, in order.
pub open spec fn hook_commands_of(entries: Seq<HookEntry>) -> Seq<Seq<char>>
    decreases entries.len(),
{
    if entries.len() == 0 {
        Seq::empty()
    } else {
        let rest = hook_commands_of(entries.drop_last());
        match hook_command_of(entries.last()) {
            Some(c) => rest.push(c),
            None => rest,
        }
    }
}

/// The commands to run after a worktree is created.
pub fn get_post_worktree_creation_commands(entries: &Vec<HookEntry>) -> (r: Vec<String>)
    ensures
        texts(r@) == hook_commands_of(entries@),
{
    let mut r: Vec<String> = Vec::new();
    let mut i: usize = 0;
    while i < entries.len()
        invariant
            i <= entries@.len(),
            texts(r@) == hook_commands_of(entries@.take(i as int)),
        decreases entries@.len() - i,
    {
        let e = &entries[i];
        assert(entries@.take(i + 1).drop_last() =~= entries@.take(i as int));
        assert(entries@.take(i + 1).last() == *e);
        match (&e.kind, &e.command) {
            (Some(k), Some(c)) => {
                if crate::text::compare_text(k.as_str(), "command") == 0 {
                    let t = trim(c.as_str());
                    if t.unicode_len() > 0 {
                        let ghost r0 = r@;
                        r.push(t);
                        assert(texts(r@) =~= texts(r0).push(t@));
                    }
                }
            },
            _ => {},
        }
        i = i + 1;
    }
    assert(entries@.take(i as int) =~= entries@);
    r
}

/// The command to record for a new hook: the trimmed text, refused when blank.
pub fn normalize_hook_command(command: &str) -> (r: Result<String, String>)
    ensures
        match r {
            Ok(c) => trimmed(command@).len() > 0 && c@ == trimmed(command@),
            Err(e) => trimmed(command@).len() == 0 && e@ == "hook command cannot be empty"@,
        },
{
    let t = trim(command);
    if t.unicode_len() == 0 {
        Err(String::from_str("hook command cannot be empty"))
    } else {
        Ok(t)
    }
}

/// The report of a hook that exited non-zero: its error output, else its
/// standard output, else a placeholder.
pub open spec fn hook_failure_text(command: Seq<char>, stderr: Seq<char>, stdout: Seq<char>) -> Seq<char> {
    let msg = if trimmed(stderr).len() > 0 {
        trimmed(stderr)
    } else if trimmed(stdout).len() > 0 {
        trimmed(stdout)
    } else {
        "unknown error"@
    };
    "hook failed: `"@ + command + "`: "@ + msg
}

/// The report of a hook that exited non-zero.
pub fn hook_failure_message(command: &str, stderr: &str, stdout: &str) -> (r: String)
    ensures
        r@ == hook_failure_text(command@, stderr@, stdout@),
{
    let e = trim(stderr);
    let o = trim(stdout);
    let msg = if e.unicode_len() > 0 {
        e
    } else if o.unicode_len() > 0 {
        o
    } else {
        String::from_str("unknown error")
    };
    let mut r = concat3("hook failed: `", command, "`: ");
    r.append(msg.as_str());
    r
}

} // verus!
