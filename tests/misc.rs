use gw::cache::cache_file_name;
use gw::cli::{run, Cli, Commands, HooksArgs, HooksSubcommands, Task};
use gw::gh_ops::{classify_checks, get_pr_info};
use gw::hooks::{get_post_worktree_creation_commands, hook_failure_message, normalize_hook_command, HookEntry};
use gw::text::{parse_i64, split_lines, trim};

fn opt(s: &str) -> Option<String> {
    Some(s.to_string())
}

#[test]
fn cache_file_is_named_by_digest() {
    assert_eq!(cache_file_name("abc"), "a9993e364706816aba3e25717850c26c9cd0d89d.sqlite");
}

#[test]
fn check_summaries() {
    let none = classify_checks(&vec![], &vec![]);
    assert_eq!((none.passed, none.total, none.state), (0, 0, None));
    let ok = classify_checks(&vec![opt("SUCCESS"), opt("SKIPPED")], &vec![opt("COMPLETED"), None]);
    assert_eq!((ok.passed, ok.total, ok.state.as_deref()), (2, 2, Some("ok")));
    let pend = classify_checks(&vec![opt("SUCCESS"), None], &vec![opt("COMPLETED"), opt("IN_PROGRESS")]);
    assert_eq!((pend.passed, pend.state.as_deref()), (1, Some("pend")));
    let fail = classify_checks(&vec![opt("FAILURE"), None], &vec![None, None]);
    assert_eq!((fail.passed, fail.state.as_deref()), (0, Some("fail")));
}

#[test]
fn pull_request_state() {
    assert_eq!(get_pr_info(3, &opt("CLOSED"), None, None, true).state, "MERGED");
    assert_eq!(get_pr_info(3, &opt("CLOSED"), None, None, false).state, "CLOSED");
    assert_eq!(get_pr_info(3, &None, opt("main"), None, false).state, "OPEN");
}

#[test]
fn hook_entries() {
    let entries = vec![
        HookEntry { kind: opt("command"), command: opt("  make setup  ") },
        HookEntry { kind: opt("other"), command: opt("x") },
        HookEntry { kind: opt("command"), command: opt("   ") },
        HookEntry { kind: None, command: opt("y") },
        HookEntry { kind: opt("command"), command: opt("npm i") },
    ];
    assert_eq!(get_post_worktree_creation_commands(&entries), vec!["make setup", "npm i"]);
    assert_eq!(normalize_hook_command("  ls ").unwrap(), "ls");
    assert_eq!(normalize_hook_command(" \t").unwrap_err(), "hook command cannot be empty");
    assert_eq!(hook_failure_message("ls", " bad \n", "out"), "hook failed: `ls`: bad");
    assert_eq!(hook_failure_message("ls", "", " out "), "hook failed: `ls`: out");
    assert_eq!(hook_failure_message("ls", "", ""), "hook failed: `ls`: unknown error");
}

#[test]
fn command_line_dispatch() {
    assert!(matches!(run(Cli { command: None }), Task::Interactive));
    assert!(matches!(run(Cli { command: Some(Commands::Init) }), Task::Init));
    let add = Cli { command: Some(Commands::Hooks(HooksArgs { command: HooksSubcommands::Add { command: "ls".to_string() } })) };
    assert!(matches!(run(add), Task::AddHook { command } if command == "ls"));
}

#[test]
fn text_helpers() {
    assert_eq!(parse_i64("-9223372036854775808"), Some(i64::MIN));
    assert_eq!(parse_i64("9223372036854775808"), None);
    assert_eq!(parse_i64("+12"), Some(12));
    assert_eq!(parse_i64("-"), None);
    assert_eq!(parse_i64(""), None);
    assert_eq!(split_lines("a\r\nb\n\nc\r"), vec!["a", "b", "", "c\r"]);
    assert_eq!(trim("\u{3000} x \u{2028}"), "x");
}

#[test]
fn cache_file_from_given_digest() {
    assert_eq!(gw::cache::cache_file_name_from_digest("ff00"), "ff00.sqlite");
}

#[test]
fn checks_are_taken_in_pairs() {
    let c = classify_checks(&vec![opt("SUCCESS"), opt("FAILURE")], &vec![opt("COMPLETED")]);
    assert_eq!((c.passed, c.total, c.state.as_deref()), (1, 2, Some("ok")));
}
