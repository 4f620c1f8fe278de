//! What the arguments choose, and the text it is made of.

use vm::cli::{ClaudeArgs, Command, ExecArgs, ExecOpts, RunArgs};
use vm::guest_env::GuestEnv;
use vm::ordmap::OrdMap;
use vm::text::{
    byte_len, has, has_prefix, join, lines_of, parse_i32, parse_u64, precedes, replace_char,
    same_ignoring_ascii_case, split_on, strip_prefix, to_decimal, to_signed_decimal, trimmed,
    trimmed_end, words_of,
};

fn strings(v: &[&str]) -> Vec<String> {
    v.iter().map(|s| s.to_string()).collect()
}

#[test]
fn arguments_become_options() {
    let args = ExecArgs {
        target: "lin".into(),
        opts: ExecOpts {
            with_snapshot: true,
            no_sync: false,
            writeback: true,
            or_native: false,
            env: strings(&["A=1"]),
            with_file: strings(&[".env"]),
            guest_env: Some(GuestEnv::Mise),
            cmd: strings(&["cargo", "test"]),
        },
    };
    let opts = args.opts.options();
    assert!(opts.with_snapshot && opts.writeback && !opts.no_sync && !opts.or_native);
    assert_eq!(opts.cmd, ["cargo", "test"]);
    assert_eq!((opts.env, opts.with_file), (strings(&["A=1"]), strings(&[".env"])));

    let run = RunArgs {
        target: "win".into(),
        elevated: true,
        env: strings(&["B"]),
        cmd: strings(&["whoami"]),
    };
    let run = run.options();
    assert!(run.elevated);
    assert_eq!((run.env, run.cmd), (strings(&["B"]), strings(&["whoami"])));

    let agent = ClaudeArgs {
        target: "lin".into(),
        prompt: "fix it".into(),
        with_snapshot: false,
        no_writeback: true,
        env: Vec::new(),
        with_file: Vec::new(),
        guest_env: None,
        claude_args: strings(&["--model", "m"]),
    };
    let agent = agent.options();
    assert!(agent.no_writeback && !agent.with_snapshot);
    assert_eq!((agent.prompt.as_str(), agent.claude_args.len()), ("fix it", 2));
}

#[test]
fn a_guest_verb_keeps_no_journal() {
    assert!(Command::GuestExec.is_guest_verb());
    assert!(Command::GuestTree { repo: "r".into() }.is_guest_verb());
    assert!(Command::GuestIdle.is_guest_verb());
    assert!(!Command::Ls.is_guest_verb());
    assert!(!Command::Doctor { only: None }.is_guest_verb());
}

#[test]
fn text_is_taken_apart_and_put_together() {
    assert_eq!(byte_len("a→"), 4);
    assert!(has("hay needle", "need") && !has("hay", "needle") && has("x", ""));
    assert!(has_prefix("--quiet", "--") && !has_prefix("-", "--"));
    assert_eq!(strip_prefix("a=b", "a=").as_deref(), Some("b"));
    assert_eq!(strip_prefix("a=b", "b"), None);
    assert_eq!(split_on("a::b", ':'), ["a", "", "b"]);
    assert_eq!(words_of("  a \t b\u{a0}c "), ["a", "b", "c"]);
    assert_eq!((trimmed(" a b \n"), trimmed_end(" a \n")), ("a b".into(), " a".into()));
    assert_eq!(lines_of("a\r\nb\n\nc"), ["a", "b", "", "c"]);
    assert_eq!(replace_char("a/b/c", '/', '\\'), r"a\b\c");
    assert_eq!(join(&strings(&["a", "b"]), ", "), "a, b");
    assert!(same_ignoring_ascii_case("CMD.exe", "cmd.EXE"));
    assert!(!same_ignoring_ascii_case("Ä", "ä"));
}

#[test]
fn numbers_read_back() {
    assert_eq!(to_decimal(u128::MAX), u128::MAX.to_string());
    assert_eq!(to_decimal(0), "0");
    assert_eq!(to_signed_decimal(-42), "-42");
    assert_eq!(parse_u64("18446744073709551615"), Some(u64::MAX));
    assert_eq!(parse_u64("18446744073709551616"), None);
    assert_eq!(parse_u64("+7"), Some(7));
    assert_eq!(parse_u64(""), None);
    assert_eq!(parse_i32("-2147483648"), Some(i32::MIN));
    assert_eq!(parse_i32("2147483648"), None);
}

#[test]
fn a_map_holds_its_keys_in_order() {
    let mut map: OrdMap<String> = OrdMap::new();
    for (k, v) in [("b", "1"), ("a", "2"), ("é", "3"), ("b", "4")] {
        map.insert(k.into(), v.into());
    }
    assert_eq!(map.len(), 3);
    let keys: Vec<&str> = (0..3).map(|i| map.key(i)).collect();
    assert_eq!(keys, ["a", "b", "é"]);
    assert_eq!(map.get("b").map(String::as_str), Some("4"));
    assert_eq!(map.get("c"), None);
    assert!(precedes("a", "ab") && precedes("ab", "b") && !precedes("b", "b"));
}
