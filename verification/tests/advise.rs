//! The notes on what was typed.

use vm::exec::advise::{
    advisories, elide, half_posix_path_note, is_posix, path_searched, posix_paths, split_path,
    stdin_note, unsynced_env_note, StdinSource,
};

/// No file exists — isolates the exec-form rule from the filesystem one.
fn no_files(_: &str) -> bool {
    false
}

fn notes(cmd: &[&str], is_file: impl Fn(&str) -> bool) -> Vec<String> {
    let cmd: Vec<String> = cmd.iter().map(|s| s.to_string()).collect();
    advisories("exec", "lin", &cmd, is_file)
}

/// The single note `cmd` produces, or a panic — most cases assert on its text.
fn note(cmd: &[&str], is_file: impl Fn(&str) -> bool) -> String {
    let notes = notes(cmd, is_file);
    assert_eq!(notes.len(), 1, "expected exactly one note for {cmd:?}");
    notes.into_iter().next().unwrap()
}

fn silent(cmd: &[&str], is_file: impl Fn(&str) -> bool) {
    let notes = notes(cmd, is_file);
    assert!(notes.is_empty(), "{cmd:?} should be silent, got: {notes:?}");
}

// ── Exec form holding shell syntax ───────────────────────────────────────────

#[test]
fn a_lone_operator_in_exec_form_is_noted() {
    for cmd in [
        &["echo", "a", "&&", "echo", "b"][..],
        &["cargo", "build", "||", "true"][..],
        &["echo", "hi", "|", "wc"][..],
        &["sort", "f", ">", "out"][..],
        &["sort", "f", ">>", "out"][..],
        &["cat", "<", "in"][..],
        &["cat", "<<", "EOF"][..],
        &["sleep", "5", "&"][..],
        &["prog", "2>", "err"][..],
        &["prog", "2>>", "err"][..],
        &["prog", "2>&1"][..],
    ] {
        let note = note(cmd, no_files);
        assert!(note.contains("ONE argument"), "{cmd:?}: {note}");
    }
}

#[test]
fn the_note_names_the_operator_the_program_and_the_fix() {
    let note = note(&["echo", "a", "&&", "echo", "b"], no_files);
    assert!(note.contains("`&&`"), "{note}");
    assert!(note.contains("`echo`"), "{note}");
    assert!(note.contains("vm exec lin -- 'echo a && echo b'"), "{note}");
}

#[test]
fn the_suggested_fix_names_the_verb_that_was_used() {
    let cmd: Vec<String> = ["echo", "a", "&&", "b"]
        .iter()
        .map(|s| s.to_string())
        .collect();
    let note = advisories("run", "lin", &cmd, no_files).remove(0);
    assert!(note.contains("vm run lin -- 'echo a && b'"), "{note}");

    let script = vec!["my script.sh --flag".to_string()];
    let note = advisories("run", "lin", &script, files(&["my script.sh"])).remove(0);
    assert!(
        note.contains(r#"vm run lin -- '"my script.sh" --flag'"#),
        "{note}"
    );
}

#[test]
fn several_operators_yield_one_note_listing_each_once() {
    let note = note(&["echo", "|", "x", "&&", "y", "|", "z"], no_files);
    assert!(note.contains("`|`, `&&`"), "{note}");
    assert_eq!(note.matches("`|`").count(), 1, "deduplicated: {note}");
}

#[test]
fn an_operator_with_no_predecessor_still_fires() {
    assert!(note(&["&&", "x"], no_files).contains("`&&`"));
}

#[test]
fn a_plain_command_is_silent() {
    silent(&["cargo", "test", "--workspace"], no_files);
    silent(&["cargo", "nextest", "run", "-p", "vm"], no_files);
    silent(&["echo", "hello"], no_files);
}

#[test]
fn an_operator_in_a_flags_value_position_is_silent() {
    silent(&["awk", "-F", "|", "file"], no_files);
    silent(&["cut", "-d", "|", "-f1", "file"], no_files);
    silent(&["tr", "-d", "&"], no_files);
    silent(&["sort", "-t", "|", "-k1"], no_files);
}

#[test]
fn a_multi_char_operator_after_a_flag_still_fires() {
    assert!(note(
        &["cargo", "build", "--release", "&&", "cargo", "test"],
        no_files
    )
    .contains("`&&`"));
    assert!(note(&["prog", "--verbose", "2>&1"], no_files).contains("`2>&1`"));
}

#[test]
fn a_semicolon_is_never_noted() {
    silent(&["find", ".", "-exec", "grep", "x", "{}", ";"], no_files);
    silent(&["echo", "a", ";", "echo", "b"], no_files);
}

#[test]
fn an_operator_inside_a_larger_argument_is_silent() {
    silent(&["grep", "a|b", "file"], no_files);
    silent(&["echo", "a && b"], no_files);
    silent(&["echo", "&&&"], no_files);
    silent(&["echo", "-->"], no_files);
    silent(&["echo", "2>&11"], no_files);
    silent(&["echo", ""], no_files);
}

// ── Shell form whose script starts with a spaced filename ────────────────────

/// A filesystem holding exactly the given paths.
fn files(paths: &'static [&'static str]) -> impl Fn(&str) -> bool {
    move |p| paths.contains(&p)
}

#[test]
fn a_script_starting_with_a_spaced_filename_is_noted() {
    let note = note(
        &["scripts/my script.sh --flag"],
        files(&["scripts/my script.sh"]),
    );
    assert!(note.contains("`scripts/my script.sh`"), "{note}");
    assert!(
        note.contains(r#"vm exec lin -- '"scripts/my script.sh" --flag'"#),
        "{note}"
    );
}

#[test]
fn the_whole_script_being_the_file_is_noted_too() {
    assert!(note(&["my script.sh"], files(&["my script.sh"])).contains("`my script.sh`"));
}

#[test]
fn a_windows_style_path_is_normalized_before_the_lookup() {
    let note = note(
        &[r"scripts\my script.sh --flag"],
        files(&["scripts/my script.sh"]),
    );
    assert!(note.contains(r"`scripts\my script.sh`"), "{note}");
}

#[test]
fn the_shortest_matching_prefix_wins() {
    let note = note(&["a b c"], files(&["a b", "a b c"]));
    assert!(note.contains("`a b`"), "{note}");
}

#[test]
fn a_script_that_names_no_file_is_silent() {
    silent(&["cd src && cargo test"], no_files);
    silent(&["cargo test --workspace"], no_files);
    silent(&["echo hi | tr a-z A-Z"], no_files);
    silent(&["exit 42"], no_files);
    silent(&["ls"], no_files);
}

#[test]
fn a_spaceless_filename_is_silent() {
    silent(&["./run.sh --flag"], files(&["./run.sh"]));
    silent(&["./run.sh"], files(&["./run.sh"]));
}

#[test]
fn shell_form_never_reports_shell_syntax() {
    silent(&["a | b"], no_files);
    silent(&["make && make test"], no_files);
}

#[test]
fn a_file_named_later_in_the_script_is_silent() {
    silent(&["cat my file.txt"], files(&["my file.txt"]));
}

// ── Environment files that the sync left behind ──────────────────────────────

fn env_note(unsynced: &[&str]) -> String {
    let unsynced: Vec<String> = unsynced.iter().map(|s| s.to_string()).collect();
    unsynced_env_note(&unsynced).expect("a note")
}

#[test]
fn nothing_unsynced_says_nothing() {
    assert!(unsynced_env_note(&[]).is_none());
}

#[test]
fn the_note_names_the_file_and_both_fixes() {
    let note = env_note(&[".env"]);
    assert!(note.contains("`.env` is gitignored"), "{note}");
    assert!(note.contains("-e NAME=value"), "{note}");
    assert!(note.contains("--with-file .env"), "{note}");
}

#[test]
fn several_files_read_as_a_list() {
    let note = env_note(&[".env", ".env.local"]);
    assert!(
        note.contains("`.env`, `.env.local` are gitignored"),
        "{note}"
    );
    assert!(note.contains("left them on the host"), "{note}");
    assert!(note.contains("--with-file .env"), "{note}");
}

// ── Input wired into stdin ───────────────────────────────────────────────────

#[test]
fn ordinary_stdin_says_nothing() {
    assert!(stdin_note(None).is_none());
}

#[test]
fn piped_stdin_draws_the_note_and_the_file_fix() {
    let note = stdin_note(Some(StdinSource::Piped)).expect("a note");
    assert!(note.contains("piped into vm"), "{note}");
    assert!(note.contains("does not travel to the guest"), "{note}");
    assert!(note.contains("file inside the repo"), "{note}");
}

#[test]
fn redirected_stdin_names_the_redirect() {
    let note = stdin_note(Some(StdinSource::Redirected)).expect("a note");
    assert!(note.contains("redirected into vm from a file"), "{note}");
}

// ── The PATH behind a command-not-found ──────────────────────────────────────

const HALF_POSIX: &str = r"C:\Program Files\Git\mingw64\bin;C:\Program Files\Git\usr\bin;C:\Users\runneradmin\bin;/c/Program Files/Git/mingw64/bin:/c/Program Files/Git/usr/bin:/c/Users/runneradmin/.cargo/bin";

#[test]
fn the_report_lists_the_entries_it_searched() {
    let report = path_searched(Some("/usr/local/bin:/usr/bin:/bin"), false);
    assert!(report.contains("(3 entries)"), "{report}");
    for dir in ["/usr/local/bin", "/usr/bin", "/bin"] {
        assert!(report.contains(dir), "{dir} missing from: {report}");
    }
}

#[test]
fn a_unix_path_is_never_unusable() {
    let path = "/usr/local/bin:/usr/bin:/bin";
    assert!(!path_searched(Some(path), false).contains('⚠'), "flagged");
    assert!(half_posix_path_note(Some(path), false).is_none());
}

#[test]
fn a_healthy_windows_path_is_never_unusable() {
    let path = r"C:\Windows\system32;C:\Users\me\.cargo\bin;\\host\share\bin";
    let report = path_searched(Some(path), true);
    assert!(report.contains("(3 entries)"), "{report}");
    assert!(!report.contains('⚠'), "{report}");
    assert!(half_posix_path_note(Some(path), true).is_none());
}

#[test]
fn a_drive_letters_colon_is_not_a_posix_separator() {
    assert!(!is_posix(r"C:\tools"));
    assert!(!is_posix(r"C:/tools"));
    assert!(is_posix("/c/tools"));
    assert!(is_posix("/c/a:/c/b"));
}

#[test]
fn a_half_posix_path_is_flagged_counted_and_explained() {
    let report = path_searched(Some(HALF_POSIX), true);
    assert!(
        report.contains("(4 entries, 1 of them unusable)"),
        "{report}"
    );
    assert!(
        report.contains('⚠'),
        "the POSIX tail is not marked: {report}"
    );
    assert!(report.contains("colon-joined: 3 paths"), "{report}");
    assert!(report.contains(r"C:\Users\runneradmin\bin"), "{report}");
}

#[test]
fn the_note_names_the_trigger_and_both_fixes() {
    let note = half_posix_path_note(Some(HALF_POSIX), true).expect("a note");
    assert!(
        note.contains("POSIX PATH reached a native Windows process"),
        "{note}"
    );
    assert!(note.contains("The usual source"), "{note}");
    assert!(note.contains(r#"shell = "bash -c""#), "{note}");
    assert!(note.contains("without the bash shell"), "{note}");
    assert!(note.contains("-e PATH=…"), "{note}");
}

#[test]
fn a_lone_posix_entry_is_flagged_without_the_colon_wording() {
    let report = path_searched(Some(r"C:\Windows\system32;/usr/bin"), true);
    assert!(
        report.contains("(2 entries, 1 of them unusable)"),
        "{report}"
    );
    assert!(
        report.contains("POSIX form — no Win32 resolver"),
        "{report}"
    );
    assert!(!report.contains("colon-joined"), "{report}");
}

#[test]
fn a_giant_posix_run_is_elided_but_its_paths_are_all_counted() {
    let tail = (0..60)
        .map(|i| format!("/c/tools/dir{i}/bin"))
        .collect::<Vec<_>>()
        .join(":");
    let report = path_searched(Some(&format!(r"C:\Windows\system32;{tail}")), true);
    assert!(report.contains('…'), "elided without saying so: {report}");
    assert!(report.contains("colon-joined: 60 paths"), "{report}");
    for line in report.lines() {
        assert!(line.chars().count() < 100, "runaway line: {line}");
    }
}

#[test]
fn an_empty_or_unset_path_says_exactly_that() {
    for path in [None, Some(""), Some(";;")] {
        let report = path_searched(path, true);
        assert_eq!(report, "vm ▸ the PATH it searched was empty", "{path:?}");
    }
    assert!(half_posix_path_note(None, true).is_none());
}

#[test]
fn elide_never_splits_a_codepoint() {
    assert_eq!(elide("ööööö", 3), "ööö…");
    assert_eq!(elide("ööö", 3), "ööö");
    assert_eq!(elide("ab", 5), "ab");
}

// ── Cross-cutting ────────────────────────────────────────────────────────────

#[test]
fn the_two_advisories_are_mutually_exclusive() {
    let candidates: &[&[&str]] = &[
        &["echo", "a", "&&", "b"],
        &["a && b"],
        &["my file.txt"],
        &["cat", "my file.txt"],
        &["cargo", "test"],
    ];
    for cmd in candidates {
        assert!(
            notes(cmd, files(&["my file.txt"])).len() <= 1,
            "{cmd:?} drew more than one note"
        );
    }
}

#[test]
fn a_path_is_split_as_its_platform_splits_it() {
    assert_eq!(split_path("/a:/b::/c", false), ["/a", "/b", "/c"]);
    assert_eq!(split_path(r"C:\a;;D:\b", true), [r"C:\a", r"D:\b"]);
    assert!(split_path("", false).is_empty());
    assert_eq!(posix_paths("/c/a:/c/b"), 2);
    assert_eq!(posix_paths("/c/a"), 1);
}

#[test]
fn a_note_says_that_it_is_one() {
    assert_eq!(vm::exec::advise::note_line("x"), "vm ▸ note: x");
}
