//! `vm exec` on the host.

use vm::config::{Config, GuestOs, VmConfig};
use vm::exec::advise::StdinSource;
use vm::exec::host::{
    agent_exec_command, beat_interval, build_argv, drive_agent, env_candidate, exec, exec_in,
    exit_line, ignored_args, listed_args, native_outcome, native_path, reject_removed_flags,
    render_argv, request, resolve_env, run_native, running, stdin_source, unsynced_env_files,
    writeback_line, writeback_skipped_line, Ended, ExecAction, ExecEvent, ExecOptions, Progress,
    RootFile, Stage, Todo, Transport,
};
use vm::exec::SpawnError;
use vm::exit::Failure;
use vm::guest_env::{resolve, ActiveEnv, GuestEnv};
use vm::mapping::RepoLocation;
use vm::ordmap::OrdMap;
use vm::proto::{ExecRequest, HEARTBEAT_INTERVAL, HEARTBEAT_TIMEOUT, PROTO_VERSION};
use vm::ssh::SshTarget;

fn request_with_budget(heartbeat_timeout_ms: Option<u64>) -> ExecRequest {
    ExecRequest {
        version: PROTO_VERSION,
        argv: vec!["true".into()],
        env: OrdMap::new(),
        cwd: ".".into(),
        stdin: None,
        heartbeat_timeout_ms,
    }
}

#[test]
fn the_pulse_always_fits_four_beats_into_the_silence_budget() {
    let real = beat_interval(&request_with_budget(None));
    assert_eq!(real, HEARTBEAT_INTERVAL);
    assert_eq!(real * 4, HEARTBEAT_TIMEOUT);

    for budget_ms in [200, 1000, 60_000] {
        let beat = beat_interval(&request_with_budget(Some(budget_ms)));
        assert_eq!(beat * 4, budget_ms as u128 * 1_000_000, "{budget_ms}ms");
    }
}

/// A host environment stub, so the tests never touch the real process env.
fn host<'a>(pairs: &'a [(&'a str, &'a str)]) -> impl Fn(&str) -> Option<String> + 'a {
    move |name| {
        pairs
            .iter()
            .find(|(k, _)| *k == name)
            .map(|(_, v)| v.to_string())
    }
}

fn s(v: &[&str]) -> Vec<String> {
    v.iter().map(|s| s.to_string()).collect()
}

#[test]
fn explicit_assignment_sets_the_value() {
    let env = resolve_env(&s(&["FOO=bar"]), host(&[])).unwrap();
    assert_eq!(env.get("FOO").map(String::as_str), Some("bar"));
}

#[test]
fn value_may_contain_equals_signs() {
    let env = resolve_env(&s(&["FOO=a=b"]), host(&[])).unwrap();
    assert_eq!(env.get("FOO").map(String::as_str), Some("a=b"));
}

#[test]
fn empty_value_is_allowed() {
    let env = resolve_env(&s(&["FOO="]), host(&[])).unwrap();
    assert_eq!(env.get("FOO").map(String::as_str), Some(""));
}

#[test]
fn bare_name_forwards_the_host_value() {
    let env = resolve_env(&s(&["FOO"]), host(&[("FOO", "from-host")])).unwrap();
    assert_eq!(env.get("FOO").map(String::as_str), Some("from-host"));
}

#[test]
fn bare_name_unset_on_host_is_an_error() {
    let err = resolve_env(&s(&["FOO"]), host(&[])).unwrap_err();
    let err = err.text();
    assert!(err.contains("FOO"), "{err}");
    assert!(err.contains("not set on host"), "{err}");
    assert!(err.contains("FOO=value"), "{err}");
}

#[test]
fn empty_name_is_an_error() {
    let err = resolve_env(&s(&["=value"]), host(&[])).unwrap_err();
    let err = err.text();
    assert!(err.contains("empty variable name"), "{err}");
}

#[test]
fn a_bad_env_spec_is_a_usage_error_not_an_infra_one() {
    for spec in [&["=value"][..], &["NOPE_NOT_SET_ANYWHERE"][..]] {
        let err = resolve_env(&s(spec), host(&[])).unwrap_err();
        assert!(err.is_usage(), "{spec:?} should be a usage error, got: {err:?}");
    }
}

#[test]
fn duplicate_name_takes_the_last_spec() {
    let env = resolve_env(&s(&["FOO=1", "FOO=2"]), host(&[])).unwrap();
    assert_eq!(env.get("FOO").map(String::as_str), Some("2"));
}

#[test]
fn the_first_bad_spec_is_the_one_reported() {
    let err = resolve_env(&s(&["A=1", "NOPE", "=x"]), host(&[])).unwrap_err();
    assert_eq!(
        err.text(),
        "-e NOPE: not set on host (use -e NOPE=value to set it explicitly)"
    );
}

fn opts(cmd: &[&str]) -> ExecOptions {
    ExecOptions {
        no_sync: false,
        writeback: false,
        with_snapshot: false,
        or_native: false,
        guest_env: None,
        env: Vec::new(),
        with_file: Vec::new(),
        cmd: s(cmd),
    }
}

/// The environment of a repo root with these files, without an override.
fn detected(files: &'static [&'static str]) -> ActiveEnv {
    resolve(None, |p: &str| files.contains(&p))
}

fn plain_root() -> ActiveEnv {
    detected(&[])
}

fn mise_root() -> ActiveEnv {
    detected(&["mise.toml"])
}

// ── The arity rule: several arguments are an argv ────────────────────────────

#[test]
fn several_arguments_are_execd_as_given() {
    let argv = build_argv(&s(&["cargo", "test"]), &plain_root(), GuestOs::Linux);
    assert_eq!(argv, s(&["cargo", "test"]));
}

#[test]
fn exec_form_keeps_shell_syntax_literal() {
    let argv = build_argv(
        &s(&["grep", "a|b", "src/lib.rs"]),
        &plain_root(),
        GuestOs::Linux,
    );
    assert_eq!(argv, s(&["grep", "a|b", "src/lib.rs"]));
}

#[test]
fn exec_form_gets_the_guest_envs_wrap_in_front() {
    let argv = build_argv(&s(&["cargo", "test"]), &mise_root(), GuestOs::Linux);
    assert_eq!(argv, s(&["mise", "exec", "--", "cargo", "test"]));
}

// ── The arity rule: a single argument is a script ────────────────────────────

#[test]
fn a_single_argument_is_run_by_the_guests_shell() {
    let argv = build_argv(&s(&["cd src && pwd"]), &plain_root(), GuestOs::Linux);
    assert_eq!(argv, s(&["sh", "-c", "cd src && pwd"]));
}

#[test]
fn the_wrap_goes_around_the_shell_not_its_first_word() {
    let argv = build_argv(&s(&["cd src && pwd"]), &mise_root(), GuestOs::Linux);
    assert_eq!(
        argv,
        s(&["mise", "exec", "--", "sh", "-c", "cd src && pwd"])
    );
}

#[test]
fn the_script_shell_is_the_guests_not_the_hosts() {
    let argv = build_argv(&s(&["echo hi"]), &mise_root(), GuestOs::Windows);
    assert_eq!(argv, s(&["mise", "exec", "--", "cmd", "/C", "echo hi"]));

    let argv = build_argv(&s(&["echo hi"]), &plain_root(), GuestOs::Windows);
    assert_eq!(argv, s(&["cmd", "/C", "echo hi"]));
}

#[test]
fn a_single_argument_with_no_shell_syntax_is_still_a_script() {
    let argv = build_argv(&s(&["ls"]), &plain_root(), GuestOs::Linux);
    assert_eq!(argv, s(&["sh", "-c", "ls"]));
}

#[test]
fn guest_env_none_beats_detection_in_both_forms() {
    let genv = resolve(Some(GuestEnv::Off), |p: &str| p == "mise.toml");
    assert_eq!(
        build_argv(&s(&["cargo", "test"]), &genv, GuestOs::Linux),
        s(&["cargo", "test"])
    );
    assert_eq!(
        build_argv(&s(&["exit 42"]), &genv, GuestOs::Linux),
        s(&["sh", "-c", "exit 42"])
    );
}

#[test]
fn render_argv_quotes_elements_that_hold_shell_syntax() {
    assert_eq!(
        render_argv(&s(&["mise", "exec", "--", "sh", "-c", "cd src && pwd"])),
        "mise exec -- sh -c 'cd src && pwd'"
    );
    assert_eq!(render_argv(&s(&["cargo", "test"])), "cargo test");
}

#[test]
fn an_empty_argument_and_a_quote_show_as_one_argument_each() {
    assert_eq!(render_argv(&s(&["a", "", "it's"])), r"a '' 'it'\''s'");
}

// ── The removed --shell flag ─────────────────────────────────────────────────

#[test]
fn a_leftover_shell_flag_is_a_usage_error_that_teaches_the_new_form() {
    let err = reject_removed_flags(&s(&["--shell", "cd src && cargo test"])).unwrap_err();
    assert!(
        err.is_usage(),
        "an obsolete flag is the caller's invocation, not a transient fault"
    );
    let msg = err.text();
    assert!(
        msg.contains("vm exec <alias> -- 'cd src && cargo test'"),
        "{msg}"
    );
}

#[test]
fn the_suggested_fix_drops_the_separator_clap_left_behind() {
    let err = reject_removed_flags(&s(&["--shell", "--", "echo hi"])).unwrap_err();
    let msg = err.text();
    assert!(msg.contains("vm exec <alias> -- 'echo hi'"), "{msg}");
    assert!(!msg.contains("'-- echo hi'"), "{msg}");
}

#[test]
fn shell_as_an_ordinary_argument_is_untouched() {
    assert!(reject_removed_flags(&s(&["echo", "--shell"])).is_ok());
    assert!(reject_removed_flags(&s(&["cargo", "test", "--", "--shell"])).is_ok());
}

// ── The native path obeys the same rule ──────────────────────────────────────

#[test]
fn run_native_execs_an_exec_form_command() {
    let (argv, banner) = run_native(&opts(&["sh", "-c", "exit 3"]), GuestOs::Linux);
    assert_eq!(argv, s(&["sh", "-c", "exit 3"]));
    assert_eq!(banner, "vm ▸ native (linux) ▸ $ sh -c 'exit 3'");
    let (code, lines) = native_outcome("sh", None, Ok(Some(3)), false).unwrap();
    assert_eq!((code, lines.len()), (3, 0));
}

#[test]
fn run_native_runs_a_single_argument_as_a_script() {
    assert_eq!(
        run_native(&opts(&["exit 7"]), GuestOs::Macos).0,
        s(&["sh", "-c", "exit 7"])
    );
    assert_eq!(
        run_native(&opts(&["true && exit 5"]), GuestOs::Windows).0,
        s(&["cmd", "/C", "true && exit 5"])
    );
    assert_eq!(native_outcome("sh", None, Ok(Some(7)), false).unwrap().0, 7);
}

#[test]
fn run_native_reports_a_missing_command_as_127_not_infra() {
    let gone = Err((SpawnError::NotFound, "No such file".to_string()));
    let (code, lines) =
        native_outcome("definitely-not-a-real-binary", Some("/bin"), gone, false).unwrap();
    assert_eq!(
        code, 127,
        "a missing command is the shell's 127, not vm's 125"
    );
    assert_eq!(
        lines[0].text(),
        "vm: command not found: definitely-not-a-real-binary"
    );
    assert!(lines[1].text().contains("/bin"));
}

#[test]
fn run_native_reports_a_non_executable_command_as_126_not_infra() {
    let denied = Err((SpawnError::PermissionDenied, "denied".to_string()));
    let (code, lines) = native_outcome("/tmp/not-executable.sh", None, denied, false).unwrap();
    assert_eq!(code, 126, "a non-executable command is 126, not vm's 125");
    assert_eq!(
        lines[0].text(),
        "vm: command not executable: /tmp/not-executable.sh"
    );
}

#[test]
fn any_other_failed_spawn_is_infra_and_a_signal_is_one() {
    let other = Err((SpawnError::Other, "out of memory".to_string()));
    let err = native_outcome("a\"b", None, other, false).unwrap_err();
    assert!(!err.is_usage());
    assert_eq!(err.text(), "failed to run \"a\\\"b\" natively: out of memory");
    assert_eq!(native_outcome("x", None, Ok(None), false).unwrap().0, 1);
}

#[test]
fn a_path_that_was_set_goes_before_the_inherited_one() {
    let mut env: OrdMap<String> = OrdMap::new();
    assert_eq!(
        native_path(&env, Some("/usr/bin".into()), false).as_deref(),
        Some("/usr/bin")
    );
    env.insert("Path".into(), "C:\\x".into());
    assert_eq!(native_path(&env, None, false), None);
    assert_eq!(native_path(&env, None, true).as_deref(), Some("C:\\x"));
}

// ── Files that stayed behind ─────────────────────────────────────────────────

fn file(name: &str, ignored: bool, untracked: bool) -> RootFile {
    RootFile {
        name: name.into(),
        ignored,
        untracked,
    }
}

#[test]
fn the_probe_finds_ignored_untracked_env_files() {
    let root = [
        file(".gitignore", false, false),
        file(".env.local", true, true),
        file("src.rs", false, false),
        file(".env", true, true),
    ];
    assert_eq!(
        unsynced_env_files(&root, &[]),
        [".env".to_string(), ".env.local".to_string()],
        "sorted, so the note reads the same on every run"
    );
}

#[test]
fn the_probe_is_silent_when_nothing_was_left_behind() {
    let root = [file(".gitignore", false, false), file("src.rs", false, false)];
    assert!(unsynced_env_files(&root, &[]).is_empty());
}

#[test]
fn a_file_that_did_sync_is_never_reported() {
    let root = [file(".env", true, true)];
    assert!(unsynced_env_files(&root, &[".env".to_string()]).is_empty());
    assert!(!env_candidate(".env", &[".env".to_string()]));

    let committed = [file(".env", true, false)];
    assert!(
        unsynced_env_files(&committed, &[]).is_empty(),
        "a committed-but-ignored file reaches the guest and must not draw a note"
    );
}

#[test]
fn an_unignored_env_file_is_never_reported() {
    assert!(unsynced_env_files(&[file(".env", false, true)], &[]).is_empty());
    assert!(env_candidate(".env.test", &[]) && !env_candidate("env", &[]));
}

// ── Where a command goes ─────────────────────────────────────────────────────

fn vm_config(os: GuestOs) -> VmConfig {
    VmConfig {
        parallels_name: "Windows 11".into(),
        os,
        user: "henrik".into(),
        work_root: r"C:\work".into(),
        host: None,
        agent_path: None,
    }
}

fn cfg(alias: &str, os: GuestOs) -> Config {
    let mut vm = OrdMap::new();
    vm.insert(alias.into(), vm_config(os));
    Config { vm }
}

fn no_env(_: &str) -> Option<String> {
    None
}

fn step(target: &str, opts: &ExecOptions, event: ExecEvent) -> ExecAction {
    exec(
        target,
        opts,
        no_env,
        GuestOs::Windows,
        None,
        "/c/config.toml",
        event,
    )
}

#[test]
fn an_os_named_target_goes_native_without_a_config() {
    let mut o = opts(&["cargo", "test"]);
    assert!(matches!(
        step("windows", &o, ExecEvent::Begin),
        ExecAction::LoadConfig
    ));
    o.or_native = true;
    assert!(matches!(
        step("windows", &o, ExecEvent::Begin),
        ExecAction::RunNative
    ));
    assert!(matches!(
        step("linux", &o, ExecEvent::Begin),
        ExecAction::LoadConfig
    ));
}

#[test]
fn an_alias_goes_native_once_the_config_names_its_os() {
    let mut o = opts(&["x", "y"]);
    let here = cfg("win", GuestOs::Windows);
    assert!(matches!(
        step("win", &o, ExecEvent::ConfigLoaded(Ok(&here))),
        ExecAction::RunInGuest(false, None)
    ));
    o.or_native = true;
    assert!(matches!(
        step("win", &o, ExecEvent::ConfigLoaded(Ok(&here))),
        ExecAction::RunNative
    ));
    let there = cfg("win", GuestOs::Linux);
    assert!(matches!(
        step("win", &o, ExecEvent::ConfigLoaded(Ok(&there))),
        ExecAction::RunInGuest(false, None)
    ));
}

#[test]
fn a_bad_invocation_fails_before_anything_is_touched() {
    let mut o = opts(&["--shell", "echo hi"]);
    let ExecAction::Fail(e) = step("win", &o, ExecEvent::Begin) else {
        panic!("the removed flag must be refused");
    };
    assert!(e.is_usage());

    o.with_file = s(&[".env"]);
    assert!(matches!(
        step("win", &o, ExecEvent::Begin),
        ExecAction::ResolveFiles
    ));
    o.env = s(&["=oops"]);
    let ExecAction::Fail(e) = step("win", &o, ExecEvent::Begin) else {
        panic!("a bad spec must be refused");
    };
    assert_eq!(e.text(), "-e =oops: empty variable name");
}

#[test]
fn an_unknown_target_is_a_usage_error_and_stdin_draws_its_note() {
    let o = opts(&["x", "y"]);
    let known = cfg("lin", GuestOs::Linux);
    let ExecAction::Fail(e) = step("win", &o, ExecEvent::ConfigLoaded(Ok(&known))) else {
        panic!("an unknown alias must be refused");
    };
    assert!(e.is_usage() && e.text().contains("lin"), "{e:?}");

    let action = exec(
        "lin",
        &o,
        no_env,
        GuestOs::Macos,
        Some(StdinSource::Piped),
        "/c",
        ExecEvent::ConfigLoaded(Ok(&known)),
    );
    let ExecAction::RunInGuest(false, Some(note)) = action else {
        panic!("piped input must be noted");
    };
    assert!(note.starts_with("vm ▸ note: ") && note.contains("piped into vm"));
}

// ── Inside the guest ─────────────────────────────────────────────────────────

fn drive(no_sync: bool, writeback: bool, code: i32) -> (Vec<Stage>, Todo) {
    let mut p = Progress {
        stage: Stage::BringUp,
        synced: false,
        code: 0,
    };
    let mut stages = vec![p.stage];
    loop {
        let ended = if p.stage == Stage::Run {
            Ended::Exited(code)
        } else {
            Ended::Done
        };
        let (next, todo) = exec_in(no_sync, writeback, p, ended);
        p = next;
        match todo {
            Todo::Carry => stages.push(p.stage),
            other => return (stages, other),
        }
    }
}

#[test]
fn an_exec_syncs_runs_and_brings_changes_back() {
    let (stages, todo) = drive(false, true, 0);
    assert_eq!(
        stages,
        [
            Stage::BringUp,
            Stage::Discover,
            Stage::Sync,
            Stage::FirstSync,
            Stage::Run,
            Stage::Writeback
        ]
    );
    assert!(matches!(todo, Todo::Finish(0)));
}

#[test]
fn a_failed_command_is_explained_and_its_code_returned() {
    let (stages, todo) = drive(false, false, 3);
    assert_eq!(stages.last(), Some(&Stage::Unsynced));
    assert!(matches!(todo, Todo::Finish(3)));
    let (stages, todo) = drive(true, false, 3);
    assert_eq!(stages.last(), Some(&Stage::Run), "nothing synced, nothing to explain");
    assert!(matches!(todo, Todo::Finish(3)));
}

#[test]
fn on_255_the_guest_tree_is_not_trusted() {
    let (stages, todo) = drive(false, true, 255);
    assert!(!stages.contains(&Stage::Writeback));
    assert!(matches!(todo, Todo::SkipWriteback(255)));
    assert!(writeback_skipped_line("lin").contains("writeback skipped — exit 255"));
    let (_, todo) = drive(false, false, 255);
    assert!(matches!(todo, Todo::Finish(255)));
}

#[test]
fn a_stage_that_fails_ends_the_exec() {
    let p = Progress {
        stage: Stage::Sync,
        synced: false,
        code: 0,
    };
    let (next, todo) = exec_in(false, true, p, Ended::Failed(Failure::Infra("x".into())));
    assert_eq!(next.stage, Stage::Over);
    assert!(matches!(todo, Todo::Fail(e) if e.text() == "x"));
}

// ── The request and the transport ────────────────────────────────────────────

fn repo(rel: &str) -> RepoLocation {
    RepoLocation {
        root: "/home/me/vm".into(),
        name: "vm".into(),
        rel: rel.into(),
    }
}

#[test]
fn a_request_carries_the_composed_command_to_the_mapped_directory() {
    let vm = vm_config(GuestOs::Windows);
    let mut env = OrdMap::new();
    env.insert("K".into(), "v".into());
    let req = request(&vm, &opts(&["dir"]), &repo("src/exec"), &plain_root(), env).unwrap();
    assert_eq!(req.argv, ["cmd", "/C", "dir"]);
    assert_eq!(req.cwd, "C:/work/vm/src/exec");
    assert_eq!(req.version, 4);
    assert_eq!(req.env.get("K").map(String::as_str), Some("v"));
    assert!(req.stdin.is_none() && req.heartbeat_timeout_ms.is_none());
    assert_eq!(
        running("win", &vm, "", &req),
        "vm ▸ win (Windows 11) ▸ C:/work/vm/src/exec ▸ $ cmd /C dir"
    );
    let err = request(&vm, &opts(&["dir"]), &repo("../x"), &plain_root(), OrdMap::new());
    assert!(!err.unwrap_err().is_usage());
}

#[test]
fn windows_is_reached_through_its_console_and_unix_over_ssh() {
    let target = SshTarget {
        user: "u".into(),
        host: "10.0.0.5".into(),
    };
    let Transport::Prlctl(args) = agent_exec_command(&vm_config(GuestOs::Windows), &target).unwrap()
    else {
        panic!("windows goes through prlctl");
    };
    assert_eq!(
        args,
        [
            "exec",
            "Windows 11",
            "--current-user",
            "cmd",
            "/c",
            r"%USERPROFILE%\.vm\bin\vm.exe _exec"
        ]
    );
    let Transport::Ssh(args) = agent_exec_command(&vm_config(GuestOs::Linux), &target).unwrap()
    else {
        panic!("linux goes over ssh");
    };
    assert_eq!(args[args.len() - 3..], ["u@10.0.0.5", "~/.vm/bin/vm", "_exec"]);
}

#[test]
fn the_guest_commands_exit_code_comes_back_as_it_is() {
    for code in [0, 7, 126, 255] {
        let (got, line) = drive_agent("lin", Some(code)).unwrap();
        assert_eq!((got, line), (code, None));
    }
}

#[test]
fn a_command_the_guest_cannot_find_is_127_and_not_an_infra_code() {
    let (got, line) = drive_agent("lin", Some(127)).unwrap();
    assert_eq!(got, 127);
    assert!(line.unwrap().contains("try `vm deploy lin`"));
}

#[test]
fn a_transport_killed_by_a_signal_is_an_infra_failure_not_an_exit_code() {
    let err = drive_agent("lin", None).unwrap_err();
    assert!(!err.is_usage());
    assert!(err.text().contains("killed before the guest reported"), "{err:?}");
}

#[test]
fn lines_around_a_run() {
    assert_eq!(exit_line("lin", -1, "3.2"), "vm ▸ lin ▸ exit -1 ▸ 3.2s");
    assert_eq!(
        writeback_line("lin", true).as_deref(),
        Some("vm ▸ lin ▸ writeback applied to host tree")
    );
    assert_eq!(writeback_line("lin", false), None);
}

#[test]
fn only_a_pipe_or_a_file_on_stdin_is_worth_a_note() {
    assert_eq!(stdin_source(true, false), Some(StdinSource::Piped));
    assert_eq!(stdin_source(false, true), Some(StdinSource::Redirected));
    assert_eq!(stdin_source(false, false), None);
}

#[test]
fn git_is_asked_about_each_file() {
    assert_eq!(ignored_args(".env"), ["check-ignore", "--quiet", "--", ".env"]);
    assert_eq!(listed_args(".env"), ["ls-files", "--error-unmatch", "--", ".env"]);
}
