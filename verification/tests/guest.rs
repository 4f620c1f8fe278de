//! The guest side of an exec.

use vm::config::GuestOs;
use vm::exec::guest::{
    augmented_path, exec, exit_code, first_sync, first_sync_marker, git_usr_bin, outcome,
    shell_command, PathDir, Ran, Spawn,
};
use vm::exec::{is_cmd_exe, SpawnError};
use vm::exit::{conclude, INFRA};
use vm::ordmap::OrdMap;
use vm::proto::{host_is_alive, silence_budget, ExecRequest, Liveness, PROTO_VERSION};

fn request(argv: &[&str]) -> ExecRequest {
    ExecRequest {
        version: PROTO_VERSION,
        argv: argv.iter().map(|s| s.to_string()).collect(),
        env: OrdMap::new(),
        cwd: "~/work/repo".into(),
        stdin: None,
        heartbeat_timeout_ms: None,
    }
}

fn spawn(argv: &[&str]) -> Spawn {
    exec(request(argv), "/home/me/work/repo".into(), true, "/usr/bin".into()).unwrap()
}

#[test]
fn missing_cwd_is_an_infra_error() {
    let err = exec(
        request(&["vm", "_version"]),
        "/definitely/not/a/dir".into(),
        false,
        String::new(),
    )
    .unwrap_err();
    assert_eq!(
        err.text(),
        "working directory /definitely/not/a/dir does not exist (sync first?)"
    );
    assert_eq!(conclude(Err(err)).0, INFRA);
    assert_eq!(INFRA, 125);
}

#[test]
fn argv_is_never_run_through_a_shell() {
    let literal = "a|b && $(echo pwned) > /dev/null";
    let s = spawn(&["printf", "%s", literal]);
    assert_eq!(s.argv, ["printf", "%s", literal]);
}

#[test]
fn exec_agent_forwarded_env_reaches_the_guest_process() {
    let mut req = request(&["sh", "-c", "printf %s $FOO"]);
    req.env.insert("FOO".into(), "bar".into());
    let s = exec(req, "/tmp".into(), true, "/usr/bin".into()).unwrap();
    assert_eq!(s.env.get("FOO").map(String::as_str), Some("bar"));
}

#[test]
fn propagates_nonzero_exit_codes() {
    let (code, lines) = outcome(&spawn(&["x"]), Ran::Exited(Some(2)), false).unwrap();
    assert_eq!((code, lines.len()), (2, 0));
}

#[test]
fn command_not_found_is_127_not_infra() {
    let ran = Ran::Unstarted(SpawnError::NotFound, "gone".into());
    let s = spawn(&["vm-test-definitely-not-an-executable"]);
    let (code, lines) = outcome(&s, ran, false).unwrap();
    assert_eq!(code, 127);
    assert!(lines[1].text().contains("/usr/bin"));
}

#[test]
fn a_not_found_reports_the_path_that_was_sent() {
    let mut s = spawn(&["x"]);
    s.env.insert("PATH".into(), "/sent".into());
    let ran = Ran::Unstarted(SpawnError::NotFound, "gone".into());
    let (_, lines) = outcome(&s, ran, false).unwrap();
    assert!(lines[1].text().contains("/sent") && !lines[1].text().contains("/usr/bin"));
}

#[test]
fn exec_agent_a_stdin_payload_reaches_the_command_and_then_ends() {
    let mut req = request(&["sh"]);
    req.stdin = Some("printf payload-ran\nexit 7\n".into());
    let s = exec(req, "/tmp".into(), true, String::new()).unwrap();
    assert_eq!(s.stdin.as_deref(), Some("printf payload-ran\nexit 7\n"));
}

#[test]
fn a_command_with_no_payload_reads_the_null_device() {
    assert_eq!(spawn(&["cat"]).stdin, None);
}

#[test]
fn a_signal_is_128_more_and_no_code_is_one() {
    assert_eq!(exit_code(&Ran::Signaled(9)), 137);
    assert_eq!(exit_code(&Ran::Exited(None)), 1);
    assert_eq!(exit_code(&Ran::Exited(Some(-3))), -3);
    let denied = Ran::Unstarted(SpawnError::PermissionDenied, "no".into());
    assert_eq!(outcome(&spawn(&["x"]), denied, false).unwrap().0, 126);
    let other = Ran::Unstarted(SpawnError::Other, "no memory".into());
    let err = outcome(&spawn(&["a", "b"]), other, false).unwrap_err();
    assert_eq!(
        err.text(),
        "running \"a b\" in /home/me/work/repo: no memory"
    );
}

// ── The liveness channel ─────────────────────────────────────────────────────

#[test]
fn liveness_stdin_eof_kills_the_child_tree() {
    let budget = silence_budget(&request(&["sleep", "300"]));
    assert_eq!(host_is_alive(Some(0), 0, budget), Liveness::TearDown);
}

#[test]
fn liveness_silence_past_the_budget_kills_the_child_tree() {
    let mut req = request(&["sleep", "300"]);
    req.heartbeat_timeout_ms = Some(1000);
    let budget = silence_budget(&req);
    assert_eq!(host_is_alive(None, 500_000_000, budget), Liveness::Listen);
    assert_eq!(host_is_alive(None, 1_000_000_000, budget), Liveness::TearDown);
}

#[test]
fn heartbeats_hold_a_command_open_and_eof_still_ends_it() {
    let mut req = request(&["sleep", "300"]);
    req.heartbeat_timeout_ms = Some(1000);
    let budget = silence_budget(&req);
    for _ in 0..15 {
        assert_eq!(host_is_alive(Some(1), 200_000_000, budget), Liveness::Listen);
    }
    assert_eq!(host_is_alive(Some(0), 200_000_000, budget), Liveness::TearDown);
}

// ── The setup of a fresh checkout ────────────────────────────────────────────

#[test]
fn runs_once_then_no_ops_and_reruns_when_marker_cleared() {
    let cmd = "echo x >> ran.log";
    assert_eq!(
        first_sync(true, false, cmd).as_deref(),
        Some("vm ▸ first-sync ▸ $ echo x >> ran.log")
    );
    assert_eq!(
        first_sync_marker(0, cmd).as_deref(),
        Some("echo x >> ran.log\n")
    );
    assert_eq!(first_sync(true, true, cmd), None, "hook re-ran while the marker existed");
    assert!(first_sync(true, false, cmd).is_some());
}

#[test]
fn failing_hook_propagates_code_and_writes_no_marker() {
    assert_eq!(exit_code(&Ran::Exited(Some(3))), 3);
    assert_eq!(first_sync_marker(3, "exit 3"), None);
    assert!(first_sync_marker(0, "true").is_some());
}

#[test]
fn no_git_checkout_is_a_silent_no_op() {
    assert_eq!(first_sync(false, false, "echo boom > proof"), None);
}

#[test]
fn a_hook_runs_in_the_guests_own_shell() {
    assert_eq!(shell_command("mise trust", GuestOs::Linux), ["sh", "-c", "mise trust"]);
    assert_eq!(shell_command("x", GuestOs::Windows), ["cmd", "/C", "x"]);
}

// ── The PATH ─────────────────────────────────────────────────────────────────

#[test]
fn tool_directories_go_in_front_of_the_path() {
    assert_eq!(
        augmented_path(Some("/usr/bin"), Some("/home/me"), None, false, Some("ignored")),
        "/home/me/bin:/home/me/.cargo/bin:/home/me/.local/bin:/home/me/.vm/bin:/usr/bin"
    );
    assert_eq!(
        augmented_path(
            Some(r"C:\Windows"),
            None,
            Some(r"C:\Users\me"),
            true,
            Some(r"C:\Git\usr\bin")
        ),
        r"C:\Users\me\bin;C:\Users\me\.cargo\bin;C:\Users\me\.local\bin;C:\Users\me\.vm\bin;C:\Windows;C:\Git\usr\bin"
    );
}

#[test]
fn without_a_home_the_path_stays_as_it_is() {
    assert_eq!(augmented_path(Some("/bin"), None, None, false, None), "/bin");
    assert_eq!(
        augmented_path(Some("/bin"), Some(""), Some("/p"), false, None),
        "/bin"
    );
    assert_eq!(augmented_path(None, None, None, true, None), "");
}

#[test]
fn gits_userland_is_found_from_where_git_is() {
    let dir = |has_git, usr_bin: Option<&str>, has_sh| PathDir {
        has_git,
        usr_bin: usr_bin.map(String::from),
        has_sh,
    };
    let dirs = [
        dir(false, Some("a"), true),
        dir(true, None, true),
        dir(true, Some("b"), false),
        dir(true, Some("c"), true),
        dir(true, Some("d"), true),
    ];
    assert_eq!(git_usr_bin(&dirs).as_deref(), Some("c"));
    assert_eq!(git_usr_bin(&dirs[..3]), None);
}

#[test]
fn only_cmd_takes_a_raw_line() {
    assert!(is_cmd_exe(Some("CMD.exe")) && is_cmd_exe(Some("cmd")));
    assert!(!is_cmd_exe(Some("cmdx")) && !is_cmd_exe(None));
}
