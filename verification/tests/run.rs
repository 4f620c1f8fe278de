//! `vm run`.

use vm::config::{Config, GuestOs, VmConfig};
use vm::exec::advise::StdinSource;
use vm::exec::host::Transport;
use vm::exec::run::{
    elevated_command, read_payload, reject_exec_flags, request, run, stdin_line, who, RunAction,
    RunEvent, RunOptions, STDIN_CAP,
};
use vm::exit::Failure;
use vm::ordmap::OrdMap;

fn payload(bytes: &[u8]) -> Result<String, Failure> {
    read_payload(bytes.to_vec())
}

#[test]
fn a_script_sized_payload_arrives_byte_for_byte() {
    let script = "set -e\napt-get update\nexit 0\n";
    assert_eq!(payload(script.as_bytes()).unwrap(), script);
}

#[test]
fn an_empty_payload_is_still_a_payload() {
    assert_eq!(payload(b"").unwrap(), "");
}

#[test]
fn a_payload_at_the_cap_is_accepted_and_one_over_it_is_not() {
    let at_cap = vec![b'x'; STDIN_CAP];
    assert_eq!(payload(&at_cap).unwrap().len(), STDIN_CAP);

    let over = vec![b'x'; STDIN_CAP + 1];
    let err = payload(&over).unwrap_err();
    assert!(err.is_usage(), "exit 2, not 125");
    assert!(err.text().contains("8 MiB"), "{err:?}");
}

#[test]
fn an_exec_only_flag_is_refused_with_the_verb_that_has_it() {
    for flag in ["--no-sync", "--writeback", "--with-file", "--guest-env"] {
        let cmd = vec![flag.to_string(), "true".to_string()];
        let err = reject_exec_flags(&cmd).unwrap_err();
        assert!(err.is_usage(), "{flag}: exit 2");
        let msg = err.text();
        assert!(msg.contains(flag), "{msg}");
        assert!(msg.contains("vm exec"), "names the verb that has it: {msg}");
    }
    assert!(reject_exec_flags(&["--with-file=.env".to_string()]).is_err());
}

#[test]
fn the_same_flag_inside_the_command_is_left_alone() {
    let cmd = ["git", "log", "--no-sync"].map(String::from).to_vec();
    assert!(reject_exec_flags(&cmd).is_ok());
    assert!(reject_exec_flags(&[]).is_ok());
}

#[test]
fn binary_input_is_refused_rather_than_mangled() {
    let err = payload(&[0x1f, 0x8b, 0x08, 0xff, 0xfe]).unwrap_err();
    assert!(err.is_usage(), "exit 2, not 125");
    assert!(err.text().contains("UTF-8"), "{err:?}");
}

fn vm(os: GuestOs, user: &str) -> VmConfig {
    VmConfig {
        parallels_name: "Ubuntu 24.04".into(),
        os,
        user: user.into(),
        work_root: "~/work".into(),
        host: None,
        agent_path: None,
    }
}

fn opts(elevated: bool, cmd: &[&str]) -> RunOptions {
    RunOptions {
        elevated,
        env: Vec::new(),
        cmd: cmd.iter().map(|s| s.to_string()).collect(),
    }
}

#[test]
fn an_elevated_run_names_the_agent_by_its_absolute_path() {
    let Transport::Prlctl(args) = elevated_command(&vm(GuestOs::Linux, "parallels")).unwrap() else {
        panic!("parallels tools are the transport");
    };
    assert_eq!(
        args,
        ["exec", "Ubuntu 24.04", "/home/parallels/.vm/bin/vm", "_exec"]
    );
    let Transport::Prlctl(args) = elevated_command(&vm(GuestOs::Windows, "hakesson")).unwrap()
    else {
        panic!("parallels tools are the transport");
    };
    assert_eq!(args[2], r"C:\Users\hakesson\.vm\bin\vm.exe");
}

#[test]
fn a_run_happens_in_the_guest_users_home_and_takes_its_input_along() {
    let req = request(
        &vm(GuestOs::Macos, "henrik"),
        &opts(true, &["sh"]),
        OrdMap::new(),
        Some("echo hi\n".into()),
    );
    assert_eq!(req.cwd, "/Users/henrik");
    assert_eq!(req.argv, ["sh", "-c", "sh"]);
    assert_eq!(req.stdin.as_deref(), Some("echo hi\n"));
    assert_eq!(
        stdin_line("macos", "→x"),
        "vm ▸ macos ▸ stdin ▸ 4 bytes → the guest command"
    );
}

#[test]
fn an_elevated_run_says_who_it_is() {
    assert_eq!(who(false, GuestOs::Windows), "");
    assert_eq!(who(true, GuestOs::Windows), " ▸ elevated (SYSTEM)");
    assert_eq!(who(true, GuestOs::Linux), " ▸ elevated (root)");
}

#[test]
fn a_run_is_checked_before_a_vm_is_touched() {
    let lookup = |_: &str| None;
    let step = |o: &RunOptions, stdin, event| run("lin", o, lookup, stdin, "/c", event);
    let good = opts(false, &["true"]);
    assert!(matches!(
        step(&good, None, RunEvent::Begin),
        RunAction::LoadConfig
    ));
    assert!(matches!(
        step(&good, Some(StdinSource::Redirected), RunEvent::Begin),
        RunAction::ReadPayload
    ));
    assert!(matches!(
        step(&good, None, RunEvent::PayloadRead(Ok(()))),
        RunAction::LoadConfig
    ));
    assert!(matches!(
        step(&opts(false, &["--or-native", "x"]), None, RunEvent::Begin),
        RunAction::Fail(e) if e.is_usage()
    ));
    let mut bad = opts(false, &["x"]);
    bad.env.push("NOPE".into());
    assert!(matches!(
        step(&bad, None, RunEvent::Begin),
        RunAction::Fail(e) if e.is_usage()
    ));
    let mut known = OrdMap::new();
    known.insert("lin".into(), vm(GuestOs::Linux, "u"));
    let cfg = Config { vm: known };
    assert!(matches!(
        step(&good, None, RunEvent::ConfigLoaded(Ok(&cfg))),
        RunAction::RunInGuest
    ));
    assert!(matches!(
        run("win", &good, lookup, None, "/c", RunEvent::ConfigLoaded(Ok(&cfg))),
        RunAction::Fail(e) if e.text().contains("unknown VM alias 'win'")
    ));
}
