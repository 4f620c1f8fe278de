//! The diagnosis of host and guests.

use vm::config::{Config, GuestOs, VmConfig};
use vm::doctor::{
    agent_answer, config_check, console_agent_command, console_answer, doctor, first_line,
    guest_heading, host, journal_check, key_check, prlctl_check, reach, timer_check, whoami_command,
    work_root_command, AgentAnswer, Evidence, HostEvidence,
    HostStage, Line, Reach, Report, Stage,
};
use vm::exit::Failure;
use vm::journal::Say;
use vm::prldnd::State;
use vm::process::Output;
use vm::ssh::SshTarget;

/// What the coding agent is called here.
const TOOL: &str = "agent-tool";

fn guest(os: GuestOs) -> VmConfig {
    VmConfig {
        parallels_name: "Windows 11".into(),
        os,
        user: "hakesson".into(),
        work_root: "~/work".into(),
        host: None,
        agent_path: None,
    }
}

fn output(success: bool, stdout: &str, stderr: &str) -> Output {
    Output {
        success,
        code: Some(if success { 0 } else { 1 }),
        stdout: stdout.into(),
        stderr: stderr.into(),
    }
}

fn target() -> SshTarget {
    SshTarget {
        user: "hakesson".into(),
        host: "10.0.0.5".into(),
    }
}

/// Diagnoses a healthy guest, apart from what this version reply and this answer
/// to ssh say.
fn diagnose(os: GuestOs, version: &str, ssh: bool) -> Report {
    let vm = guest(os);
    let answer = agent_answer(Ok(version.to_string()));
    let fine = output(true, "fine\n", "");
    let who = output(true, "PC\\HAkesson\r\n", "");
    let (state, at) = (State::Good, target());
    let mut report = Report::new();
    let mut stage = Stage::Registered;
    while stage != Stage::Over {
        let evidence = match stage {
            Stage::Registered => Evidence::Registered(true),
            Stage::Snapshots => Evidence::Snapshots(Ok(&[])),
            Stage::Status => Evidence::Running(None),
            Stage::Ssh => Evidence::Ssh(&at, ssh),
            Stage::Agent => Evidence::Agent(&answer),
            Stage::Git => Evidence::Git(Some(&fine)),
            Stage::WorkRoot => Evidence::WorkRoot(Some(&fine)),
            Stage::Claude => Evidence::Claude(Some(&fine)),
            Stage::ClaudeAuth => Evidence::ClaudeAuth(Ok(&fine)),
            Stage::Idle => Evidence::Idle(Ok(5000)),
            Stage::Shutdown => Evidence::Shutdown(Ok(&state)),
            Stage::ConsoleUser => Evidence::ConsoleUser(Some(&who)),
            _ => Evidence::ConsoleAgent(&answer),
        };
        let (lines, next) = doctor("windows", &vm, TOOL, evidence);
        report.lines.extend(lines);
        stage = next;
    }
    report
}

fn said(report: &Report) -> String {
    report.lines.iter().map(|l| l.text() + "\n").collect()
}

const CURRENT: &str = r#"{"binary":"0.3.0","proto":4}"#;

#[test]
fn a_healthy_guest_gets_a_clean_bill() {
    for os in [GuestOs::Windows, GuestOs::Linux, GuestOs::Macos] {
        let report = diagnose(os, CURRENT, true);
        let text = said(&report);
        assert!(!text.contains('✗'), "{text}");
        for check in ["status", "ssh", "agent", "git", "work_root"] {
            assert!(text.contains(check), "{check} in {text}");
        }
        let (code, verdict) = report.conclude();
        assert_eq!(code, 0);
        assert!(matches!(verdict, Say::Crumb(line) if line == "vm ▸ doctor ▸ all checks passed"));
    }
}

#[test]
fn an_agent_too_old_to_speak_the_protocol_is_caught_and_named() {
    let report = diagnose(GuestOs::Macos, r#"{"binary":"0.1.0","proto":3}"#, true);
    let text = said(&report);
    assert_ne!(report.conclude().0, 0);
    assert!(text.contains("✗ agent") && text.contains("proto v3"), "{text}");
    assert!(text.contains("vm deploy windows"), "{text}");
}

#[test]
fn a_guest_that_will_not_answer_ssh_is_reported_once_not_six_times() {
    let report = diagnose(GuestOs::Windows, CURRENT, false);
    let text = said(&report);
    assert_ne!(report.conclude().0, 0);
    assert!(text.contains("✗ ssh"), "{text}");
    assert!(!text.contains("✗ agent") && !text.contains("✗ git"), "{text}");
    assert_eq!(report.failures(), 1);
}

#[test]
fn a_vm_parallels_does_not_have_is_named_as_missing() {
    let vm = guest(GuestOs::Windows);
    let (lines, next) = doctor("windows", &vm, TOOL, Evidence::Registered(false));
    assert_eq!(next, Stage::Over);
    assert!(matches!(&lines[0], Line::Fail(_, d) if d.contains("not registered in Parallels")));
}

#[test]
fn stale_snapshots_from_killed_runs_are_reported() {
    let vm = guest(GuestOs::Windows);
    let listed = [("{abc}".to_string(), "vm-with-snapshot-1752500000".to_string())];
    let (lines, next) = doctor("windows", &vm, TOOL, Evidence::Snapshots(Ok(&listed)));
    assert_eq!(next, Stage::Status);
    let text = lines[0].text();
    assert!(
        text.contains("✗ snapshots") && text.contains("vm-with-snapshot-"),
        "{text}"
    );
}

#[test]
fn a_check_that_fails_says_why() {
    let vm = guest(GuestOs::Linux);
    let e = Failure::Infra("timed out".into());
    let bad = output(false, "", "401 unauthorized\nmore\n");
    let fails = |evidence: Evidence| {
        let (lines, _) = doctor("lin", &vm, TOOL, evidence);
        let line = lines.last().unwrap();
        assert!(matches!(line, Line::Fail(_, _)), "{line:?}");
        line.text()
    };
    assert!(fails(Evidence::Running(Some(&e))).contains("timed out"));
    assert!(fails(Evidence::BroughtUp("stopped", Some(&e))).contains("timed out"));
    assert!(fails(Evidence::Git(None)).contains("sync needs it"));
    assert!(fails(Evidence::WorkRoot(Some(&bad))).contains("~/work not writable"));
    assert_eq!(
        fails(Evidence::ClaudeAuth(Ok(&bad))),
        format!("  ✗ {TOOL} auth: probe failed: 401 unauthorized — log in inside the guest (run `{TOOL}`)")
    );
    assert!(fails(Evidence::ClaudeAuth(Err(&e))).ends_with("probe failed: timed out"));
    assert!(fails(Evidence::Shutdown(Ok(&State::Missing))).contains("vm deploy lin"));
    assert!(fails(Evidence::Shutdown(Ok(&State::Stale))).contains("vm deploy lin"));
    assert!(fails(Evidence::ConsoleUser(Some(&output(true, "PC\\else", "")))).contains("else"));
}

#[test]
fn a_missing_coding_agent_is_no_failure() {
    let vm = guest(GuestOs::Linux);
    let (lines, next) = doctor("lin", &vm, TOOL, Evidence::Claude(None));
    assert_eq!(next, Stage::Idle);
    assert_eq!(
        lines[0].text(),
        format!("  - {TOOL}: not installed — needed only for `vm {TOOL}`")
    );
    let (_, next) = doctor("lin", &vm, TOOL, Evidence::Claude(Some(&output(true, "1.0", ""))));
    assert_eq!(next, Stage::ClaudeAuth);
}

#[test]
fn a_survey_brings_no_vm_up() {
    assert_eq!(reach("running", false), Reach::Look);
    assert_eq!(reach("stopped", false), Reach::Leave);
    assert_eq!(reach("stopped", true), Reach::BringUp);
    let vm = guest(GuestOs::Linux);
    let (lines, next) = doctor("lin", &vm, TOOL, Evidence::Left("stopped"));
    assert_eq!(next, Stage::Over);
    assert!(matches!(&lines[0], Line::Skip(_, d) if d.contains("`vm doctor lin`")));
}

#[test]
fn the_host_is_checked_too() {
    let e = Failure::Infra("no prlctl".into());
    assert!(matches!(prlctl_check(Ok(3)), Line::Pass(_, d) if d.contains('3')));
    assert!(matches!(prlctl_check(Err(&e)), Line::Fail(_, d) if d.contains("no prlctl")));
    let aliases = ["lin".to_string(), "mac".to_string()];
    assert!(matches!(config_check("/c", Ok(&aliases)), Line::Pass(_, d) if d.contains("lin, mac")));
    assert!(matches!(config_check("/c", Err(&e)), Line::Fail(_, _)));
    assert!(matches!(key_check("/k", true), Line::Pass(_, _)));
    assert!(!matches!(key_check("/k", false), Line::Pass(_, _)));
    assert!(matches!(timer_check(true, false), Line::Pass(_, _)));
    assert!(matches!(timer_check(true, true), Line::Fail(_, _)));
    assert!(!matches!(timer_check(false, false), Line::Pass(_, _)));
    assert!(journal_check(Some("/l/vm.log"), Some(2048)).text().contains("/l/vm.log"));
    assert!(matches!(
        guest_heading("lin", &guest(GuestOs::Linux)),
        Line::Heading(h) if h.contains("lin")
    ));
}

#[test]
fn answers_are_read_from_either_channel() {
    assert!(matches!(agent_answer(Ok(CURRENT.into())), AgentAnswer::Version(v) if v.proto == 4));
    assert!(matches!(agent_answer(Ok("huh".into())), AgentAnswer::Garbled(_)));
    let silent = agent_answer(Err(Failure::Infra("gone".into())));
    assert!(matches!(silent, AgentAnswer::Silent(e) if e.text() == "gone"));
    let out = output(true, CURRENT, "");
    assert!(matches!(console_answer(Some(&out)), AgentAnswer::Version(_)));
    assert!(matches!(console_answer(None), AgentAnswer::Silent(_)));
    assert_eq!(first_line(b"  one\ntwo"), "one");
    assert_eq!(first_line(b""), "(no output)");
    let win = guest(GuestOs::Windows);
    assert!(whoami_command(&win).unwrap().contains(&"whoami".to_string()));
    assert!(console_agent_command(&win).unwrap().last().unwrap().ends_with("_version"));
    assert_eq!(work_root_command(&win)[..2], ["sh", "-c"]);
    let (version, auth) = vm::doctor::claude_commands(TOOL);
    assert!(version[2].contains(&format!("{TOOL} --version")), "{version:?}");
    assert!(auth[2].contains("say hi"), "{auth:?}");
}

#[test]
fn the_host_is_checked_in_order() {
    let cfg = Config::parse(
        "[vm.lin]\nparallels_name='U'\nos='linux'\nuser='u'\nwork_root='~/w'\n",
    )
    .unwrap();
    let e = Failure::Infra("no prlctl".into());
    let (line, next) = host(HostEvidence::Prlctl(Err(&e)));
    assert!(matches!(line, Line::Fail(_, _)));
    assert!(matches!(next, Ok(HostStage::Config)));
    let (line, next) = host(HostEvidence::Config("/c", Ok(&cfg), Some("lin")));
    assert_eq!(line.text(), "  ✓ config: /c (lin)");
    assert!(matches!(next, Ok(HostStage::Key)));
    let (_, next) = host(HostEvidence::Config("/c", Ok(&cfg), Some("linn")));
    assert!(next.unwrap_err().text().contains("unknown VM alias 'linn'"));
    let (line, next) = host(HostEvidence::Config("/c", Err(&e), None));
    assert!(matches!(line, Line::Fail(_, _)));
    assert!(matches!(next, Ok(HostStage::Over)));
    let rest = [
        (HostEvidence::Key("/k", true), HostStage::Timer),
        (HostEvidence::Timer(true, false), HostStage::Journal),
        (HostEvidence::Journal(None, None), HostStage::Guests),
    ];
    for (seen, after) in rest {
        assert_eq!(host(seen).1.unwrap(), after);
    }
}

#[test]
fn git_is_asked_for_its_version() {
    assert_eq!(vm::doctor::git_command(), ["git", "--version"]);
    assert_eq!(vm::doctor::KEY, "~/.ssh/id_ed25519");
}
