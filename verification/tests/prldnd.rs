//! The shutdown unit of a Linux guest.

use vm::config::{GuestOs, VmConfig};
use vm::prldnd::{
    assess, check, check_command, install, installed, probe_command, property, show_code, State,
    UNIT, UNIT_NAME, UNIT_PATH,
};
use vm::process::Output;

#[test]
fn the_unit_keeps_the_four_details_that_make_it_work() {
    assert!(
        UNIT.contains("ExecStop=-/usr/bin/pkill -9 -x prldnd"),
        "{UNIT}"
    );
    assert!(UNIT.contains("ExecStop=-"), "{UNIT}");
    assert!(UNIT.contains("DefaultDependencies=no"), "{UNIT}");
    assert!(UNIT.contains("Conflicts=shutdown.target"), "{UNIT}");
    assert!(UNIT.contains("Before=shutdown.target"), "{UNIT}");
    assert!(UNIT.contains("RemainAfterExit=yes"), "{UNIT}");
    assert!(UNIT.contains("WantedBy=multi-user.target"), "{UNIT}");
}

#[test]
fn a_healthy_guest_reads_good() {
    let out = format!("ActiveState=active\nUnitFileState=enabled\n---\n{UNIT}");
    assert!(matches!(assess(&out), State::Good));
}

#[test]
fn an_unknown_unit_reads_missing() {
    let out = "ActiveState=inactive\nUnitFileState=\n---\n";
    assert!(matches!(assess(out), State::Missing));
}

#[test]
fn the_probe_survives_the_unit_being_absent() {
    assert!(probe_command().ends_with("|| true"), "{}", probe_command());
}

#[test]
fn a_disabled_or_inactive_unit_is_not_good() {
    let disabled = format!("ActiveState=active\nUnitFileState=disabled\n---\n{UNIT}");
    assert!(matches!(assess(&disabled), State::NotEnabled(s) if s == "disabled"));
    let inactive = format!("ActiveState=inactive\nUnitFileState=enabled\n---\n{UNIT}");
    assert!(matches!(assess(&inactive), State::Inactive(s) if s == "inactive"));
}

#[test]
fn an_older_units_text_reads_stale() {
    let old = "ActiveState=active\nUnitFileState=enabled\n---\n\
               [Unit]\nDescription=old\n[Service]\nExecStop=/usr/bin/pkill prldnd\n";
    assert!(matches!(assess(old), State::Stale));
}

#[test]
fn properties_are_read_by_name_not_position() {
    let swapped = format!("UnitFileState=enabled\nActiveState=active\n---\n{UNIT}");
    assert!(matches!(assess(&swapped), State::Good));
    assert_eq!(property("A=1\nB=2\nA=3\n", "A"), "1");
    assert_eq!(property("AB=1\n", "A"), "");
}

#[test]
fn trailing_whitespace_is_not_staleness() {
    let out = format!("ActiveState=active\nUnitFileState=enabled\n---\n{UNIT}\n\n");
    assert!(matches!(assess(&out), State::Good));
}

fn vm(os: GuestOs) -> VmConfig {
    VmConfig {
        parallels_name: "Ubuntu 24.04".into(),
        os,
        user: "parallels".into(),
        work_root: "~/work".into(),
        host: None,
        agent_path: None,
    }
}

fn output(code: Option<i32>, stdout: &str, stderr: &str) -> Output {
    Output {
        success: code == Some(0),
        code,
        stdout: stdout.into(),
        stderr: stderr.into(),
    }
}

#[test]
fn installing_writes_the_unit_and_enables_it() {
    let args = install(&vm(GuestOs::Linux)).unwrap();
    assert_eq!(args[..2], ["exec", "Ubuntu 24.04"]);
    let script = args.last().unwrap();
    assert!(script.contains(UNIT_PATH) && script.contains(UNIT_NAME), "{script}");
    assert!(script.contains("enable --now"), "{script}");
    let vm = vm(GuestOs::Linux);
    assert!(installed("lin", &vm, &output(Some(0), "", "")).is_ok());
    let err = installed("lin", &vm, &output(Some(3), "", "no systemd\n")).unwrap_err();
    assert!(!err.is_usage() && err.text().contains("no systemd"), "{err:?}");
    assert_eq!(show_code(Some(3)), "Some(3)");
    assert_eq!(show_code(None), "None");
}

#[test]
fn a_probe_that_fails_is_no_verdict() {
    assert!(check_command().last().unwrap().contains(UNIT_NAME));
    let good = format!("ActiveState=active\nUnitFileState=enabled\n---\n{UNIT}");
    assert!(matches!(check(&output(Some(0), &good, "")), Ok(State::Good)));
    let err = check(&output(Some(255), "", "broken pipe")).unwrap_err();
    assert!(err.text().contains("broken pipe"), "{err:?}");
}
