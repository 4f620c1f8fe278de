//! Parallels: what it reports, and what is made of it.

use vm::exit::Failure;
use vm::prl::{
    assess, check_exec_argv, created_snapshot, ensure_running, ensure_up, exec_console,
    exec_elevated, find, heartbeat, ip_timeout, is_off, is_session_not_ready, listed_details,
    listed_snapshots, lost_start, parse_details, parse_list, parse_snapshot_id,
    parse_snapshot_list, poll, prlctl, transition_grace, unusable_addrs, wait_for_ip, PrlVm, Step,
    Waiting, Wake, EXEC_ARGV_LIMIT,
};
use vm::process::Output;

const SECOND: u128 = 1_000_000_000;

#[test]
fn parses_prlctl_list_json() {
    let json = r#"[
            {"uuid": "{db670d16}", "status": "suspended", "ip_configured": "-", "name": "Ubuntu 24.04"},
            {"uuid": "{d2b7786c}", "status": "running", "ip_configured": "10.211.55.4", "name": "Windows 11"}
        ]"#;
    let vms: Vec<PrlVm> = parse_list(json).unwrap();
    assert_eq!(vms.len(), 2);
    assert_eq!(vms[0].ip(), None);
    assert_eq!(vms[1].ip().as_deref(), Some("10.211.55.4"));
}

#[test]
fn an_unexpected_listing_says_what_is_wrong() {
    let err = parse_list(r#"[{"uuid": "x", "status": "running", "name": "A"}]"#).unwrap_err();
    assert_eq!(
        err.text(),
        "unexpected `prlctl list --json` output: missing field `ip_configured`"
    );
    let err = parse_list("not json").unwrap_err();
    assert!(
        err.text().starts_with("unexpected `prlctl list --json` output: expected ident"),
        "{err:?}"
    );
    assert!(parse_list("[]").unwrap().is_empty());
}

#[test]
fn exec_argv_guard_passes_real_vm_traffic() {
    check_exec_argv(
        "Windows 11",
        &["cmd", "/c", r"%USERPROFILE%\.vm\bin\vm.exe _exec"],
    )
    .unwrap();
    check_exec_argv("Windows 11", &["cmd", "/c", "whoami"]).unwrap();
}

#[test]
fn exec_argv_guard_rejects_oversized_argv_with_the_cause() {
    let big = "A".repeat(EXEC_ARGV_LIMIT + 1);
    let err = check_exec_argv("Ubuntu 24.04", &["/bin/echo", &big]).unwrap_err();
    let err = err.text();
    assert!(err.contains("hangs forever"), "{err}");
    assert!(err.contains("stdin"), "{err}");
}

#[test]
fn exec_argv_guard_sums_across_arguments() {
    let arg = "A".repeat(500);
    let args: Vec<&str> = std::iter::repeat(arg.as_str()).take(10).collect();
    assert!(check_exec_argv("Ubuntu 24.04", &args).is_err());
}

#[test]
fn the_argv_cap_counts_bytes_and_one_more_for_each_argument() {
    let at_cap = "A".repeat(EXEC_ARGV_LIMIT - 1);
    assert!(check_exec_argv("v", &[&at_cap]).is_ok());
    let over = "A".repeat(EXEC_ARGV_LIMIT);
    assert!(check_exec_argv("v", &[&over]).is_err());
    let wide = "ö".repeat(EXEC_ARGV_LIMIT / 2);
    let err = check_exec_argv("v", &[&wide]).unwrap_err();
    assert!(err.text().contains("totals 3073 bytes"), "{err:?}");
}

#[test]
fn both_prlctl_channels_check_their_argv() {
    exec_elevated("Ubuntu 24.04", &["/home/parallels/.vm/bin/vm", "_exec"]).unwrap();
    exec_elevated(
        "Windows 11",
        &[r"C:\Users\hakesson\.vm\bin\vm.exe", "_exec"],
    )
    .unwrap();

    let big = "A".repeat(EXEC_ARGV_LIMIT + 1);
    let err = exec_elevated("Ubuntu 24.04", &["sh", "-c", &big]).unwrap_err();
    let err = err.text();
    assert!(err.contains("hangs forever"), "{err}");
    assert!(exec_console("Windows 11", &[&big]).is_err());
    assert_eq!(
        exec_console("Windows 11", &["cmd", "/c", "whoami"]).unwrap(),
        ["exec", "Windows 11", "--current-user", "cmd", "/c", "whoami"]
    );
}

#[test]
fn a_lagging_tools_session_is_recognized() {
    assert!(is_session_not_ready(
        "Failed to execute the command: Unable to open new session in this virtual machine."
    ));
    assert!(!is_session_not_ready(
        "Unable to perform the operation because \"macOS\" is not started."
    ));
}

#[test]
fn extracts_snapshot_id_from_prlctl_output() {
    let out = "Creating the snapshot...\nThe snapshot with id {8b171e2f-4b7f-4e01-a689-a2d360d63e49} has been successfully created.\n";
    assert_eq!(
        parse_snapshot_id(out).as_deref(),
        Some("{8b171e2f-4b7f-4e01-a689-a2d360d63e49}")
    );
    assert_eq!(parse_snapshot_id("no id here"), None);
    assert_eq!(parse_snapshot_id("} {only"), None);
    assert!(created_snapshot("nothing").unwrap_err().text().ends_with("nothing"));
}

#[test]
fn parses_snapshot_list_including_empty() {
    assert_eq!(parse_snapshot_list("").unwrap(), vec![]);
    assert_eq!(parse_snapshot_list("\n").unwrap(), vec![]);
    let json = r#"{
            "{351b744b-3b1b-422c-957f-cfeae36b472d}": {
            "name": "vm-with-snapshot-lin",
            "date": "2026-07-10 11:41:38",
            "state": "poweron",
            "current": true,
            "parent": ""
        }
        }"#;
    assert_eq!(
        parse_snapshot_list(json).unwrap(),
        vec![(
            "{351b744b-3b1b-422c-957f-cfeae36b472d}".to_string(),
            "vm-with-snapshot-lin".to_string()
        )]
    );
    let err = listed_snapshots("macOS", r#"{"a": {}}"#).unwrap_err();
    assert_eq!(
        err.text(),
        "unexpected `prlctl snapshot-list macOS --json` output: missing field `name`"
    );
}

#[test]
fn parses_vm_details() {
    let json = r#"[{
            "Name": "macOS",
            "Home": "/Users/hakesson/Parallels/macOS.macvm/",
            "Hardware": {
                "cpu": {"cpus": 10},
                "memory": {"size": "20480Mb", "auto": "off", "hotplug": false}
            }
        }]"#;
    let d = parse_details(json).unwrap();
    assert_eq!(d.home, "/Users/hakesson/Parallels/macOS.macvm/");
    assert_eq!(d.memory_mb, 20480);
}

#[test]
fn details_say_what_is_wrong_with_them() {
    assert_eq!(parse_details("[]").unwrap_err(), "empty VM info list");
    let size = |s: &str| format!(r#"[{{"Home":"/h","Hardware":{{"memory":{{"size":"{s}"}}}}}}]"#);
    assert_eq!(
        parse_details(&size("lotsMb")).unwrap_err(),
        "cannot parse memory size 'lotsMb': invalid digit found in string"
    );
    assert_eq!(parse_details(&size("512")).unwrap().memory_mb, 512);
    let err = listed_details("v", r#"[{"Home":"/h"}]"#).unwrap_err();
    assert_eq!(
        err.text(),
        "unexpected `prlctl list -i v --json` output: missing field `Hardware`"
    );
}

#[test]
fn only_settled_off_states_count_as_off() {
    for status in ["stopped", "suspended", "paused"] {
        assert!(is_off(status), "{status}");
    }
    for status in ["running", "starting", "resuming", "stopping"] {
        assert!(!is_off(status), "{status}");
    }
}

fn secs(n: u64) -> u128 {
    n as u128 * SECOND
}

fn look(name: &str, status: &str, addrs: &str, waited: u128, timeout: u128) -> Step {
    assess(name, status, addrs, waited, timeout, transition_grace(SECOND))
}

#[test]
fn an_ip_ends_the_wait() {
    let up = Step::Up("10.211.55.4".into());
    assert_eq!(look("v", "running", "10.211.55.4", secs(0), secs(90)), up);
    assert_eq!(
        look("v", "suspended", "10.211.55.4", secs(60), secs(90)),
        up
    );
}

#[test]
fn a_booting_guest_is_given_its_full_timeout() {
    for waited in [0, 5, 30, 89] {
        assert_eq!(
            look("v", "running", "-", secs(waited), secs(90)),
            Step::Wait,
            "{waited}s"
        );
    }
}

#[test]
fn an_off_vm_is_given_the_grace_window_before_being_judged() {
    for waited in [0, 5, 14] {
        assert_eq!(
            look("v", "suspended", "-", secs(waited), secs(90)),
            Step::Wait,
            "{waited}s"
        );
    }
    assert_eq!(look("v", "starting", "-", secs(60), secs(90)), Step::Wait);
    assert_eq!(look("v", "resuming", "-", secs(60), secs(90)), Step::Wait);
}

#[test]
fn an_off_vm_past_the_grace_window_fails_early_and_says_why() {
    for status in ["stopped", "suspended", "paused"] {
        let Step::Fail(msg) = look("macOS", status, "-", secs(15), secs(90)) else {
            panic!("{status} past grace must fail");
        };
        assert!(msg.contains(status), "{msg}");
        assert!(msg.contains("did not take effect"), "{msg}");
        assert!(msg.contains("vm reap"), "{msg}");
        let verb = if status == "stopped" {
            "start"
        } else {
            "resume"
        };
        assert!(msg.contains(&format!(r#"prlctl {verb} "macOS""#)), "{msg}");
    }
}

#[test]
fn the_timeout_message_names_the_status_it_timed_out_on() {
    let Step::Fail(msg) = look("macOS", "running", "-", secs(90), secs(90)) else {
        panic!("a running VM with no IP must time out");
    };
    assert!(msg.contains("is running"), "{msg}");
    assert!(msg.contains("Parallels Tools"), "{msg}");

    let Step::Fail(msg) = look("macOS", "suspended", "-", secs(90), secs(90)) else {
        panic!("suspended must fail");
    };
    assert!(msg.contains("will never report an IP"), "{msg}");
    assert!(!msg.contains("Parallels Tools"), "{msg}");
}

#[test]
fn link_local_ipv6_is_not_an_ip_yet() {
    assert_eq!(vm_reporting("fe80::bcca:2118:95a7:5e25").ip(), None);
}

#[test]
fn a_ula_ipv6_is_not_an_ip_yet_either() {
    assert_eq!(
        vm_reporting("fdb2:2c26:f4e4:0:357:80a2:89e0:6574").ip(),
        None
    );
}

#[test]
fn a_link_local_ipv4_is_not_an_ip_yet_either() {
    assert_eq!(vm_reporting("169.254.96.137").ip(), None);
}

#[test]
fn every_stage_of_a_cold_boot_is_held_out_for_the_dhcp_lease() {
    let wake = [
        ("-", None),
        ("fe80::bcca:2118:95a7:5e25", None),
        ("fdb2:2c26:f4e4:0:357:80a2:89e0:6574", None),
        ("169.254.96.137", None),
        ("10.211.55.3", Some("10.211.55.3")),
    ];
    for (reported, expected) in wake {
        assert_eq!(
            vm_reporting(reported).ip().as_deref(),
            expected,
            "reported: {reported}"
        );
    }
}

#[test]
fn the_ipv4_is_picked_out_of_the_addresses_reported() {
    let vm = vm_reporting("fdb2:2c26:f4e4:0:357:80a2:89e0:6574 10.211.55.3 fe80::1");
    assert_eq!(vm.ip().as_deref(), Some("10.211.55.3"));
}

#[test]
fn an_ipv6_only_guest_is_named_as_such_not_blamed_on_parallels_tools() {
    let Step::Fail(msg) = look("Windows 11", "running", "fdb2::5", secs(90), secs(90)) else {
        panic!("an IPv6-only guest must time out");
    };
    assert!(msg.contains("fdb2::5"), "{msg}");
    assert!(msg.contains("IPv4"), "{msg}");
    assert!(!msg.contains("Parallels Tools"), "{msg}");
}

fn vm_reporting(ip_configured: &str) -> PrlVm {
    phase("running", ip_configured)
}

fn phase(status: &str, ip_configured: &str) -> PrlVm {
    PrlVm {
        uuid: "{x}".into(),
        status: status.into(),
        ip_configured: ip_configured.into(),
        name: "Windows 11".into(),
    }
}

// ── A wake from end to end ───────────────────────────────────────────────────

const LEASE: &str = "10.211.55.3";

/// Waits for the address of a guest that goes through these phases, one for each
/// look, the last repeating.
fn wait(phases: &[(&str, &str)]) -> Result<(String, usize), Failure> {
    let mut beat = heartbeat(SECOND);
    for turn in 0..1000u32 {
        let (status, ip) = phases[(turn as usize).min(phases.len() - 1)];
        let waited = turn as u128 * poll(SECOND);
        match wait_for_ip("windows", &phase(status, ip), waited, beat, SECOND) {
            Waiting::Ready(ip) => return Ok((ip, turn as usize)),
            Waiting::GiveUp(e) => return Err(e),
            Waiting::Again(line, next) => {
                if let Some(line) = line {
                    assert!(line.contains("no IP yet"), "{line}");
                }
                beat = next;
            }
        }
    }
    panic!("a wait must end");
}

#[test]
fn a_cold_boot_holds_out_through_every_stopgap_address() {
    let phases = [
        ("starting", "-"),
        ("running", "-"),
        ("running", "fe80::bcca:2118:95a7:5e25"),
        ("running", "fdb2:2c26:f4e4:0:357:80a2:89e0:6574"),
        ("running", "169.254.96.137"),
        ("running", LEASE),
    ];
    assert_eq!(wait(&phases).unwrap(), (LEASE.to_string(), 5));
    assert!(matches!(
        ensure_running("windows", &phase("stopped", "-"), 0, secs(15)),
        Wake::Start(line) if line == "vm ▸ windows ▸ 'Windows 11' is stopped — starting it…"
    ));
}

#[test]
fn a_suspended_vm_is_resumed_exactly_once() {
    assert!(matches!(
        ensure_running("windows", &phase("suspended", "-"), 0, secs(15)),
        Wake::Resume(line) if line.contains("is suspended — resuming it")
    ));
    let phases = [("suspended", "-"), ("resuming", "-"), ("running", LEASE)];
    assert_eq!(wait(&phases).unwrap().0, LEASE);
}

#[test]
fn a_vm_that_never_leaves_its_off_state_fails_fast_and_names_it() {
    let err = wait(&[("suspended", "-")]).unwrap_err();
    let err = err.text();
    assert!(err.contains("will never report an IP"), "{err}");
    assert!(
        err.contains("vm reap") && err.contains(r#"prlctl resume "Windows 11""#),
        "{err}"
    );
    assert!(!err.contains("Parallels Tools isn't running"), "{err}");
}

#[test]
fn a_running_guest_with_no_address_times_out_on_the_booting_story() {
    let err = wait(&[("running", "-")]).unwrap_err();
    assert!(!err.is_usage());
    assert!(
        err.text().contains("did not report an IP") && err.text().contains("Parallels Tools"),
        "{err:?}"
    );
}

#[test]
fn a_guest_stuck_on_a_stopgap_address_is_told_which_one() {
    let err = wait(&[("running", "169.254.96.137")]).unwrap_err();
    let err = err.text();
    assert!(err.contains("169.254.96.137") && err.contains("IPv4"), "{err}");
    assert!(!err.contains("Parallels Tools isn't running"), "{err}");
}

#[test]
fn a_running_vm_is_used_as_it_is() {
    assert!(matches!(
        ensure_running("windows", &phase("running", LEASE), 0, secs(15)),
        Wake::Running
    ));
    assert_eq!(wait(&[("running", LEASE)]).unwrap(), (LEASE.to_string(), 0));
    assert!(!ensure_up(LEASE.into(), false, false, false).woke);
}

#[test]
fn a_start_that_loses_to_a_wake_already_in_flight_is_joined_not_failed() {
    let lost = || Failure::Infra("The virtual machine is not stopped.".into());
    let line = lost_start("windows", &phase("running", LEASE), lost()).unwrap();
    assert!(
        line.contains("something else brought it up; joining that wake"),
        "{line}"
    );
    let err = lost_start("windows", &phase("stopped", "-"), lost()).unwrap_err();
    assert_eq!(err.text(), "The virtual machine is not stopped.");
}

#[test]
fn a_bring_up_joins_a_wake_in_flight_without_starting_again() {
    assert!(matches!(
        ensure_running("windows", &phase("starting", "-"), 0, secs(15)),
        Wake::Join(line) if line.contains("a wake is already in flight; joining it")
    ));
    assert!(ensure_up(LEASE.into(), false, true, false).woke);
}

#[test]
fn a_racer_reading_a_running_but_addressless_guest_still_waits_for_it() {
    assert!(matches!(
        ensure_running("windows", &phase("running", "-"), 0, secs(15)),
        Wake::Running
    ));
    let (ip, looks) = wait(&[("running", "-"), ("running", LEASE)]).unwrap();
    assert!(ensure_up(ip, false, false, looks > 0).woke);
}

#[test]
fn a_vm_stuck_stopping_past_the_grace_window_fails_and_says_so() {
    let stopping = phase("stopping", "-");
    assert!(matches!(
        ensure_running("windows", &stopping, secs(14), secs(15)),
        Wake::Settle
    ));
    let Wake::Fail(err) = ensure_running("windows", &stopping, secs(15), secs(15)) else {
        panic!("a stop that does not land must fail");
    };
    assert!(!err.is_usage() && err.text().contains("stopping"), "{err:?}");
    assert!(matches!(
        ensure_running("windows", &phase("odd", "-"), 0, secs(15)),
        Wake::Fail(e) if e.text().contains("unexpected state 'odd'")
    ));
}

#[test]
fn waits_are_measured_in_ticks() {
    assert_eq!(ip_timeout(SECOND), secs(90));
    assert_eq!(poll(SECOND), secs(2));
    assert_eq!(heartbeat(SECOND), secs(10));
    assert_eq!(transition_grace(SECOND), secs(15));
    assert_eq!(vm::clock::tick(Some("20")), 20_000_000);
    assert_eq!(vm::clock::tick(Some("0")), SECOND);
    assert_eq!(vm::clock::tick(None), SECOND);
    assert_eq!(vm::clock::ticks(20_000_000, 90), 1_800_000_000);
}

#[test]
fn a_vm_is_found_by_its_name() {
    let vms = [phase("running", LEASE)];
    assert_eq!(find(&vms, "Windows 11").unwrap().uuid, "{x}");
    assert_eq!(
        find(&vms, "nope").unwrap_err().text(),
        "no Parallels VM named 'nope' (see `prlctl list -a`)"
    );
    assert_eq!(unusable_addrs("fe80::1 - 10.0.0.1"), ["fe80::1"]);
}

#[test]
fn a_failed_prlctl_is_reported_with_its_complaint() {
    let out = |success, stdout: &[u8], stderr: &[u8]| Output {
        success,
        code: Some(1),
        stdout: stdout.to_vec(),
        stderr: stderr.to_vec(),
    };
    let args = ["start".to_string(), "v".to_string()];
    let err = prlctl(&args, out(false, b"", b" no such VM\xff\n")).unwrap_err();
    assert_eq!(err.text(), "prlctl start v failed: no such VM\u{fffd}");
    assert_eq!(prlctl(&args, out(true, b"done\n", b"")).unwrap(), "done\n");
    let err = prlctl(&args, out(true, b"\xff", b"")).unwrap_err();
    assert!(err.text().contains("invalid utf-8"), "{err:?}");
}

#[test]
fn no_prlctl_command_line_vm_builds_comes_near_the_size_that_hangs_it() {
    let vm = vm::config::VmConfig {
        parallels_name: "Windows 11".into(),
        os: vm::config::GuestOs::Windows,
        user: "hakesson".into(),
        work_root: r"C:\work".into(),
        host: None,
        agent_path: None,
    };
    let name = vm.parallels_name.as_str();
    let calls = [
        vm::prl::list_all(),
        vm::prl::start(name),
        vm::prl::resume(name),
        vm::prl::stop(name),
        vm::prl::snapshot_list(name),
        vm::prl::details(name),
        vm::idle::console_command(&vm).unwrap(),
        vm::doctor::whoami_command(&vm).unwrap(),
        vm::doctor::console_agent_command(&vm).unwrap(),
        vm::prldnd::install(&vm).unwrap(),
    ];
    for call in &calls {
        let total: usize = call.iter().map(|a| a.len() + 1).sum();
        assert!(total < 3 * 1024, "a {total}-byte prlctl command line: {call:?}");
    }
}

#[test]
fn concurrent_execs_against_a_cold_guest_all_run_and_start_it_once() {
    let first = ensure_running("windows", &phase("stopped", "-"), 0, secs(15));
    assert!(matches!(first, Wake::Start(_)));
    for seen in ["starting", "running"] {
        let next = ensure_running("windows", &phase(seen, "-"), 0, secs(15));
        assert!(!matches!(next, Wake::Start(_) | Wake::Resume(_)), "{seen}");
    }
}

#[test]
fn listings_of_lists_are_read_too() {
    let vms = parse_list(r#"[["{u}", "running", "10.0.0.5", "A"]]"#).unwrap();
    assert_eq!((vms[0].uuid.as_str(), vms[0].name.as_str()), ("{u}", "A"));
    assert_eq!(
        parse_snapshot_list(r#"{"{a}": ["s"]}"#).unwrap(),
        [("{a}".to_string(), "s".to_string())]
    );
    assert_eq!(parse_details(r#"[["/h", [["512Mb"]]]]"#).unwrap().memory_mb, 512);
    assert!(parse_snapshot_list(r#"{"{a}": []}"#)
        .unwrap_err()
        .contains("expected struct Snap with 1 element"));
}
