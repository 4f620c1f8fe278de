//! Sweeping up the VMs that nobody uses.

use vm::cli::{reap_mode, ReapMode};
use vm::exit::Failure;
use vm::journal::Say;
use vm::process::Output;
use vm::reap::{
    covers, gui_domain, gui_domain_target, installed, is_stale, launchctl, launchd_loaded,
    legacy_removed, load_args, look_args, plist, plist_is_stale, plist_path, reap, stopped,
    unload_args, LAUNCHD_LABEL, LEGACY_LOG, Seen, Sweep,
};

const MINUTE: u128 = 60_000_000_000;

fn sample() -> String {
    plist(
        "/usr/local/bin/vm",
        30,
        "/home/x/.config/vm/log/reap-launchd.log",
    )
}

#[test]
fn the_plist_keeps_the_details_that_put_the_sweep_in_the_journal() {
    let text = sample();

    assert!(text.contains("<string>--quiet</string>"), "{text}");
    assert!(
        text.contains(
            "<key>StandardOutPath</key><string>/home/x/.config/vm/log/reap-launchd.log</string>"
        ),
        "{text}"
    );
    assert!(
        text.contains(
            "<key>StandardErrorPath</key><string>/home/x/.config/vm/log/reap-launchd.log</string>"
        ),
        "{text}"
    );
    assert!(
        !text.contains("Library/Logs"),
        "the retired log is gone: {text}"
    );
    assert!(
        text.contains("<key>PATH</key><string>/usr/local/bin:/usr/bin:/bin</string>"),
        "{text}"
    );
    assert!(
        text.contains("<key>StartInterval</key><integer>300</integer>"),
        "{text}"
    );
    assert!(text.contains("<string>--idle-minutes</string>"), "{text}");
    assert!(text.contains("<string>30</string>"), "{text}");
    assert!(
        text.contains("<string>/usr/local/bin/vm</string>"),
        "{text}"
    );
}

#[test]
fn a_plist_from_before_the_journal_reads_as_stale() {
    let shipped_through_v0_2 = r#"    <array>
        <string>/usr/local/bin/vm</string>
        <string>reap</string>
    </array>
    <key>StandardOutPath</key><string>/home/x/Library/Logs/vm-reap.log</string>
"#;
    assert!(is_stale(shipped_through_v0_2));
    assert!(!is_stale(&sample()), "the one we write now is not stale");
    assert!(plist_is_stale(Some(shipped_through_v0_2)));
    assert!(!plist_is_stale(Some(&sample())));
    assert!(!plist_is_stale(None));
}

#[test]
fn a_plist_without_quiet_reads_as_stale_even_with_a_good_gutter() {
    let no_quiet = sample().replace("        <string>--quiet</string>\n", "");
    assert!(!no_quiet.contains("--quiet"));
    assert!(is_stale(&no_quiet));
}

// ── The sweep ────────────────────────────────────────────────────────────────

#[test]
fn an_idle_vm_is_shut_down_and_the_journal_says_why() {
    assert!(matches!(reap("windows", 30, Seen::Status("running")), Sweep::Claim));
    assert!(matches!(reap("windows", 30, Seen::Claimed(true)), Sweep::Measure));
    let hour = 60 * MINUTE;
    let Sweep::AskConsole(idle) = reap("windows", 30, Seen::Idle(Some(hour))) else {
        panic!("a VM idle for an hour is worth a look at its console");
    };
    assert_eq!(idle, hour);
    assert!(matches!(
        reap("windows", 30, Seen::Input(idle, Ok(hour))),
        Sweep::Stop(None)
    ));
    assert_eq!(
        stopped("windows", idle),
        "vm ▸ reap ▸ windows shut down after 60m idle (any `vm exec` boots it)"
    );
}

#[test]
fn a_vm_that_is_already_down_is_left_alone() {
    for status in ["stopped", "suspended", "starting"] {
        assert!(matches!(
            reap("windows", 0, Seen::Status(status)),
            Sweep::Leave(None)
        ));
    }
}

#[test]
fn a_recently_used_vm_is_kept() {
    let Sweep::Leave(Some(line)) = reap("windows", 30, Seen::Idle(Some(12 * MINUTE))) else {
        panic!("twelve minutes of thirty must keep it");
    };
    assert!(line.text().contains("kept"), "{line:?}");
    assert!(line.text().contains("12m of 30m"), "{line:?}");
}

#[test]
fn a_vm_with_someone_at_its_console_is_kept() {
    let seen = Seen::Input(60 * MINUTE, Ok(5_000_000_000));
    let Sweep::Leave(Some(line)) = reap("windows", 30, seen) else {
        panic!("someone is at the console");
    };
    assert!(line.text().contains("console input"), "{line:?}");
}

#[test]
fn a_console_probe_that_fails_shuts_the_vm_down_but_never_quietly() {
    let failure = Failure::Infra("Unable to open new session".into());
    let Sweep::Stop(Some(line)) = reap("windows", 30, Seen::Input(60 * MINUTE, Err(failure)))
    else {
        panic!("a failed probe must not keep the VM");
    };
    assert!(
        line.text().contains("probe failed") && line.text().contains("shutting down anyway"),
        "{line:?}"
    );
    assert!(matches!(line, Say::Notice(_)) && line.reaches_stderr(true));
}

#[test]
fn a_vm_in_use_is_never_reaped() {
    let Sweep::Leave(Some(line)) = reap("windows", 0, Seen::Claimed(false)) else {
        panic!("a VM in use must be left");
    };
    assert!(line.text().contains("in use — skipped"), "{line:?}");
}

#[test]
fn a_sweep_covers_every_vm_or_the_named_one() {
    assert!(covers(None, "lin"));
    assert!(covers(Some("lin"), "lin"));
    assert!(!covers(Some("lin"), "mac"));
    assert_eq!(reap_mode(true, false), ReapMode::Install);
    assert_eq!(reap_mode(false, true), ReapMode::Uninstall);
    assert_eq!(reap_mode(false, false), ReapMode::Sweep);
}

// ── The timer ────────────────────────────────────────────────────────────────

fn output(success: bool, stderr: &str) -> Output {
    Output {
        success,
        code: Some(if success { 0 } else { 5 }),
        stdout: Vec::new(),
        stderr: stderr.into(),
    }
}

#[test]
fn the_timer_is_installed_for_the_users_session() {
    assert_eq!(
        plist_path(Some("/Users/me")).unwrap(),
        format!("/Users/me/Library/LaunchAgents/{LAUNCHD_LABEL}.plist")
    );
    assert!(plist_path(None).is_err());
    assert_eq!(gui_domain(501), "gui/501");
    assert_eq!(gui_domain_target(501), format!("gui/501/{LAUNCHD_LABEL}"));
    let args = ["bootstrap".to_string(), "gui/501".to_string()];
    assert!(launchctl(&args, &output(true, "")).is_ok());
    let err = launchctl(&args, &output(false, "denied\n")).unwrap_err();
    assert!(err.text().contains("bootstrap") && err.text().contains("denied"), "{err:?}");
    assert!(launchd_loaded(Some(&output(true, ""))));
    assert!(!launchd_loaded(Some(&output(false, ""))) && !launchd_loaded(None));
    assert!(installed("/usr/local/bin/vm", 30).contains("30"));
    assert!(legacy_removed(LEGACY_LOG).contains(LEGACY_LOG));
}

#[test]
fn doctor_of_a_running_guest_counts_as_a_use_and_stays_reaps_hand() {
    // A use touches the lock file on its way out, and idle time counts from there.
    assert!(vm::lock::touches(vm::lock::Hold::Shared));
    let Sweep::Leave(Some(line)) = reap("windows", 30, Seen::Idle(Some(0))) else {
        panic!("a guest that was just looked at must be kept");
    };
    assert!(line.text().contains("kept"), "{line:?}");
    assert!(matches!(reap("windows", 30, Seen::Idle(None)), Sweep::Leave(Some(_))));
}

#[test]
fn the_job_is_loaded_unloaded_and_looked_for_by_its_name() {
    assert_eq!(unload_args(501), ["bootout", "gui/501/com.akesson.vm.reap"]);
    assert_eq!(load_args(501, "/p"), ["bootstrap", "gui/501", "/p"]);
    assert_eq!(look_args(501), ["print", "gui/501/com.akesson.vm.reap"]);
}
