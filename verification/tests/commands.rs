//! The verbs of the host.

use vm::commands::{
    agent_abs_path, agent_call, agent_command, agent_console_path, agent_path, apply_verb,
    asks_parallels, bring_up_elevated, check_headroom, clean, clean_command, cleaned,
    ensure_snapshot_headroom, first_sync_hook, guest_home, hook_outcome, init_verb, lookup, ls,
    resolve_with_files, rolled_back, shot, shot_line, snapshot_refused, snapshot_taken, ssh_target,
    stale_warning, start, stop, sweep_stale_snapshots, sync_cmd, sync_repo, synced_line, target_at,
    tree_verb, with_snapshot, Reaching, SnapshotStage,
};
use vm::config::{Config, GuestOs, VmConfig};
use vm::exit::{conclude, Failure, INFRA, USAGE};
use vm::guest_env::{resolve, GuestEnv};
use vm::mapping::RepoLocation;
use vm::prl::{PrlVm, VmDetails};
use vm::process::Output;
use vm::ssh::{escape_quotes, git_ssh_command, reachable, shell_quote, ssh_command, SshTarget};
use vm::sync::Snapshot;

fn details(memory_mb: u64) -> VmDetails {
    VmDetails {
        home: "/Users/x/Parallels/macOS.macvm/".into(),
        memory_mb,
    }
}

#[test]
fn headroom_needs_twice_the_vm_ram() {
    let d = details(20480);
    let gib = 1u64 << 30;
    assert!(check_headroom("mac", &d, 41 * gib).is_ok());
    let err = check_headroom("mac", &d, 39 * gib).unwrap_err();
    let err = err.text();
    assert!(err.contains("39.0 GiB free"), "{err}");
    assert!(err.contains("~40.0 GiB"), "{err}");
    assert!(err.contains("20.0 GiB RAM"), "{err}");
}

#[test]
fn headroom_that_cannot_be_read_does_not_stop_a_run() {
    let d = details(20480);
    assert!(ensure_snapshot_headroom("mac", &d, None).is_ok());
    assert!(ensure_snapshot_headroom("mac", &d, Some(0)).is_err());
    assert!(check_headroom("mac", &d, 40 << 30).is_ok());
    let err = check_headroom("mac", &details(1536), (5 << 30) / 2).unwrap_err();
    assert!(err.text().contains("2.5 GiB free") && err.text().contains("~3.0 GiB"), "{err:?}");
}

fn vm(os: GuestOs, agent_path: Option<&str>) -> VmConfig {
    VmConfig {
        parallels_name: "W".into(),
        os,
        user: "u".into(),
        work_root: r"C:\work".into(),
        host: None,
        agent_path: agent_path.map(String::from),
    }
}

fn win_vm(agent_path: Option<&str>) -> VmConfig {
    vm(GuestOs::Windows, agent_path)
}

#[test]
fn console_path_rewrites_tilde_for_cmd() {
    assert_eq!(
        agent_console_path(&win_vm(None)),
        r"%USERPROFILE%\.vm\bin\vm.exe"
    );
}

#[test]
fn console_path_keeps_absolute_paths_with_backslashes() {
    assert_eq!(
        agent_console_path(&win_vm(Some(r"C:\tools/vm.exe"))),
        r"C:\tools\vm.exe"
    );
}

#[test]
fn the_agent_lies_below_the_guests_home() {
    assert_eq!(agent_path(&win_vm(None)), "~/.vm/bin/vm.exe");
    assert_eq!(agent_path(&vm(GuestOs::Linux, None)), "~/.vm/bin/vm");
    assert_eq!(agent_path(&vm(GuestOs::Linux, Some("/opt/vm"))), "/opt/vm");
    assert_eq!(guest_home(&vm(GuestOs::Macos, None)), "/Users/u");
    assert_eq!(agent_abs_path(&vm(GuestOs::Linux, None)), "/home/u/.vm/bin/vm");
    assert_eq!(agent_abs_path(&win_vm(None)), r"C:\Users\u\.vm\bin\vm.exe");
    assert_eq!(
        agent_command(&vm(GuestOs::Linux, None), &["_tree", "--repo", "~/w/r"]),
        ["~/.vm/bin/vm", "'_tree'", "'--repo'", "'~/w/r'"]
    );
}

fn output(success: bool, stdout: &str, stderr: &str) -> Output {
    Output {
        success,
        code: Some(if success { 0 } else { 1 }),
        stdout: stdout.into(),
        stderr: stderr.into(),
    }
}

#[test]
fn a_missing_agent_is_told_from_one_that_failed() {
    assert_eq!(agent_call(Some("_tree"), output(true, "{}\n", "")).unwrap(), "{}");
    let err = agent_call(Some("_tree"), output(false, "", "sh: vm: not found\n")).unwrap_err();
    assert_eq!(
        err.text(),
        "vm agent not installed in guest (run `vm deploy` first)"
    );
    let err = agent_call(Some("_tree"), output(false, "", "disk full\n")).unwrap_err();
    assert_eq!(err.text(), "guest agent _tree failed: disk full");
}

fn listed(name: &str, status: &str, ip: &str) -> PrlVm {
    PrlVm {
        uuid: "{x}".into(),
        status: status.into(),
        ip_configured: ip.into(),
        name: name.into(),
    }
}

#[test]
fn a_guest_is_reached_by_its_host_or_its_address() {
    let vms = [listed("W", "running", "10.0.0.5")];
    let target = ssh_target(&win_vm(None), &vms).unwrap();
    assert_eq!(target.destination(), "u@10.0.0.5");
    let mut named = win_vm(None);
    named.host = Some("w.local".into());
    assert_eq!(ssh_target(&named, &[]).unwrap().host, "w.local");
    let err = ssh_target(&win_vm(None), &[]).unwrap_err();
    assert_eq!(err.text(), "no Parallels VM named 'W' (see `prlctl list -a`)");
    let off = [listed("W", "stopped", "-")];
    let err = ssh_target(&win_vm(None), &off).unwrap_err();
    assert_eq!(
        err.text(),
        "VM 'W' has no IP (status: stopped); `vm start` it first"
    );
    assert!(lookup(&vms, "W").is_some() && lookup(&vms, "X").is_none());
}

#[test]
fn the_list_shows_each_vm() {
    let cfg = Config::parse(
        "[vm.win]\nparallels_name='W'\nos='windows'\nuser='u'\nwork_root='C:\\work'\n\
         [vm.lin]\nparallels_name='L'\nos='linux'\nuser='u'\nwork_root='~/work'\n",
    )
    .unwrap();
    let rows = ls(&cfg, &[listed("W", "running", "10.0.0.5")], Some("repo"));
    assert_eq!(
        rows,
        [
            "ALIAS   OS       VM             STATUS     IP              CHECKOUT (this repo)",
            "lin     linux    L              missing!   -               ~/work/repo",
            "win     windows  W              running    10.0.0.5        C:/work/repo",
        ]
    );
    assert!(ls(&cfg, &[], None)[1].ends_with("- (not in a git repo)"));
}

#[test]
fn files_to_force_are_named_from_the_root() {
    let files = ["a.env".to_string(), "b".to_string()];
    let there = |p: &str| p == "sub/a.env" || p == "sub/b";
    assert_eq!(
        resolve_with_files(&files, "sub", there).unwrap(),
        ["sub/a.env", "sub/b"]
    );
    let err = resolve_with_files(&files, "", |p: &str| p == "a.env").unwrap_err();
    assert!(err.is_usage());
    assert_eq!(err.text(), "--with-file b: no such file");
}

#[test]
fn a_sync_is_verified_by_its_tree() {
    let snap = Snapshot {
        commit: "c".into(),
        tree: "0123456789abcdef".into(),
    };
    assert!(sync_repo(&snap, "0123456789abcdef").is_ok());
    let err = sync_repo(&snap, "ffff").unwrap_err();
    assert_eq!(
        err.text(),
        "sync verification failed: host tree 0123456789abcdef but guest reports ffff"
    );
    assert_eq!(
        synced_line("lin", "vm", &snap.tree, "0.4"),
        "vm ▸ lin ▸ synced vm ▸ tree 0123456789 ▸ 0.4s"
    );
    assert_eq!(sync_cmd(Ok(()), Ok(())).unwrap(), 0);
    let err = sync_cmd(Err(Failure::Infra("a".into())), Err(Failure::Infra("b".into())));
    assert_eq!(err.unwrap_err().text(), "a");
    assert!(sync_cmd(Ok(()), Err(Failure::Infra("b".into()))).is_err());
}

#[test]
fn a_fresh_checkout_is_set_up_where_the_repo_asks() {
    let repo = RepoLocation {
        root: "/r".into(),
        name: "r".into(),
        rel: String::new(),
    };
    let lin = vm(GuestOs::Linux, None);
    let off = resolve(Some(GuestEnv::Off), |_: &str| false);
    assert_eq!(first_sync_hook(&lin, &repo, &off), None);
    let mise = resolve(Some(GuestEnv::Mise), |_: &str| false);
    let cmd = first_sync_hook(&lin, &repo, &mise).unwrap();
    assert!(cmd.contains(&"_first-sync".to_string()), "{cmd:?}");
    assert!(cmd.last().unwrap().contains("mise trust"), "{cmd:?}");
    assert!(hook_outcome(true, Some(0), "mise trust", "~/w/r").is_ok());
    let err = hook_outcome(false, Some(3), "mise trust", "~/w/r").unwrap_err();
    assert_eq!(
        err.text(),
        "first-sync hook failed (exit 3): mise trust\n  it ran in the guest checkout ~/w/r; \
         re-run with --guest-env none to skip it"
    );
}

#[test]
fn clean_refuses_while_an_exec_is_using_the_guest() {
    let err = clean("windows", false).unwrap_err();
    assert!(
        err.text().contains("in use by another vm process"),
        "{err:?}"
    );
    assert!(clean("windows", true).is_ok());
    let cmd = clean_command(&vm(GuestOs::Linux, None), "r");
    assert_eq!(cmd[..2], ["rm", "-rf"]);
    assert_eq!(
        cleaned("lin", "~/w/r", &output(true, "", "")).unwrap(),
        "vm ▸ lin ▸ removed ~/w/r"
    );
    let err = cleaned("lin", "~/w/r", &output(false, "", "busy\n")).unwrap_err();
    assert_eq!(err.text(), "removing ~/w/r failed: busy");
}

#[test]
fn a_vm_in_use_is_stopped_only_by_force() {
    assert!(stop("lin", false, true).is_ok());
    assert!(stop("lin", true, false).is_ok());
    let err = stop("lin", false, false).unwrap_err();
    assert!(err.text().contains("`vm stop lin --force`"), "{err:?}");
}

#[test]
fn a_start_waits_for_ssh_once_the_vm_was_woken() {
    let tick = 1_000_000_000;
    let target = SshTarget {
        user: "u".into(),
        host: "10.0.0.5".into(),
    };
    let go = |woke, answers, waited| start("lin", &target, woke, answers, waited, tick, "3.0");
    assert!(matches!(
        go(true, true, 0),
        Reaching::Ready(Some(line)) if line == "vm ▸ lin ▸ ready at 10.0.0.5 ▸ 3.0s"
    ));
    assert!(matches!(go(true, false, 0), Reaching::Again));
    assert!(matches!(
        go(true, false, 60 * tick),
        Reaching::GiveUp(line) if line.contains("ssh to u@10.0.0.5 not reachable after 60s")
    ));
}

#[test]
fn a_session_that_is_not_open_yet_is_waited_for() {
    let tick = 1_000_000_000;
    let closed = output(false, "", "Unable to open new session in this virtual machine.");
    assert!(bring_up_elevated(&closed, 0, tick));
    assert!(!bring_up_elevated(&closed, 90 * tick, tick));
    assert!(!bring_up_elevated(&output(false, "", "is not started"), 0, tick));
    assert!(!bring_up_elevated(&output(true, "root", ""), 0, tick));
}

// ── Snapshots ────────────────────────────────────────────────────────────────

#[test]
fn every_run_on_a_snapshot_is_rolled_back() {
    for run_ok in [true, false] {
        let mut stage = SnapshotStage::Claim;
        let mut seen = Vec::new();
        while stage != SnapshotStage::Report && stage != SnapshotStage::Refused {
            seen.push(stage);
            let ok = stage != SnapshotStage::Run || run_ok;
            stage = with_snapshot(stage, ok);
        }
        assert!(seen.contains(&SnapshotStage::Run));
        assert!(seen.contains(&SnapshotStage::RollBack));
        assert!(seen.contains(&SnapshotStage::Delete));
    }
    assert_eq!(
        with_snapshot(SnapshotStage::Claim, false),
        SnapshotStage::Refused
    );
    assert_eq!(
        with_snapshot(SnapshotStage::RollBack, false),
        SnapshotStage::Report
    );
}

#[test]
fn only_the_snapshots_of_killed_runs_are_swept() {
    let pair = |id: &str, name: &str| (id.to_string(), name.to_string());
    let snaps = [
        pair("{a}", "vm-with-snapshot-lin"),
        pair("{b}", "before upgrade"),
        pair("{c}", "vm-with-snapshot-175"),
    ];
    let (ids, names) = sweep_stale_snapshots(&snaps);
    assert_eq!(ids, ["{a}", "{c}"]);
    assert_eq!(names, ["vm-with-snapshot-lin", "vm-with-snapshot-175"]);
    assert!(stale_warning("lin", "s").contains("WARNING: deleting stale snapshot s"));
    assert_eq!(snapshot_taken("lin", "{a}"), "vm ▸ lin ▸ snapshot {a} taken");
    assert!(snapshot_refused("lin").text().contains("with-snapshot needs the VM to itself"));
    assert_eq!(
        rolled_back("lin", "L", "{a}", None),
        "vm ▸ lin ▸ rolled back to pre-run state"
    );
    assert!(rolled_back("lin", "L", "{a}", Some("no"))
        .contains("rollback failed (no); snapshot {a} kept"));
}

#[test]
fn a_screenshot_has_a_name_of_its_own() {
    assert_eq!(shot("lin", None, 175), "lin-175.png");
    assert_eq!(shot("lin", Some("x.png"), 175), "x.png");
    assert_eq!(shot_line("lin", "x.png"), "vm ▸ lin ▸ screenshot ▸ x.png");
}

// ── Exit codes ───────────────────────────────────────────────────────────────

#[test]
fn unreadable_config_is_a_usage_error() {
    let err = Config::load("/x/config.toml", Err("not found".into())).unwrap_err();
    assert_eq!(conclude(Err(err)).0, 2);
    assert_eq!(USAGE, 2);
}

#[test]
fn unknown_target_is_a_usage_error() {
    let cfg = Config::parse(
        "[vm.lin]\nparallels_name='U'\nos='linux'\nuser='u'\nwork_root='~/w'\n",
    )
    .unwrap();
    let err = cfg.get("bogus", "/x/config.toml").unwrap_err();
    assert_eq!(conclude(Err(err)).0, 2);
}

#[test]
fn vm_lifecycle_failure_is_an_infra_error() {
    let err = ssh_target(&win_vm(None), &[]).unwrap_err();
    assert_eq!(conclude(Err(err)).0, 125);
    assert_eq!(INFRA, 125);
    assert_eq!(conclude(Ok(7)), (7, None));
}

#[test]
fn context_keeps_the_code() {
    let err = Failure::Infra("boom".into()).context("doing it");
    assert_eq!(err.text(), "doing it: boom");
    assert_eq!(conclude(Err(err)).0, INFRA);
    let err = vm::exit::usage("bad".into()).context("doing it");
    assert!(err.is_usage());
}

// ── Over ssh ─────────────────────────────────────────────────────────────────

#[test]
fn quoting_survives_the_remote_shell() {
    assert_eq!(shell_quote("a b"), "'a b'");
    assert_eq!(shell_quote("it's"), r"'it'\''s'");
    assert_eq!(escape_quotes("it's"), r"it'\''s");
    assert_eq!(shell_quote(""), "''");
    let target = SshTarget {
        user: "u".into(),
        host: "h".into(),
    };
    let cmd = ssh_command(&target);
    assert_eq!(cmd.last().unwrap(), "u@h");
    for option in ["BatchMode=yes", "ServerAliveInterval=15", "ServerAliveCountMax=4"] {
        let at = cmd.iter().position(|a| a == option).unwrap();
        assert_eq!(cmd[at - 1], "-o");
    }
    assert!(git_ssh_command().starts_with("ssh -o BatchMode=yes "));
    assert!(reachable(Some(true)) && !reachable(Some(false)) && !reachable(None));
}

#[test]
fn parallels_is_asked_only_for_an_address_that_is_not_configured() {
    let mut guest = win_vm(None);
    assert!(asks_parallels(&guest));
    assert_eq!(target_at(&guest, "10.0.0.5").host, "10.0.0.5");
    guest.host = Some("box".into());
    assert!(!asks_parallels(&guest));
    let target = target_at(&guest, "10.0.0.5");
    assert_eq!((target.user.as_str(), target.host.as_str()), ("u", "box"));
}

#[test]
fn the_verbs_of_a_sync_name_their_checkout() {
    assert_eq!(init_verb("~/w/r"), ["_sync-init", "--repo", "~/w/r"]);
    assert_eq!(
        apply_verb("~/w/r", "c0"),
        ["_sync-apply", "--repo", "~/w/r", "--sha", "c0"]
    );
    assert_eq!(tree_verb("~/w/r"), ["_tree", "--repo", "~/w/r"]);
}

#[test]
fn a_snapshot_that_is_left_behind_is_swept() {
    let name = vm::commands::snapshot_name("win");
    assert_eq!(name, "vm-with-snapshot-win");
    let (ids, names) = sweep_stale_snapshots(&[("{a}".into(), name.clone())]);
    assert_eq!((ids, names), (vec!["{a}".to_string()], vec![name]));
}

#[test]
fn ssh_is_tried_with_a_command_that_does_nothing() {
    assert_eq!(vm::ssh::probe_command(), ["true"]);
}
