//! The accessibility probe.

use vm::probe::{linux, look_again, mac, win, Check, Report, Status, WINDOW_TIMEOUT};

fn read(check: &Check) -> (&str, Status, &str) {
    (check.name.as_str(), check.status, check.detail.as_str())
}

#[test]
fn observations_do_not_decide_and_a_failure_stays() {
    let mut report = Report::new();
    assert!(report.ok());
    report.info("a", "x");
    report.pass("b", "y");
    assert!(report.ok());
    report.fail("c", "z");
    report.pass("d", "w");
    assert!(!report.ok());
    let lines = report.print();
    assert_eq!(lines[0], "info  a: x");
    assert_eq!(lines[2], "FAIL  c: z");
    assert_eq!(
        lines.last().unwrap(),
        "a11y-probe ▸ NOT READY — see FAIL lines above"
    );
}

#[test]
fn a_session_bus_is_found_or_injected() {
    assert_eq!(linux::default_socket(1000), "/run/user/1000/bus");
    let socket = "/run/user/1000/bus";
    assert!(matches!(linux::bus_socket(true, socket, false, false), linux::Bus::Named));
    assert!(matches!(linux::bus_socket(false, socket, true, true), linux::Bus::Found(_)));
    assert!(matches!(linux::bus_socket(false, socket, true, false), linux::Bus::Inject(_)));
    assert!(matches!(
        linux::bus_socket(false, socket, false, false),
        linux::Bus::Missing(c) if c.status == Status::Fail
    ));
    assert_eq!(
        read(&linux::env_check("DISPLAY", None)),
        ("env DISPLAY", Status::Info, "(unset)")
    );
    assert_eq!(linux::env_check("DISPLAY", Some(":0")).detail, ":0");
}

#[test]
fn a_linux_probe_reads_the_registry() {
    assert_eq!(linux::session_bus(None).status, Status::Pass);
    assert!(linux::session_bus(Some("refused")).detail.ends_with("refused"));
    assert!(linux::enabled(Ok(false)).detail.ends_with("IsEnabled = false"));
    assert!(linux::enabled(Err("x")).detail.ends_with(": x"));
    assert_eq!(linux::a11y_bus(Some("x")).status, Status::Fail);
    assert_eq!(
        linux::registry_root(Ok((Ok("main"), Err("gone")))).detail,
        r#"name="main" role="<error: gone>""#
    );
    assert_eq!(linux::registry_root(Err("x")).status, Status::Fail);
    assert_eq!(linux::registry_children(Ok(3)).status, Status::Pass);
    assert_eq!(linux::registry_children(Ok(0)).status, Status::Fail);
    assert_eq!(linux::registry_children(Err("x")).status, Status::Fail);
    assert_eq!(linux::fixture_title(42), "a11y-fixture-42");
    assert_eq!(linux::fixture_spawn(Ok(7)).detail, "zenity pid 7");
    assert_eq!(
        linux::fixture_window("t", Ok(Some("zenity"))).detail,
        r#"found frame "t" under application "zenity""#
    );
    assert_eq!(linux::fixture_window("t", Ok(None)).status, Status::Fail);
    assert_eq!(linux::fixture_window("t", Err("x")).status, Status::Fail);
    assert_eq!(linux::display(true, false, false), linux::Display::Inherited);
    assert_eq!(linux::display(false, false, true), linux::Display::Wayland);
    assert_eq!(linux::display(false, false, false), linux::Display::X11);
}

#[test]
fn a_linux_probe_stops_where_a_bus_is_missing() {
    let mut report = Report::new();
    let failed = || vec![linux::session_bus(Some("refused"))];
    let next = linux::run_inner(&mut report, linux::Stage::SessionBus, failed());
    assert_eq!(next, linux::Stage::Over);
    assert!(!report.ok());
    let mut report = Report::new();
    let next = linux::run_inner(
        &mut report,
        linux::Stage::SessionBus,
        vec![linux::session_bus(None)],
    );
    assert_eq!(next, linux::Stage::Enabled);
    assert_eq!(report.checks.len(), 1);
}

#[test]
fn a_mac_probe_reads_the_dock() {
    assert_eq!(mac::gui_session(Some(5)).status, Status::Info);
    assert_eq!(mac::trusted(true).status, Status::Pass);
    assert_eq!(mac::trusted(false).status, Status::Fail);
    assert_eq!(mac::window_list(Some(9)).detail, "9 on-screen windows");
    assert_eq!(mac::dock_pid(b" 412\n"), Some(412));
    assert_eq!(mac::dock_pid(b""), None);
    assert_eq!(mac::dock(Some(412)).detail, "Dock is running (pid 412)");
    assert_eq!(mac::dock(None).status, Status::Fail);
    assert_eq!(
        mac::ax_err(-25211),
        "kAXErrorAPIDisabled (process is not TCC-trusted) (-25211)"
    );
    assert_eq!(mac::ax_err(1), "unknown AXError (1)");
    assert_eq!(mac::role(Ok(Some("AXList"))).detail, r#"Dock AXRole = "AXList""#);
    assert_eq!(mac::role(Err(-25204)).status, Status::Fail);
    assert_eq!(mac::children(Ok(Some(2))).status, Status::Pass);
    assert_eq!(mac::children(Ok(Some(0))).status, Status::Fail);
    assert_eq!(mac::children(Ok(None)).status, Status::Fail);
    assert!(mac::fixture_script("t").contains("with title \"t\""));
    assert_eq!(mac::fixture_spawn(Err("x")).status, Status::Fail);
    assert_eq!(mac::fixture_window("t", false).status, Status::Fail);
    let mut report = Report::new();
    let next = mac::run(&mut report, mac::Stage::Trust, mac::trusted(true));
    assert_eq!((next, report.checks.len()), (mac::Stage::Windows, 1));
}

#[test]
fn a_windows_probe_reads_the_desktop() {
    assert_eq!(win::session(Ok(1)).detail, "process runs in session 1");
    assert!(win::console_session(1, 1).detail.contains("IS in the console session"));
    assert!(win::console_session(1, 0).detail.contains("NOT in the console session"));
    assert!(win::console_session(u32::MAX, 0).detail.contains("no session is attached"));
    assert_eq!(win::name_length(&[65, 66, 0, 67]), 2);
    assert_eq!(win::name_length(&[65]), 1);
    assert_eq!(win::window_station(Ok(Ok("WinSta0"))).detail, "WinSta0 (interactive)");
    assert_eq!(win::window_station(Ok(Ok("X"))).detail, "X (non-interactive)");
    assert!(win::thread_desktop(Err("x")).detail.ends_with("failed: x"));
    assert_eq!(win::input_desktop(None).detail, "input desktop is reachable");
    assert_eq!(win::client(None).status, Status::Pass);
    assert_eq!(win::client(Some("x")).status, Status::Fail);
    assert_eq!(
        win::root(Ok((Ok("Desktop 1"), Ok("#32769")))).detail,
        r##"name="Desktop 1" class="#32769""##
    );
    let names = ["Taskbar".to_string(), "a\"b".to_string()];
    let check = win::root_children(Ok((7, &names)));
    assert_eq!(check.status, Status::Pass);
    assert_eq!(
        check.detail,
        r#"7 top-level elements, first: ["Taskbar", "a\"b"]"#
    );
    assert_eq!(win::root_children(Err("x")).status, Status::Fail);
    let mut report = Report::new();
    let next = win::run(&mut report, win::Stage::Session, win::session(Ok(1)));
    assert_eq!((next, report.checks.len()), (win::Stage::Console, 1));
}

#[test]
fn a_window_is_looked_for_by_its_title() {
    let frames = ["a".to_string(), "t".to_string()];
    assert!(linux::find_frame(&frames, "t") && !linux::find_frame(&frames, "T"));
    let titles = [None, Some("t".to_string())];
    assert!(mac::find_window(&titles, "t") && !mac::find_window(&titles[..1], "t"));
    assert!(look_again(9_999_999_999) && !look_again(WINDOW_TIMEOUT));
}

#[test]
fn a_probes_window_finds_the_display_of_the_session() {
    assert_eq!(linux::session_variables().len(), 5);
    assert_eq!(linux::session_variables()[0], "DISPLAY");
    assert_eq!(linux::session_variables()[4], "DBUS_SESSION_BUS_ADDRESS");
    assert_eq!(linux::bus_at("/s"), "unix:path=/s");
    assert_eq!(linux::runtime_dir(7), "/run/user/7");
    assert!(linux::display_env(linux::Display::Inherited, "/r").is_empty());
    assert_eq!(
        linux::display_env(linux::Display::X11, "/r"),
        [("DISPLAY".to_string(), ":0".to_string())]
    );
    let wayland = linux::display_env(linux::Display::Wayland, "/r");
    assert_eq!(wayland[0], ("XDG_RUNTIME_DIR".to_string(), "/r".to_string()));
    assert_eq!(wayland[1], ("WAYLAND_DISPLAY".to_string(), "wayland-0".to_string()));
    assert_eq!(
        linux::fixture_args("t"),
        ["--info", "--title", "t", "--text", "a11y-probe fixture"]
    );
    assert_eq!(mac::dock_args(), ["-x", "Dock"]);
}

#[test]
fn only_the_first_elements_of_a_desktop_are_named() {
    assert_eq!((win::first_few(3), win::first_few(5), win::first_few(9)), (3, 5, 5));
    let names: Vec<String> = (0..6).map(|i| format!("w{i}")).collect();
    let check = win::root_children(Ok((6, &names)));
    assert_eq!(
        read(&check).2,
        "6 top-level elements, first: [\"w0\", \"w1\", \"w2\", \"w3\", \"w4\"]"
    );
}
