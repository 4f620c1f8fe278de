//! How long ago a guest's console was last touched.

use vm::config::{GuestOs, VmConfig};
use vm::idle::{
    bus_address, bus_query, console_command, console_reply, hid_query, idle_transport, input_idle,
    parse_dbus_idletime, parse_hid_idle_ms, ticks_between, tool_reply, Way,
};
use vm::process::Output;

#[test]
fn parses_dbus_idletime_reply() {
    let reply = "method return time=1752131234.567890 sender=:1.34 -> \
                 destination=:1.99 serial=42 reply_serial=2\n   uint64 1928634\n";
    assert_eq!(parse_dbus_idletime(reply).unwrap(), 1_928_634);
    assert!(parse_dbus_idletime("method return time=1 sender=:1.34").is_err());
    assert!(parse_dbus_idletime("uint64 notanumber").is_err());
}

#[test]
fn parses_hid_idle_time() {
    let ioreg = r#"
+-o IOHIDSystem  <class IOHIDSystem, id 0x100000456, registered, matched, active, busy 0 (2 ms), retain 8>
    | {
    |   "HIDIdleTime" = 466140625
    |   "HIDParameters" = {"key"=1}
    | }
"#;
    assert_eq!(parse_hid_idle_ms(ioreg).unwrap(), 466);
    assert!(parse_hid_idle_ms("no such key").is_err());
}

#[test]
fn a_tick_count_that_rolled_over_does_not_matter() {
    assert_eq!(ticks_between(1500, 500), 1000);
    assert_eq!(ticks_between(500, u32::MAX - 499), 1000);
}

fn output(success: bool, stdout: &str, stderr: &str) -> Output {
    Output {
        success,
        code: Some(if success { 0 } else { 1 }),
        stdout: stdout.into(),
        stderr: stderr.into(),
    }
}

#[test]
fn a_windows_guest_is_asked_at_its_console() {
    let vm = VmConfig {
        parallels_name: "Windows 11".into(),
        os: GuestOs::Windows,
        user: "u".into(),
        work_root: r"C:\work".into(),
        host: None,
        agent_path: None,
    };
    assert_eq!(
        console_command(&vm).unwrap(),
        [
            "exec",
            "Windows 11",
            "--current-user",
            "cmd",
            "/c",
            r"%USERPROFILE%\.vm\bin\vm.exe _idle"
        ]
    );
    assert_eq!(
        console_reply(&output(true, "3600000\r\n", "")).unwrap().trim(),
        "3600000"
    );
    let err = console_reply(&output(false, "", "Unable to open new session\n")).unwrap_err();
    assert!(err.text().contains("Unable to open new session"), "{err:?}");
}

#[test]
fn a_reply_is_milliseconds() {
    assert_eq!(input_idle("5000\n").unwrap(), 5000);
    let err = input_idle("soon").unwrap_err();
    assert!(err.text().contains("invalid digit found in string"), "{err:?}");
    assert_eq!(bus_address(1000), "unix:path=/run/user/1000/bus");
    assert_eq!(tool_reply("ioreg", &output(true, "x", "")).unwrap(), "x");
    let err = tool_reply("ioreg", &output(false, "", "nope")).unwrap_err();
    assert!(err.text().contains("ioreg") && err.text().contains("nope"), "{err:?}");
}

#[test]
fn only_a_windows_guest_is_asked_through_parallels() {
    assert_eq!(idle_transport(GuestOs::Windows), Way::Console);
    assert_eq!(idle_transport(GuestOs::Linux), Way::Agent);
    assert_eq!(idle_transport(GuestOs::Macos), Way::Agent);
    assert_eq!(bus_query()[3], "org.gnome.Mutter.IdleMonitor.GetIdletime");
    assert_eq!(hid_query(), ["-c", "IOHIDSystem"]);
}
