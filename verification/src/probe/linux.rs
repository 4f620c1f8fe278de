//! The checks on Linux: the session bus, the accessibility bus, its registry, and
//! a window that can be found in it.

use super::{check, three, Check, Report, Status};
use crate::probe;
use crate::sync::git::{self, owned};
use crate::text;
use vstd::prelude::*;

verus! {

/// The variables that a desktop session sets.
pub fn session_variables() -> (r: Vec<String>)
    ensures
        text::views(r@) == seq!["DISPLAY"@, "WAYLAND_DISPLAY"@, "XDG_SESSION_TYPE"@, "XDG_RUNTIME_DIR"@, "DBUS_SESSION_BUS_ADDRESS"@],
{
    let args = owned(&["DISPLAY", "WAYLAND_DISPLAY", "XDG_SESSION_TYPE", "XDG_RUNTIME_DIR", "DBUS_SESSION_BUS_ADDRESS"]);
    assert(text::views(args@) =~= seq!["DISPLAY"@, "WAYLAND_DISPLAY"@, "XDG_SESSION_TYPE"@, "XDG_RUNTIME_DIR"@, "DBUS_SESSION_BUS_ADDRESS"@]);
    args
}

/// The variable of a desktop session that a bare one lacks.
pub fn env_check(key: &str, value: Option<&str>) -> (r: Check)
    ensures
        r.reads(
            "env "@ + key@,
            Status::Info,
            match value {
                Some(v) => v@,
                None => "(unset)"@,
            },
        ),
{
    let mut name = "env ".to_owned();
    name.append(key);
    match value {
        Some(v) => check(name.as_str(), Status::Info, v),
        None => check(name.as_str(), Status::Info, "(unset)"),
    }
}

/// Where the session bus of a user is, as systemd has it.
pub fn default_socket(uid: u32) -> (r: String)
    ensures
        r@ == "/run/user/"@ + text::decimal(uid as nat) + "/bus"@,
{
    three("/run/user/", text::to_decimal(uid as u128).as_str(), "/bus")
}

/// The address of a bus at a socket.
pub fn bus_at(socket: &str) -> (r: String)
    ensures
        r@ == "unix:path="@ + socket@,
{
    let mut out = "unix:path=".to_owned();
    out.append(socket);
    out
}

/// What is known of the session bus before connecting to it.
#[derive(Debug)]
pub enum Bus {
    /// Its address is set.
    Named,
    /// It is found by itself.
    Found(Check),
    /// Its address has to be set to the default socket.
    Inject(Check),
    /// There is none.
    Missing(Check),
}

/// What is known of the session bus: whether its address is set, whether the
/// default socket is there, and whether the runtime directory is set.
pub fn bus_socket(address: bool, socket: &str, there: bool, runtime_dir: bool) -> (r: Bus)
    ensures
        if address {
            r is Named
        } else if !there {
            r matches Bus::Missing(c) && c.reads(
                "bus-socket"@,
                Status::Fail,
                "DBUS_SESSION_BUS_ADDRESS unset and "@ + socket@
                    + " does not exist — no user session bus (is anyone logged in?)"@,
            )
        } else if !runtime_dir {
            r matches Bus::Inject(c) && c.reads(
                "bus-socket"@,
                Status::Info,
                socket@ + " exists — injected DBUS_SESSION_BUS_ADDRESS"@,
            )
        } else {
            r matches Bus::Found(c) && c.reads(
                "bus-socket"@,
                Status::Info,
                socket@ + " exists (zbus XDG_RUNTIME_DIR fallback applies)"@,
            )
        },
{
    if address {
        return Bus::Named;
    }
    if !there {
        let detail = three(
            "DBUS_SESSION_BUS_ADDRESS unset and ",
            socket,
            " does not exist — no user session bus (is anyone logged in?)",
        );
        return Bus::Missing(check("bus-socket", Status::Fail, detail.as_str()));
    }
    let mut detail = socket.to_owned();
    if !runtime_dir {
        detail.append(" exists — injected DBUS_SESSION_BUS_ADDRESS");
        Bus::Inject(check("bus-socket", Status::Info, detail.as_str()))
    } else {
        detail.append(" exists (zbus XDG_RUNTIME_DIR fallback applies)");
        Bus::Found(check("bus-socket", Status::Info, detail.as_str()))
    }
}

fn gate(name: &str, error: Option<&str>, good: &str, bad: &str) -> (r: Check)
    ensures
        match error {
            None => r.reads(name@, Status::Pass, good@),
            Some(e) => r.reads(name@, Status::Fail, bad@ + e@),
        },
{
    match error {
        None => check(name, Status::Pass, good),
        Some(e) => {
            let mut detail = bad.to_owned();
            detail.append(e);
            check(name, Status::Fail, detail.as_str())
        },
    }
}

/// Whether the session bus could be connected to.
pub fn session_bus(error: Option<&str>) -> (r: Check)
    ensures
        match error {
            None => r.reads("session-bus"@, Status::Pass, "connected to the D-Bus session bus"@),
            Some(e) => r.reads(
                "session-bus"@,
                Status::Fail,
                "cannot connect to the session bus: "@ + e@,
            ),
        },
{
    gate(
        "session-bus",
        error,
        "connected to the D-Bus session bus",
        "cannot connect to the session bus: ",
    )
}

/// Whether accessibility is switched on in the session. The bus works either way.
pub fn enabled(answer: Result<bool, &str>) -> (r: Check)
    ensures
        r.reads(
            "a11y-enabled"@,
            Status::Info,
            match answer {
                Ok(true) => "org.a11y.Status IsEnabled = true"@,
                Ok(false) => "org.a11y.Status IsEnabled = false"@,
                Err(e) => "could not read org.a11y.Status: "@ + e@,
            },
        ),
{
    match answer {
        Ok(true) => check("a11y-enabled", Status::Info, "org.a11y.Status IsEnabled = true"),
        Ok(false) => check("a11y-enabled", Status::Info, "org.a11y.Status IsEnabled = false"),
        Err(e) => {
            let mut detail = "could not read org.a11y.Status: ".to_owned();
            detail.append(e);
            check("a11y-enabled", Status::Info, detail.as_str())
        },
    }
}

/// Whether the accessibility bus could be reached.
pub fn a11y_bus(error: Option<&str>) -> (r: Check)
    ensures
        match error {
            None => r.reads(
                "a11y-bus"@,
                Status::Pass,
                "connected to the AT-SPI accessibility bus"@,
            ),
            Some(e) => r.reads(
                "a11y-bus"@,
                Status::Fail,
                "cannot reach the accessibility bus (at-spi2 installed?): "@ + e@,
            ),
        },
{
    gate(
        "a11y-bus",
        error,
        "connected to the AT-SPI accessibility bus",
        "cannot reach the accessibility bus (at-spi2 installed?): ",
    )
}

/// A text that was read, or what stands for one that was not.
pub open spec fn or_error(s: Result<&str, &str>) -> Seq<char> {
    match s {
        Ok(t) => t@,
        Err(e) => "<error: "@ + e@ + ">"@,
    }
}

pub(crate) fn read_or_error(s: Result<&str, &str>) -> (r: String)
    ensures
        r@ == or_error(s),
{
    match s {
        Ok(t) => t.to_owned(),
        Err(e) => three("<error: ", e, ">"),
    }
}

/// Whether the root of the registry could be read.
pub fn registry_root(root: Result<(Result<&str, &str>, Result<&str, &str>), &str>) -> (r: Check)
    ensures
        match root {
            Ok((name, role)) => r.reads(
                "registry-root"@,
                Status::Pass,
                "name="@ + text::debug_text(or_error(name)) + " role="@ + text::debug_text(
                    or_error(role),
                ),
            ),
            Err(e) => r.reads(
                "registry-root"@,
                Status::Fail,
                "cannot get the registry root: "@ + e@,
            ),
        },
{
    match root {
        Ok((name, role)) => {
            let mut detail = "name=".to_owned();
            detail.append(text::debug(read_or_error(name).as_str()).as_str());
            detail.append(" role=");
            detail.append(text::debug(read_or_error(role).as_str()).as_str());
            check("registry-root", Status::Pass, detail.as_str())
        },
        Err(e) => {
            let mut detail = "cannot get the registry root: ".to_owned();
            detail.append(e);
            check("registry-root", Status::Fail, detail.as_str())
        },
    }
}

/// Whether any application is in the registry.
pub fn registry_children(count: Result<i32, &str>) -> (r: Check)
    ensures
        match count {
            Ok(n) => if n > 0 {
                r.reads(
                    "registry-children"@,
                    Status::Pass,
                    text::signed_decimal(n as int) + " accessible application(s) registered"@,
                )
            } else {
                r.reads(
                    "registry-children"@,
                    Status::Fail,
                    "registry is empty — no a11y-enabled GUI applications running in the session"@,
                )
            },
            Err(e) => r.reads(
                "registry-children"@,
                Status::Fail,
                "cannot read child count: "@ + e@,
            ),
        },
{
    match count {
        Ok(n) => {
            if n > 0 {
                let mut detail = text::to_signed_decimal(n as i128);
                detail.append(" accessible application(s) registered");
                check("registry-children", Status::Pass, detail.as_str())
            } else {
                check(
                    "registry-children",
                    Status::Fail,
                    "registry is empty — no a11y-enabled GUI applications running in the session",
                )
            }
        },
        Err(e) => {
            let mut detail = "cannot read child count: ".to_owned();
            detail.append(e);
            check("registry-children", Status::Fail, detail.as_str())
        },
    }
}

/// The title of the window that a probe looks for.
pub fn fixture_title(pid: u32) -> (r: String)
    ensures
        r@ == "a11y-fixture-"@ + text::decimal(pid as nat),
{
    let mut out = "a11y-fixture-".to_owned();
    out.append(text::to_decimal(pid as u128).as_str());
    out
}

/// Where a window of a process without a display of its own goes.
#[derive(Debug, Clone, Copy, PartialEq, Eq, Structural)]
pub enum Display {
    /// It has a display.
    Inherited,
    /// The session's Wayland socket.
    Wayland,
    /// The first X display.
    X11,
}

/// Where a probe's window goes.
pub fn display(wayland: bool, x11: bool, socket: bool) -> (r: Display)
    ensures
        r == (if wayland || x11 {
            Display::Inherited
        } else if socket {
            Display::Wayland
        } else {
            Display::X11
        }),
{
    if wayland || x11 {
        Display::Inherited
    } else if socket {
        Display::Wayland
    } else {
        Display::X11
    }
}

/// The runtime directory of a user, as systemd has it.
pub fn runtime_dir(uid: u32) -> (r: String)
    ensures
        r@ == "/run/user/"@ + text::decimal(uid as nat),
{
    let mut out = "/run/user/".to_owned();
    out.append(text::to_decimal(uid as u128).as_str());
    out
}

/// The variables that the window's process gets on top of its own.
pub fn display_env(display: Display, runtime_dir: &str) -> (r: Vec<(String, String)>)
    ensures
        git::env_views(r@) == (match display {
            Display::Inherited => Seq::empty(),
            Display::Wayland => seq![
                ("XDG_RUNTIME_DIR"@, runtime_dir@),
                ("WAYLAND_DISPLAY"@, "wayland-0"@),
            ],
            Display::X11 => seq![("DISPLAY"@, ":0"@)],
        }),
{
    let mut env: Vec<(String, String)> = Vec::new();
    match display {
        Display::Inherited => {},
        Display::Wayland => {
            env.push(("XDG_RUNTIME_DIR".to_owned(), runtime_dir.to_owned()));
            env.push(("WAYLAND_DISPLAY".to_owned(), "wayland-0".to_owned()));
        },
        Display::X11 => {
            env.push(("DISPLAY".to_owned(), ":0".to_owned()));
        },
    }
    assert(git::env_views(env@) =~= (match display {
        Display::Inherited => Seq::empty(),
        Display::Wayland => seq![
            ("XDG_RUNTIME_DIR"@, runtime_dir@),
            ("WAYLAND_DISPLAY"@, "wayland-0"@),
        ],
        Display::X11 => seq![("DISPLAY"@, ":0"@)],
    }));
    env
}

/// The `zenity` arguments that open the window.
pub fn fixture_args(title: &str) -> (r: Vec<String>)
    ensures
        text::views(r@) == seq!["--info"@, "--title"@, title@, "--text"@, "a11y-probe fixture"@],
{
    let args = owned(&["--info", "--title", title, "--text", "a11y-probe fixture"]);
    assert(text::views(args@) =~= seq!["--info"@, "--title"@, title@, "--text"@, "a11y-probe fixture"@]);
    args
}

/// Whether the window's process could be started.
pub fn fixture_spawn(started: Result<u32, &str>) -> (r: Check)
    ensures
        match started {
            Ok(pid) => r.reads(
                "fixture-spawn"@,
                Status::Pass,
                "zenity pid "@ + text::decimal(pid as nat),
            ),
            Err(e) => r.reads("fixture-spawn"@, Status::Fail, "cannot spawn zenity: "@ + e@),
        },
{
    match started {
        Ok(pid) => {
            let mut detail = "zenity pid ".to_owned();
            detail.append(text::to_decimal(pid as u128).as_str());
            check("fixture-spawn", Status::Pass, detail.as_str())
        },
        Err(e) => {
            let mut detail = "cannot spawn zenity: ".to_owned();
            detail.append(e);
            check("fixture-spawn", Status::Fail, detail.as_str())
        },
    }
}

/// Whether one of an application's frames is the window that a probe looks for.
pub fn find_frame(frames: &[String], title: &str) -> (r: bool)
    ensures
        r == text::views(frames@).contains(title@),
{
    let ghost all = text::views(frames@);
    let mut i: usize = 0;
    while i < frames.len()
        invariant
            i <= frames@.len(),
            all == text::views(frames@),
            forall|j: int| 0 <= j < i ==> #[trigger] all[j] != title@,
        decreases frames@.len() - i,
    {
        assert(all[i as int] == frames@[i as int]@);
        if text::same(frames[i].as_str(), title) {
            return true;
        }
        i = i + 1;
    }
    false
}

/// Whether the window was found, and under which application.
pub fn fixture_window(title: &str, found: Result<Option<&str>, &str>) -> (r: Check)
    ensures
        match found {
            Ok(Some(app)) => r.reads(
                "fixture-window"@,
                Status::Pass,
                "found frame "@ + text::debug_text(title@) + " under application "@
                    + text::debug_text(app@),
            ),
            Ok(None) => r.reads(
                "fixture-window"@,
                Status::Fail,
                "no frame named "@ + text::debug_text(title@)
                    + " appeared in the registry within 10s"@,
            ),
            Err(e) => r.reads("fixture-window"@, Status::Fail, "registry walk failed: "@ + e@),
        },
{
    match found {
        Ok(Some(app)) => {
            let mut detail = "found frame ".to_owned();
            detail.append(text::debug(title).as_str());
            detail.append(" under application ");
            detail.append(text::debug(app).as_str());
            check("fixture-window", Status::Pass, detail.as_str())
        },
        Ok(None) => {
            let detail = three(
                "no frame named ",
                text::debug(title).as_str(),
                " appeared in the registry within 10s",
            );
            check("fixture-window", Status::Fail, detail.as_str())
        },
        Err(e) => {
            let mut detail = "registry walk failed: ".to_owned();
            detail.append(e);
            check("fixture-window", Status::Fail, detail.as_str())
        },
    }
}

// ── The order of the checks ──────────────────────────────────────────────────

/// The checks, in the order in which they are made.
#[derive(Debug, Clone, Copy, PartialEq, Eq, Structural)]
pub enum Stage {
    /// The variables of the session.
    Environment,
    /// What is known of the session bus.
    Socket,
    SessionBus,
    Enabled,
    A11yBus,
    Root,
    Children,
    /// The window is opened.
    Spawn,
    /// The window is looked for.
    Window,
    Over,
}

/// What follows a check, given every check made so far: nothing, once one failed.
pub open spec fn stage_after(stage: Stage, checks: Seq<Check>) -> Stage {
    if !probe::ready(checks) {
        Stage::Over
    } else {
        match stage {
            Stage::Environment => Stage::Socket,
            Stage::Socket => Stage::SessionBus,
            Stage::SessionBus => Stage::Enabled,
            Stage::Enabled => Stage::A11yBus,
            Stage::A11yBus => Stage::Root,
            Stage::Root => Stage::Children,
            Stage::Children => Stage::Spawn,
            Stage::Spawn => Stage::Window,
            Stage::Window => Stage::Over,
            Stage::Over => Stage::Over,
        }
    }
}

/// Adds what a stage found to the report, and says what follows.
pub fn run_inner(report: &mut Report, stage: Stage, found: Vec<Check>) -> (r: Stage)
    ensures
        final(report).checks@ == old(report).checks@ + found@,
        r == stage_after(stage, final(report).checks@),
{
    report.extend(found);
    if !report.ok() {
        return Stage::Over;
    }
    match stage {
        Stage::Environment => Stage::Socket,
        Stage::Socket => Stage::SessionBus,
        Stage::SessionBus => Stage::Enabled,
        Stage::Enabled => Stage::A11yBus,
        Stage::A11yBus => Stage::Root,
        Stage::Root => Stage::Children,
        Stage::Children => Stage::Spawn,
        Stage::Spawn => Stage::Window,
        Stage::Window => Stage::Over,
        Stage::Over => Stage::Over,
    }
}

/// A window is opened only where the bus, its registry and an application in it
/// were all reached: no check has failed.
pub proof fn a_window_is_opened_only_where_all_is_well(stage: Stage, checks: Seq<Check>)
    requires
        stage_after(stage, checks) == Stage::Spawn || stage_after(stage, checks) == Stage::Window,
    ensures
        probe::ready(checks),
{
}

/// The probe takes these steps in turn, and stops at the first that fails.
pub proof fn a_probe_takes_its_steps(checks: Seq<Check>, stage: Stage)
    ensures
        !probe::ready(checks) ==> stage_after(stage, checks) == Stage::Over,
        probe::ready(checks) ==> {
            &&& stage_after(Stage::Environment, checks) == Stage::Socket
            &&& stage_after(Stage::Socket, checks) == Stage::SessionBus
            &&& stage_after(Stage::SessionBus, checks) == Stage::Enabled
            &&& stage_after(Stage::Enabled, checks) == Stage::A11yBus
            &&& stage_after(Stage::A11yBus, checks) == Stage::Root
            &&& stage_after(Stage::Root, checks) == Stage::Children
            &&& stage_after(Stage::Children, checks) == Stage::Spawn
            &&& stage_after(Stage::Spawn, checks) == Stage::Window
            &&& stage_after(Stage::Window, checks) == Stage::Over
        },
        stage_after(Stage::Over, checks) == Stage::Over,
{
}

/// What could not be read is shown as an error in its place.
pub proof fn an_error_stands_in_its_place(s: &str)
    ensures
        or_error(Ok(s)) == s@,
        or_error(Err(s)) == "<error: "@ + s@ + seq!['>'],
{
    reveal_strlit(">");
    assert(">"@ =~= seq!['>']);
}

} // verus!
