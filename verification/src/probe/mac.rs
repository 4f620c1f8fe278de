//! The checks on macOS: the window-server session, the trust that accessibility
//! clients need, the Dock's tree, and a window that can be found.

use super::{check, three, Check, Report, Status};
use crate::probe;
use crate::process;
use crate::sync::git::owned;
use crate::text;
use vstd::prelude::*;

verus! {

/// Whether the process has a window-server session, and with how many keys.
pub fn gui_session(keys: Option<u64>) -> (r: Check)
    ensures
        r.reads(
            "gui-session"@,
            Status::Info,
            match keys {
                Some(n) => "window-server session present ("@ + text::decimal(n as nat)
                    + " keys)"@,
                None => "no window-server session for this process (typical for plain ssh)"@,
            },
        ),
{
    match keys {
        Some(n) => {
            let detail = three(
                "window-server session present (",
                text::to_decimal(n as u128).as_str(),
                " keys)",
            );
            check("gui-session", Status::Info, detail.as_str())
        },
        None => check(
            "gui-session",
            Status::Info,
            "no window-server session for this process (typical for plain ssh)",
        ),
    }
}

/// Whether the process is trusted with accessibility.
pub fn trusted(yes: bool) -> (r: Check)
    ensures
        if yes {
            r.reads("ax-trusted"@, Status::Pass, "process is a trusted accessibility client"@)
        } else {
            r.reads(
                "ax-trusted"@,
                Status::Fail,
                "not TCC-trusted — grant Accessibility to this process's responsible binary (System Settings ▸ Privacy & Security ▸ Accessibility)"@,
            )
        },
{
    if yes {
        check("ax-trusted", Status::Pass, "process is a trusted accessibility client")
    } else {
        check(
            "ax-trusted",
            Status::Fail,
            "not TCC-trusted — grant Accessibility to this process's responsible binary (System Settings ▸ Privacy & Security ▸ Accessibility)",
        )
    }
}

/// How many windows are on screen, as far as the process can see.
pub fn window_list(count: Option<u64>) -> (r: Check)
    ensures
        r.reads(
            "window-list"@,
            Status::Info,
            match count {
                Some(n) => text::decimal(n as nat) + " on-screen windows"@,
                None => "CGWindowListCopyWindowInfo returned NULL (no window-server access)"@,
            },
        ),
{
    match count {
        Some(n) => {
            let mut detail = text::to_decimal(n as u128);
            detail.append(" on-screen windows");
            check("window-list", Status::Info, detail.as_str())
        },
        None => check(
            "window-list",
            Status::Info,
            "CGWindowListCopyWindowInfo returned NULL (no window-server access)",
        ),
    }
}

/// The process number that a listing of them begins with.
pub open spec fn first_pid(listing: Seq<char>) -> Option<int> {
    let lines = text::lines(listing);
    if lines.len() > 0 {
        text::parsed_signed(text::trim(lines[0]), 0x8000_0000)
    } else {
        None
    }
}

/// The `pgrep` arguments that look for the Dock.
pub fn dock_args() -> (r: Vec<String>)
    ensures
        text::views(r@) == seq!["-x"@, "Dock"@],
{
    let args = owned(&["-x", "Dock"]);
    assert(text::views(args@) =~= seq!["-x"@, "Dock"@]);
    args
}

/// The Dock's process number, from what `pgrep` printed.
pub fn dock_pid(stdout: &[u8]) -> (r: Option<i32>)
    ensures
        match r {
            Some(pid) => first_pid(process::lossy_text(stdout@)) == Some(pid as int),
            None => first_pid(process::lossy_text(stdout@)) is None,
        },
{
    let listing: String = process::lossy(stdout);
    let lines: Vec<String> = text::lines_of(listing.as_str());
    let ghost all = text::lines(listing@);
    assert(all.len() == lines@.len());
    if lines.len() == 0 {
        return None;
    }
    assert(all[0] == lines@[0]@);
    text::parse_i32(text::trimmed(lines[0].as_str()).as_str())
}

/// Whether the Dock runs. It always does where a user is logged in.
pub fn dock(pid: Option<i32>) -> (r: Check)
    ensures
        match pid {
            Some(n) => r.reads(
                "dock-pid"@,
                Status::Pass,
                "Dock is running (pid "@ + text::signed_decimal(n as int) + ")"@,
            ),
            None => r.reads(
                "dock-pid"@,
                Status::Fail,
                "Dock is not running — no user logged in at the console?"@,
            ),
        },
{
    match pid {
        Some(n) => {
            let detail = three(
                "Dock is running (pid ",
                text::to_signed_decimal(n as i128).as_str(),
                ")",
            );
            check("dock-pid", Status::Pass, detail.as_str())
        },
        None => check(
            "dock-pid",
            Status::Fail,
            "Dock is not running — no user logged in at the console?",
        ),
    }
}

/// What an error code of the accessibility interface means.
pub open spec fn error_name(code: i32) -> Seq<char> {
    if code == -25200 {
        "kAXErrorFailure"@
    } else if code == -25201 {
        "kAXErrorIllegalArgument"@
    } else if code == -25202 {
        "kAXErrorInvalidUIElement"@
    } else if code == -25204 {
        "kAXErrorCannotComplete (no window-server connection?)"@
    } else if code == -25205 {
        "kAXErrorAttributeUnsupported"@
    } else if code == -25208 {
        "kAXErrorNotImplemented"@
    } else if code == -25211 {
        "kAXErrorAPIDisabled (process is not TCC-trusted)"@
    } else {
        "unknown AXError"@
    }
}

/// An error code of the accessibility interface, with its meaning.
pub open spec fn error_text(code: i32) -> Seq<char> {
    error_name(code) + " ("@ + text::signed_decimal(code as int) + ")"@
}

/// An error code of the accessibility interface, with its meaning.
pub fn ax_err(code: i32) -> (r: String)
    ensures
        r@ == error_text(code),
{
    let mut out = if code == -25200 {
        "kAXErrorFailure".to_owned()
    } else if code == -25201 {
        "kAXErrorIllegalArgument".to_owned()
    } else if code == -25202 {
        "kAXErrorInvalidUIElement".to_owned()
    } else if code == -25204 {
        "kAXErrorCannotComplete (no window-server connection?)".to_owned()
    } else if code == -25205 {
        "kAXErrorAttributeUnsupported".to_owned()
    } else if code == -25208 {
        "kAXErrorNotImplemented".to_owned()
    } else if code == -25211 {
        "kAXErrorAPIDisabled (process is not TCC-trusted)".to_owned()
    } else {
        "unknown AXError".to_owned()
    };
    out.append(" (");
    out.append(text::to_signed_decimal(code as i128).as_str());
    out.append(")");
    out
}

/// Whether the Dock's role could be read: the role, nothing where it is no text,
/// or the error.
pub fn role(read: Result<Option<&str>, i32>) -> (r: Check)
    ensures
        match read {
            Ok(role) => r.reads(
                "ax-role"@,
                Status::Pass,
                "Dock AXRole = "@ + text::debug_text(
                    match role {
                        Some(s) => s@,
                        None => "<non-string>"@,
                    },
                ),
            ),
            Err(code) => r.reads(
                "ax-role"@,
                Status::Fail,
                "cannot read Dock AXRole: "@ + error_text(code),
            ),
        },
{
    match read {
        Ok(role) => {
            let shown: &str = match role {
                Some(s) => s,
                None => "<non-string>",
            };
            let mut detail = "Dock AXRole = ".to_owned();
            detail.append(text::debug(shown).as_str());
            check("ax-role", Status::Pass, detail.as_str())
        },
        Err(code) => {
            let mut detail = "cannot read Dock AXRole: ".to_owned();
            detail.append(ax_err(code).as_str());
            check("ax-role", Status::Fail, detail.as_str())
        },
    }
}

/// Whether the Dock has children: how many, nothing where they are no list, or
/// the error.
pub fn children(read: Result<Option<u64>, i32>) -> (r: Check)
    ensures
        match read {
            Ok(Some(n)) => if n > 0 {
                r.reads(
                    "ax-children"@,
                    Status::Pass,
                    "Dock has "@ + text::decimal(n as nat) + " accessible children"@,
                )
            } else {
                r.reads("ax-children"@, Status::Fail, "Dock AXChildren is empty"@)
            },
            Ok(None) => r.reads("ax-children"@, Status::Fail, "Dock AXChildren is not an array"@),
            Err(code) => r.reads(
                "ax-children"@,
                Status::Fail,
                "cannot read Dock AXChildren: "@ + error_text(code),
            ),
        },
{
    match read {
        Ok(Some(n)) => {
            if n > 0 {
                let detail = three(
                    "Dock has ",
                    text::to_decimal(n as u128).as_str(),
                    " accessible children",
                );
                check("ax-children", Status::Pass, detail.as_str())
            } else {
                check("ax-children", Status::Fail, "Dock AXChildren is empty")
            }
        },
        Ok(None) => check("ax-children", Status::Fail, "Dock AXChildren is not an array"),
        Err(code) => {
            let mut detail = "cannot read Dock AXChildren: ".to_owned();
            detail.append(ax_err(code).as_str());
            check("ax-children", Status::Fail, detail.as_str())
        },
    }
}

/// The script that opens the window that a probe looks for.
pub fn fixture_script(title: &str) -> (r: String)
    ensures
        r@ == "display dialog \"a11y-probe fixture\" with title \""@ + title@
            + "\" buttons {\"OK\"} giving up after 30"@,
{
    three(
        "display dialog \"a11y-probe fixture\" with title \"",
        title,
        "\" buttons {\"OK\"} giving up after 30",
    )
}

/// Whether the window's process could be started.
pub fn fixture_spawn(started: Result<u32, &str>) -> (r: Check)
    ensures
        match started {
            Ok(pid) => r.reads(
                "fixture-spawn"@,
                Status::Pass,
                "osascript pid "@ + text::decimal(pid as nat),
            ),
            Err(e) => r.reads("fixture-spawn"@, Status::Fail, "cannot spawn osascript: "@ + e@),
        },
{
    match started {
        Ok(pid) => {
            let mut detail = "osascript pid ".to_owned();
            detail.append(text::to_decimal(pid as u128).as_str());
            check("fixture-spawn", Status::Pass, detail.as_str())
        },
        Err(e) => {
            let mut detail = "cannot spawn osascript: ".to_owned();
            detail.append(e);
            check("fixture-spawn", Status::Fail, detail.as_str())
        },
    }
}

/// Whether one of these is the title of the window that a probe looks for. A
/// window whose title cannot be read is not it.
pub fn find_window(titles: &[Option<String>], title: &str) -> (r: bool)
    ensures
        r == exists|i: int|
            0 <= i < titles@.len() && text::opt_string(#[trigger] titles@[i]) == Some(title@),
{
    let mut i: usize = 0;
    while i < titles.len()
        invariant
            i <= titles@.len(),
            forall|j: int|
                0 <= j < i ==> text::opt_string(#[trigger] titles@[j]) != Some(title@),
        decreases titles@.len() - i,
    {
        if let Some(t) = &titles[i] {
            if text::same(t.as_str(), title) {
                assert(text::opt_string(titles@[i as int]) == Some(title@));
                return true;
            }
        }
        i = i + 1;
    }
    false
}

/// Whether the window was found.
pub fn fixture_window(title: &str, found: bool) -> (r: Check)
    ensures
        if found {
            r.reads(
                "fixture-window"@,
                Status::Pass,
                "found window "@ + text::debug_text(title@) + " via AX"@,
            )
        } else {
            r.reads(
                "fixture-window"@,
                Status::Fail,
                "no window titled "@ + text::debug_text(title@)
                    + " appeared in the AX tree within 10s"@,
            )
        },
{
    let shown: String = text::debug(title);
    if found {
        let detail = three("found window ", shown.as_str(), " via AX");
        check("fixture-window", Status::Pass, detail.as_str())
    } else {
        let detail = three(
            "no window titled ",
            shown.as_str(),
            " appeared in the AX tree within 10s",
        );
        check("fixture-window", Status::Fail, detail.as_str())
    }
}

// ── The order of the checks ──────────────────────────────────────────────────

/// The checks, in the order in which they are made.
#[derive(Debug, Clone, Copy, PartialEq, Eq, Structural)]
pub enum Stage {
    Session,
    Trust,
    Windows,
    Dock,
    Role,
    Children,
    /// The window is opened.
    Spawn,
    /// The window is looked for.
    Window,
    Over,
}

/// Whether the last check failed.
pub open spec fn just_failed(checks: Seq<Check>) -> bool {
    checks.len() > 0 && checks.last().status == Status::Fail
}

/// What follows a check, given every check made so far. Without trust the Dock is
/// looked at still, which tells a missing session from missing trust; no window
/// is opened then.
pub open spec fn stage_after(stage: Stage, checks: Seq<Check>) -> Stage {
    match stage {
        Stage::Session => Stage::Trust,
        Stage::Trust => Stage::Windows,
        Stage::Windows => Stage::Dock,
        Stage::Dock => if just_failed(checks) {
            Stage::Over
        } else {
            Stage::Role
        },
        Stage::Role => if just_failed(checks) {
            Stage::Over
        } else {
            Stage::Children
        },
        Stage::Children => if probe::ready(checks) {
            Stage::Spawn
        } else {
            Stage::Over
        },
        Stage::Spawn => if just_failed(checks) {
            Stage::Over
        } else {
            Stage::Window
        },
        Stage::Window => Stage::Over,
        Stage::Over => Stage::Over,
    }
}

/// Adds what a stage found to the report, and says what follows.
pub fn run(report: &mut Report, stage: Stage, found: Check) -> (r: Stage)
    ensures
        final(report).checks@ == old(report).checks@.push(found),
        r == stage_after(stage, final(report).checks@),
{
    let failed: bool = found.status == Status::Fail;
    report.checks.push(found);
    match stage {
        Stage::Session => Stage::Trust,
        Stage::Trust => Stage::Windows,
        Stage::Windows => Stage::Dock,
        Stage::Dock => if failed {
            Stage::Over
        } else {
            Stage::Role
        },
        Stage::Role => if failed {
            Stage::Over
        } else {
            Stage::Children
        },
        Stage::Children => if report.ok() {
            Stage::Spawn
        } else {
            Stage::Over
        },
        Stage::Spawn => if failed {
            Stage::Over
        } else {
            Stage::Window
        },
        Stage::Window => Stage::Over,
        Stage::Over => Stage::Over,
    }
}

/// A window is opened only where no check has failed.
pub proof fn a_window_is_opened_only_where_all_is_well(stage: Stage, checks: Seq<Check>)
    requires
        stage_after(stage, checks) == Stage::Spawn,
    ensures
        probe::ready(checks),
{
}

/// The probe takes these steps in turn. Without the Dock, or where it cannot be read, it
/// stops; a window is opened only where nothing has failed at all.
pub proof fn a_probe_takes_its_steps(checks: Seq<Check>, c: Check)
    ensures
        stage_after(Stage::Session, checks) == Stage::Trust,
        stage_after(Stage::Trust, checks) == Stage::Windows,
        stage_after(Stage::Windows, checks) == Stage::Dock,
        c.status != Status::Fail ==> stage_after(Stage::Dock, checks.push(c)) == Stage::Role
            && stage_after(Stage::Role, checks.push(c)) == Stage::Children && stage_after(
            Stage::Spawn,
            checks.push(c),
        ) == Stage::Window,
        c.status == Status::Fail ==> stage_after(Stage::Dock, checks.push(c)) == Stage::Over
            && stage_after(Stage::Role, checks.push(c)) == Stage::Over && stage_after(
            Stage::Spawn,
            checks.push(c),
        ) == Stage::Over,
        probe::ready(checks) ==> stage_after(Stage::Children, checks) == Stage::Spawn,
        !probe::ready(checks) ==> stage_after(Stage::Children, checks) == Stage::Over,
        stage_after(Stage::Window, checks) == Stage::Over,
        stage_after(Stage::Over, checks) == Stage::Over,
{
    assert(checks.push(c).last() == c);
}

/// A process is known by the number in the first line of the listing.
pub proof fn a_process_is_the_first_listed(pid: nat, rest: Seq<char>)
    requires
        pid < 0x8000_0000,
    ensures
        first_pid(text::decimal(pid) + seq!['\n'] + rest) == Some(pid as int),
        first_pid(text::decimal(pid)) == Some(pid as int),
        first_pid(Seq::empty()) is None,
{
    text::decimal_is_digits(pid);
    let s = text::decimal(pid);
    assert forall|i: int| 0 <= i < s.len() implies s[i] != '\n' && s[i] != '\r'
        && !text::is_space(#[trigger] s[i]) by {
        text::blanks_and_line_ends_are_space(s[i]);
    }
    assert(!s.contains('\n'));
    text::a_newline_ends_a_line(s, rest);
    let none = Seq::<char>::empty();
    text::a_newline_ends_a_line(none, rest);
    text::trimming_takes_only_space(none, s, none);
    assert(none + s + none =~= s);
    text::a_number_reads_back(pid, 0x8000_0000);
}

/// An error of the interface is shown with its name and its number; one without a name is
/// said to be unknown.
pub proof fn errors_are_shown_by_name_and_number(code: i32)
    ensures
        error_text(code) == error_name(code) + seq![' ', '('] + text::signed_decimal(code as int)
            + seq![')'],
        code == -25200 ==> error_name(code) == "kAXErrorFailure"@,
        code == -25201 ==> error_name(code) == "kAXErrorIllegalArgument"@,
        code == -25202 ==> error_name(code) == "kAXErrorInvalidUIElement"@,
        code == -25204 ==> error_name(code) == "kAXErrorCannotComplete (no window-server connection?)"@,
        code == -25205 ==> error_name(code) == "kAXErrorAttributeUnsupported"@,
        code == -25208 ==> error_name(code) == "kAXErrorNotImplemented"@,
        code == -25211 ==> error_name(code) == "kAXErrorAPIDisabled (process is not TCC-trusted)"@,
        code > -25200 || code < -25211 ==> error_name(code) == "unknown AXError"@,
{
    reveal_strlit(" (");
    reveal_strlit(")");
    assert(" ("@ =~= seq![' ', '(']);
    assert(")"@ =~= seq![')']);
}

} // verus!
