//! The checks on Windows: the session, window station and desktop that the
//! process landed in, and the automation tree that it sees from there.

use super::linux::{self, read_or_error};
use super::{check, three, Check, Report, Status};
use crate::text;
use vstd::prelude::*;

verus! {

/// The session that the process runs in.
pub fn session(id: Result<u32, &str>) -> (r: Check)
    ensures
        r.reads(
            "session-id"@,
            Status::Info,
            match id {
                Ok(n) => "process runs in session "@ + text::decimal(n as nat),
                Err(e) => "ProcessIdToSessionId failed: "@ + e@,
            },
        ),
{
    match id {
        Ok(n) => {
            let mut detail = "process runs in session ".to_owned();
            detail.append(text::to_decimal(n as u128).as_str());
            check("session-id", Status::Info, detail.as_str())
        },
        Err(e) => {
            let mut detail = "ProcessIdToSessionId failed: ".to_owned();
            detail.append(e);
            check("session-id", Status::Info, detail.as_str())
        },
    }
}

/// What the console's session means for the process: the largest number stands
/// for no session at all.
pub fn console_session(console: u32, session: u32) -> (r: Check)
    ensures
        r.reads(
            "console-session-id"@,
            Status::Info,
            if console == 0xffff_ffff {
                "no session is attached to the console"@
            } else if console == session {
                text::decimal(console as nat) + " — process IS in the console session"@
            } else {
                text::decimal(console as nat)
                    + " — process is NOT in the console session; UIA sees the wrong desktop"@
            },
        ),
{
    if console == 0xffff_ffff {
        return check("console-session-id", Status::Info, "no session is attached to the console");
    }
    let mut detail = text::to_decimal(console as u128);
    if console == session {
        detail.append(" — process IS in the console session");
    } else {
        detail.append(" — process is NOT in the console session; UIA sees the wrong desktop");
    }
    check("console-session-id", Status::Info, detail.as_str())
}

/// The name in a buffer of UTF-16 units: what stands before the first zero.
pub fn name_length(units: &[u16]) -> (r: usize)
    ensures
        r <= units@.len(),
        forall|i: int| 0 <= i < r ==> units@[i] != 0,
        r < units@.len() ==> units@[r as int] == 0,
{
    let mut i: usize = 0;
    while i < units.len() && units[i] != 0
        invariant
            i <= units@.len(),
            forall|j: int| 0 <= j < i ==> units@[j] != 0,
        decreases units@.len() - i,
    {
        i = i + 1;
    }
    i
}

/// The window station of the process: only one is interactive.
pub fn window_station(station: Result<Result<&str, &str>, &str>) -> (r: Check)
    ensures
        r.reads(
            "window-station"@,
            Status::Info,
            match station {
                Ok(name) => linux::or_error(name) + (if linux::or_error(name) == "WinSta0"@ {
                    " (interactive)"@
                } else {
                    " (non-interactive)"@
                }),
                Err(e) => "GetProcessWindowStation failed: "@ + e@,
            },
        ),
{
    match station {
        Ok(name) => {
            let mut detail: String = read_or_error(name);
            if text::same(detail.as_str(), "WinSta0") {
                detail.append(" (interactive)");
            } else {
                detail.append(" (non-interactive)");
            }
            check("window-station", Status::Info, detail.as_str())
        },
        Err(e) => {
            let mut detail = "GetProcessWindowStation failed: ".to_owned();
            detail.append(e);
            check("window-station", Status::Info, detail.as_str())
        },
    }
}

/// The desktop of the thread.
pub fn thread_desktop(desktop: Result<Result<&str, &str>, &str>) -> (r: Check)
    ensures
        r.reads(
            "thread-desktop"@,
            Status::Info,
            match desktop {
                Ok(name) => linux::or_error(name),
                Err(e) => "GetThreadDesktop failed: "@ + e@,
            },
        ),
{
    match desktop {
        Ok(name) => check("thread-desktop", Status::Info, read_or_error(name).as_str()),
        Err(e) => {
            let mut detail = "GetThreadDesktop failed: ".to_owned();
            detail.append(e);
            check("thread-desktop", Status::Info, detail.as_str())
        },
    }
}

/// Whether the desktop that receives input can be opened.
pub fn input_desktop(error: Option<&str>) -> (r: Check)
    ensures
        r.reads(
            "input-desktop"@,
            Status::Info,
            match error {
                None => "input desktop is reachable"@,
                Some(e) => "cannot open the input desktop ("@ + e@
                    + ") — no interactive desktop in this window station"@,
            },
        ),
{
    match error {
        None => check("input-desktop", Status::Info, "input desktop is reachable"),
        Some(e) => {
            let detail = three(
                "cannot open the input desktop (",
                e,
                ") — no interactive desktop in this window station",
            );
            check("input-desktop", Status::Info, detail.as_str())
        },
    }
}

/// Whether an automation client could be made.
pub fn client(error: Option<&str>) -> (r: Check)
    ensures
        match error {
            None => r.reads("uia-init"@, Status::Pass, "UIAutomation COM client created"@),
            Some(e) => r.reads(
                "uia-init"@,
                Status::Fail,
                "cannot create the UIAutomation client: "@ + e@,
            ),
        },
{
    match error {
        None => check("uia-init", Status::Pass, "UIAutomation COM client created"),
        Some(e) => {
            let mut detail = "cannot create the UIAutomation client: ".to_owned();
            detail.append(e);
            check("uia-init", Status::Fail, detail.as_str())
        },
    }
}

/// Whether the desktop's root could be read.
pub fn root(read: Result<(Result<&str, &str>, Result<&str, &str>), &str>) -> (r: Check)
    ensures
        match read {
            Ok((name, class)) => r.reads(
                "uia-root"@,
                Status::Pass,
                "name="@ + text::debug_text(linux::or_error(name)) + " class="@
                    + text::debug_text(linux::or_error(class)),
            ),
            Err(e) => r.reads("uia-root"@, Status::Fail, "cannot get the UIA root element: "@ + e@),
        },
{
    match read {
        Ok((name, class)) => {
            let mut detail = "name=".to_owned();
            detail.append(text::debug(read_or_error(name).as_str()).as_str());
            detail.append(" class=");
            detail.append(text::debug(read_or_error(class).as_str()).as_str());
            check("uia-root", Status::Pass, detail.as_str())
        },
        Err(e) => {
            let mut detail = "cannot get the UIA root element: ".to_owned();
            detail.append(e);
            check("uia-root", Status::Fail, detail.as_str())
        },
    }
}

/// A list of names as it is shown.
pub open spec fn name_list(names: Seq<Seq<char>>) -> Seq<char> {
    "["@ + text::joined(names.map_values(|n: Seq<char>| text::debug_text(n)), ", "@) + "]"@
}

fn show_names(names: &[String], n: usize) -> (r: String)
    requires
        n <= names@.len(),
    ensures
        r@ == name_list(text::views(names@).take(n as int)),
{
    let mut shown: Vec<String> = Vec::new();
    let ghost all = text::views(names@);
    let ghost f = |n: Seq<char>| text::debug_text(n);
    let mut i: usize = 0;
    assert(text::views(shown@) =~= all.take(0).map_values(f));
    while i < n
        invariant
            i <= n <= names@.len(),
            all == text::views(names@),
            f == (|n: Seq<char>| text::debug_text(n)),
            text::views(shown@) == all.take(i as int).map_values(f),
        decreases n - i,
    {
        let ghost before = shown@;
        let s = text::debug(names[i].as_str());
        shown.push(s);
        assert(text::views(shown@) =~= text::views(before).push(s@));
        assert(all.take(i + 1).map_values(f) =~= all.take(i as int).map_values(f).push(
            f(all[i as int]),
        ));
        i = i + 1;
    }
    three("[", text::join(&shown, ", ").as_str(), "]")
}

/// How many of so many elements are named.
pub fn first_few(count: usize) -> (r: usize)
    ensures
        r == few(count as nat),
{
    if count < 5 {
        count
    } else {
        5
    }
}

/// How many of so many elements are named: the first five.
pub open spec fn few(count: nat) -> nat {
    if count < 5 {
        count
    } else {
        5
    }
}

/// Whether the desktop has anything on it: how many elements, and the names of
/// the first few.
pub fn root_children(found: Result<(usize, &[String]), &str>) -> (r: Check)
    ensures
        match found {
            Ok((count, names)) => if count > 0 {
                r.reads(
                    "uia-root-children"@,
                    Status::Pass,
                    text::decimal(count as nat) + " top-level elements, first: "@ + name_list(
                        text::views(names@).take(few(names@.len()) as int),
                    ),
                )
            } else {
                r.reads(
                    "uia-root-children"@,
                    Status::Fail,
                    "desktop root has no children — this session's desktop is empty (see session checks above)"@,
                )
            },
            Err(e) => r.reads(
                "uia-root-children"@,
                Status::Fail,
                "cannot enumerate desktop children: "@ + e@,
            ),
        },
{
    match found {
        Ok((count, names)) => {
            if count > 0 {
                let mut detail = text::to_decimal(count as u128);
                detail.append(" top-level elements, first: ");
                detail.append(show_names(names, first_few(names.len())).as_str());
                check("uia-root-children", Status::Pass, detail.as_str())
            } else {
                check(
                    "uia-root-children",
                    Status::Fail,
                    "desktop root has no children — this session's desktop is empty (see session checks above)",
                )
            }
        },
        Err(e) => {
            let mut detail = "cannot enumerate desktop children: ".to_owned();
            detail.append(e);
            check("uia-root-children", Status::Fail, detail.as_str())
        },
    }
}

// ── The order of the checks ──────────────────────────────────────────────────

/// The checks, in the order in which they are made.
#[derive(Debug, Clone, Copy, PartialEq, Eq, Structural)]
pub enum Stage {
    Session,
    Console,
    Station,
    Desktop,
    Input,
    Client,
    Root,
    Children,
    Over,
}

/// What follows a check that came out like this. Where the process landed explains
/// a failure and ends nothing.
pub open spec fn stage_after(stage: Stage, status: Status) -> Stage {
    match stage {
        Stage::Session => Stage::Console,
        Stage::Console => Stage::Station,
        Stage::Station => Stage::Desktop,
        Stage::Desktop => Stage::Input,
        Stage::Input => Stage::Client,
        Stage::Client => if status == Status::Fail {
            Stage::Over
        } else {
            Stage::Root
        },
        Stage::Root => if status == Status::Fail {
            Stage::Over
        } else {
            Stage::Children
        },
        Stage::Children => Stage::Over,
        Stage::Over => Stage::Over,
    }
}

/// Adds what a stage found to the report, and says what follows.
pub fn run(report: &mut Report, stage: Stage, found: Check) -> (r: Stage)
    ensures
        final(report).checks@ == old(report).checks@.push(found),
        r == stage_after(stage, found.status),
{
    let failed: bool = found.status == Status::Fail;
    report.checks.push(found);
    match stage {
        Stage::Session => Stage::Console,
        Stage::Console => Stage::Station,
        Stage::Station => Stage::Desktop,
        Stage::Desktop => Stage::Input,
        Stage::Input => Stage::Client,
        Stage::Client => if failed {
            Stage::Over
        } else {
            Stage::Root
        },
        Stage::Root => if failed {
            Stage::Over
        } else {
            Stage::Children
        },
        Stage::Children => Stage::Over,
        Stage::Over => Stage::Over,
    }
}


/// The probe takes these steps in turn. What is known of the session never ends it; without
/// a client or a root there is nothing more to look at.
pub proof fn a_probe_takes_its_steps(status: Status)
    ensures
        stage_after(Stage::Session, status) == Stage::Console,
        stage_after(Stage::Console, status) == Stage::Station,
        stage_after(Stage::Station, status) == Stage::Desktop,
        stage_after(Stage::Desktop, status) == Stage::Input,
        stage_after(Stage::Input, status) == Stage::Client,
        status != Status::Fail ==> stage_after(Stage::Client, status) == Stage::Root && stage_after(
            Stage::Root,
            status,
        ) == Stage::Children,
        status == Status::Fail ==> stage_after(Stage::Client, status) == Stage::Over && stage_after(
            Stage::Root,
            status,
        ) == Stage::Over,
        stage_after(Stage::Children, status) == Stage::Over,
        stage_after(Stage::Over, status) == Stage::Over,
{
}

/// At most five names are shown, and never more than there are.
pub proof fn at_most_five_are_shown(count: nat)
    ensures
        few(count) <= 5,
        few(count) <= count,
        count >= 5 ==> few(count) == 5,
        count < 5 ==> few(count) == count,
{
}

/// Names are listed in brackets, each as it would be written in a program.
pub proof fn names_are_listed_in_brackets(name: Seq<char>, names: Seq<Seq<char>>)
    ensures
        name_list(Seq::empty()) == seq!['[', ']'],
        name_list(seq![name]) == seq!['['] + text::debug_text(name) + seq![']'],
        names.len() > 0 ==> name_list(names.push(name)) == name_list(names).drop_last() + seq![
            ',',
            ' ',
        ] + text::debug_text(name) + seq![']'],
{
    reveal_strlit("[");
    reveal_strlit("]");
    reveal_strlit(", ");
    let show = |n: Seq<char>| text::debug_text(n);
    let none = Seq::<Seq<char>>::empty();
    assert(none.map_values(show) =~= none);
    reveal_with_fuel(text::joined, 2);
    assert(name_list(none) =~= seq!['[', ']']);
    assert(seq![name].map_values(show) =~= seq![text::debug_text(name)]);
    assert(name_list(seq![name]) =~= seq!['['] + text::debug_text(name) + seq![']']);
    if names.len() > 0 {
        let (a, b) = (names.map_values(show), seq![text::debug_text(name)]);
        assert(names.push(name).map_values(show) =~= a + b);
        text::join_parts(a, b, ", "@);
        assert(name_list(names.push(name)) =~= name_list(names).drop_last() + seq![',', ' ']
            + text::debug_text(name) + seq![']']);
    }
}

} // verus!
