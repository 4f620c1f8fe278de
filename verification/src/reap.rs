//! `vm reap`: shut down the VMs that nobody is using.
//!
//! A VM is left alone while a `vm` process uses it, inside the idle window, and
//! while someone is at its console. Where the console cannot be asked it is shut
//! down, and that is said out loud.

use crate::exit::{infra, Failure};
use crate::journal::Say;
use crate::process::{self, Output};
use crate::sync::git::owned;
use crate::text;
use vstd::prelude::*;

verus! {

// ── The sweep ────────────────────────────────────────────────────────────────

/// Whether a sweep looks at a VM: at the one that was named, or at every one.
pub fn covers(alias: Option<&str>, name: &str) -> (r: bool)
    ensures
        r == (alias is None || alias->0@ == name@),
{
    match alias {
        Some(a) => text::same(a, name),
        None => true,
    }
}

/// What is learnt of a VM, one thing after the other.
#[derive(Debug)]
pub enum Seen<'a> {
    /// The status that Parallels gives it.
    Status(&'a str),
    /// Whether it could be claimed: not while a use is in flight.
    Claimed(bool),
    /// How long ago its last use ended, in nanoseconds, where that is known.
    Idle(Option<u128>),
    /// How long it has been idle, and what its console says of the last input, in
    /// nanoseconds both.
    Input(u128, Result<u128, Failure>),
}

/// What a sweep does next with a VM.
#[derive(Debug)]
pub enum Sweep {
    /// Try to claim it.
    Claim,
    /// Ask how long ago its last use ended.
    Measure,
    /// Ask its console; this is how long it has been idle.
    AskConsole(u128),
    /// Leave it alone, and say so.
    Leave(Option<Say>),
    /// Shut it down, after saying what had to be guessed.
    Stop(Option<Say>),
}

/// The idle window, in nanoseconds.
pub open spec fn window(idle_minutes: u64) -> int {
    idle_minutes * 60_000_000_000
}

/// Whole minutes of a time in nanoseconds.
pub open spec fn minutes(ns: u128) -> Seq<char> {
    text::decimal((ns / 60_000_000_000) as nat)
}

/// How long ago the last use ended. Where that is not known, it ended now.
pub open spec fn idle_for(idle: Option<u128>) -> u128 {
    match idle {
        Some(ns) => ns,
        None => 0,
    }
}

/// The line for a VM that is in use.
pub open spec fn in_use(name: Seq<char>) -> Seq<char> {
    "vm ▸ reap ▸ "@ + name + " in use — skipped"@
}

/// The line for a VM that was used inside the window.
pub open spec fn kept(name: Seq<char>, idle: u128, idle_minutes: u64) -> Seq<char> {
    "vm ▸ reap ▸ "@ + name + " idle "@ + minutes(idle) + "m of "@ + text::decimal(
        idle_minutes as nat,
    ) + "m — kept"@
}

/// The line for a VM that someone is at.
pub open spec fn someone_there(name: Seq<char>, input: u128) -> Seq<char> {
    "vm ▸ reap ▸ "@ + name + " console input "@ + minutes(input) + "m ago — kept"@
}

/// The line for a VM whose console could not be asked.
pub open spec fn guessed(name: Seq<char>, why: Seq<char>) -> Seq<char> {
    "vm ▸ reap ▸ "@ + name + " input-idle probe failed ("@ + why + ") — shutting down anyway"@
}

/// What follows from what was learnt last.
pub open spec fn follows(name: Seq<char>, idle_minutes: u64, seen: Seen, r: Sweep) -> bool {
    match seen {
        Seen::Status(status) => if status@ == "running"@ {
            r is Claim
        } else {
            r == Sweep::Leave(None)
        },
        Seen::Claimed(claimed) => if claimed {
            r is Measure
        } else {
            r matches Sweep::Leave(Some(Say::Crumb(line))) && line@ == in_use(name)
        },
        Seen::Idle(idle) => if idle_for(idle) < window(idle_minutes) {
            r matches Sweep::Leave(Some(Say::Crumb(line))) && line@ == kept(
                name,
                idle_for(idle),
                idle_minutes,
            )
        } else {
            r == Sweep::AskConsole(idle_for(idle))
        },
        Seen::Input(_, Ok(input)) => if input < window(idle_minutes) {
            r matches Sweep::Leave(Some(Say::Crumb(line))) && line@ == someone_there(name, input)
        } else {
            r == Sweep::Stop(None)
        },
        Seen::Input(_, Err(e)) => r matches Sweep::Stop(Some(Say::Notice(line))) && line@
            == guessed(name, e.says()),
    }
}

fn whole_minutes(ns: u128) -> (r: String)
    ensures
        r@ == minutes(ns),
{
    text::to_decimal(ns / 60_000_000_000)
}

/// What a sweep does next with a VM, after what was learnt last.
pub fn reap(name: &str, idle_minutes: u64, seen: Seen) -> (r: Sweep)
    ensures
        follows(name@, idle_minutes, seen, r),
{
    let limit: u128 = idle_minutes as u128 * 60_000_000_000;
    match seen {
        Seen::Status(status) => if text::same(status, "running") {
            Sweep::Claim
        } else {
            Sweep::Leave(None)
        },
        Seen::Claimed(claimed) => {
            if claimed {
                return Sweep::Measure;
            }
            let mut line = "vm ▸ reap ▸ ".to_owned();
            line.append(name);
            line.append(" in use — skipped");
            Sweep::Leave(Some(Say::Crumb(line)))
        },
        Seen::Idle(idle) => {
            let ns: u128 = match idle {
                Some(ns) => ns,
                None => 0,
            };
            if ns >= limit {
                return Sweep::AskConsole(ns);
            }
            let mut line = "vm ▸ reap ▸ ".to_owned();
            line.append(name);
            line.append(" idle ");
            line.append(whole_minutes(ns).as_str());
            line.append("m of ");
            line.append(text::to_decimal(idle_minutes as u128).as_str());
            line.append("m — kept");
            Sweep::Leave(Some(Say::Crumb(line)))
        },
        Seen::Input(_, Ok(input)) => {
            if input >= limit {
                return Sweep::Stop(None);
            }
            let mut line = "vm ▸ reap ▸ ".to_owned();
            line.append(name);
            line.append(" console input ");
            line.append(whole_minutes(input).as_str());
            line.append("m ago — kept");
            Sweep::Leave(Some(Say::Crumb(line)))
        },
        Seen::Input(_, Err(e)) => {
            let mut line = "vm ▸ reap ▸ ".to_owned();
            line.append(name);
            line.append(" input-idle probe failed (");
            line.append(e.text());
            line.append(") — shutting down anyway");
            Sweep::Stop(Some(Say::Notice(line)))
        },
    }
}

/// The line for a VM that was shut down.
pub fn stopped(name: &str, idle: u128) -> (r: String)
    ensures
        r@ == "vm ▸ reap ▸ "@ + name@ + " shut down after "@ + minutes(idle)
            + "m idle (any `vm exec` boots it)"@,
{
    let mut line = "vm ▸ reap ▸ ".to_owned();
    line.append(name);
    line.append(" shut down after ");
    line.append(whole_minutes(idle).as_str());
    line.append("m idle (any `vm exec` boots it)");
    line
}

/// Whether what was learnt of a VM is what a sweep asks for, in its order, up to
/// where it decides.
pub open spec fn swept(
    name: Seq<char>,
    idle_minutes: u64,
    status: &str,
    claimed: bool,
    idle: Option<u128>,
    input: Result<u128, Failure>,
    end: Sweep,
) -> bool {
    exists|a: Sweep, b: Sweep, c: Sweep|
        {
            &&& #[trigger] follows(name, idle_minutes, Seen::Status(status), a)
            &&& a is Claim
            &&& #[trigger] follows(name, idle_minutes, Seen::Claimed(claimed), b)
            &&& b is Measure
            &&& #[trigger] follows(name, idle_minutes, Seen::Idle(idle), c)
            &&& c is AskConsole
            &&& follows(name, idle_minutes, Seen::Input(c->AskConsole_0, input), end)
        }
}

/// A VM is shut down only where it runs, no use of it is in flight, its last use
/// ended a window ago, and nobody touched its console inside the window or the
/// console could not be asked. That guess is never made silently: the line for it
/// is one that even a quiet sweep shows.
pub proof fn only_an_idle_vm_is_stopped(
    name: Seq<char>,
    idle_minutes: u64,
    status: &str,
    claimed: bool,
    idle: Option<u128>,
    input: Result<u128, Failure>,
    end: Sweep,
)
    requires
        swept(name, idle_minutes, status, claimed, idle, input, end),
        end is Stop,
    ensures
        status@ == "running"@,
        claimed,
        idle_for(idle) >= window(idle_minutes),
        match input {
            Ok(ns) => ns >= window(idle_minutes),
            Err(_) => end matches Sweep::Stop(Some(Say::Notice(_))),
        },
{
}

/// Reclaiming a VM is guaranteed: one that is idle by every measure is shut down.
pub proof fn an_idle_vm_is_stopped(
    name: Seq<char>,
    idle_minutes: u64,
    idle: Option<u128>,
    input: Result<u128, Failure>,
    measured: Sweep,
    end: Sweep,
)
    requires
        idle_for(idle) >= window(idle_minutes),
        input matches Ok(ns) ==> ns >= window(idle_minutes),
        follows(name, idle_minutes, Seen::Idle(idle), measured),
        follows(name, idle_minutes, Seen::Input(idle_for(idle), input), end),
    ensures
        measured == Sweep::AskConsole(idle_for(idle)),
        end is Stop,
{
}

/// What the idle window protects, in nanoseconds: a VM whose last use ended, or
/// whose console was touched, less than the given minutes ago is left alone, and one
/// past both is shut down. A use of which nothing is known has just ended.
pub proof fn the_window_protects_a_vm(
    name: Seq<char>,
    idle_minutes: u64,
    idle: u128,
    input: u128,
    unknown: Sweep,
    measured: Sweep,
    end: Sweep,
)
    requires
        follows(name, idle_minutes, Seen::Idle(None), unknown),
        follows(name, idle_minutes, Seen::Idle(Some(idle)), measured),
        follows(name, idle_minutes, Seen::Input(idle, Ok(input)), end),
    ensures
        idle < idle_minutes * 60 * 1_000_000_000 ==> measured is Leave,
        idle >= idle_minutes * 60 * 1_000_000_000 ==> measured == Sweep::AskConsole(idle),
        input < idle_minutes * 60 * 1_000_000_000 ==> end is Leave,
        input >= idle_minutes * 60 * 1_000_000_000 ==> end == Sweep::Stop(None),
        idle_minutes > 0 ==> unknown is Leave,
        idle_minutes == 0 ==> unknown == Sweep::AskConsole(0),
{
}

/// A VM that does not run, or that is in use, is never looked at further; one that
/// runs and is free is. Where the console cannot be asked, a VM that got that far is
/// shut down, and the line that says so names it and the reason.
pub proof fn only_a_free_running_vm_is_considered(
    name: Seq<char>,
    idle_minutes: u64,
    status: &str,
    claimed: bool,
    idle: u128,
    why: Failure,
    seen: Sweep,
    taken: Sweep,
    end: Sweep,
)
    requires
        follows(name, idle_minutes, Seen::Status(status), seen),
        follows(name, idle_minutes, Seen::Claimed(claimed), taken),
        follows(name, idle_minutes, Seen::Input(idle, Err(why)), end),
    ensures
        status@ == "running"@ ==> seen is Claim,
        status@ != "running"@ ==> seen == Sweep::Leave(None),
        claimed ==> taken is Measure,
        !claimed ==> taken is Leave,
        end matches Sweep::Stop(Some(Say::Notice(line))) && text::contains(line@, name)
            && text::contains(line@, why.says()),
{
    let head = "vm ▸ reap ▸ "@;
    let middle = " input-idle probe failed ("@;
    let tail = ") — shutting down anyway"@;
    let line = guessed(name, why.says());
    assert(line =~= head + name + (middle + why.says() + tail));
    text::what_is_contained_is_there(head, name, middle + why.says() + tail);
    assert(line =~= head + name + middle + why.says() + tail);
    text::what_is_contained_is_there(head + name + middle, why.says(), tail);
}

/// The line for a VM that is kept names it, and shows whole minutes: those of its
/// idle time, and those of the window.
pub proof fn a_kept_vm_shows_its_minutes(
    name: Seq<char>,
    idle_minutes: u64,
    idle: u128,
    m: nat,
    measured: Sweep,
)
    requires
        follows(name, idle_minutes, Seen::Idle(Some(idle)), measured),
        idle < idle_minutes * 60 * 1_000_000_000,
        m * 60 * 1_000_000_000 <= idle < (m + 1) * 60 * 1_000_000_000,
    ensures
        measured matches Sweep::Leave(Some(Say::Crumb(line))) && line@ == "vm ▸ reap ▸ "@ + name
            + " idle "@ + text::decimal(m) + "m of "@ + text::decimal(idle_minutes as nat)
            + "m — kept"@,
{
    assert(idle / 60_000_000_000 == m);
}

// ── The timer ────────────────────────────────────────────────────────────────

/// The label of the launchd job that sweeps.
pub const LAUNCHD_LABEL: &'static str = "com.akesson.vm.reap";

/// The log that launchd kept before there was a journal.
pub const LEGACY_LOG: &'static str = "~/Library/Logs/vm-reap.log";

/// Where the job is described, or that there is no home to put it in.
pub fn plist_path(home: Option<&str>) -> (r: Result<String, Failure>)
    ensures
        match home {
            Some(h) => r matches Ok(p) && p@ == crate::config::path_below(
                h@,
                "Library/LaunchAgents/com.akesson.vm.reap.plist"@,
            ),
            None => r matches Err(e) && e is Infra && e.says() == "HOME not set"@,
        },
{
    match home {
        Some(h) => Ok(crate::config::below(h, "Library/LaunchAgents/com.akesson.vm.reap.plist")),
        None => Err(infra("HOME not set".to_owned())),
    }
}

/// What a job description says before the program it runs.
pub open spec fn plist_head() -> Seq<char> {
    "<?xml version=\"1.0\" encoding=\"UTF-8\"?>\n<!DOCTYPE plist PUBLIC \"-//Apple//DTD PLIST 1.0//EN\" \"http://www.apple.com/DTDs/PropertyList-1.0.dtd\">\n<plist version=\"1.0\">\n<dict>\n    <key>Label</key><string>com.akesson.vm.reap</string>\n    <key>ProgramArguments</key>\n    <array>\n        <string>"@
}

/// What it says between the program and the idle window.
pub open spec fn plist_arguments() -> Seq<char> {
    "</string>\n        <string>--quiet</string>\n        <string>reap</string>\n        <string>--idle-minutes</string>\n        <string>"@
}

/// What it says between the idle window and the first log.
pub open spec fn plist_environment() -> Seq<char> {
    "</string>\n    </array>\n    <key>StartInterval</key><integer>300</integer>\n    <key>EnvironmentVariables</key>\n    <dict>\n        <key>PATH</key><string>/usr/local/bin:/usr/bin:/bin</string>\n    </dict>\n    <key>StandardOutPath</key><string>"@
}

/// What it says between the two logs.
pub open spec fn plist_error_path() -> Seq<char> {
    "</string>\n    <key>StandardErrorPath</key><string>"@
}

/// What it ends with.
pub open spec fn plist_tail() -> Seq<char> {
    "</string>\n</dict>\n</plist>\n"@
}

/// The description of the job that sweeps every five minutes: quiet, because its
/// narration belongs in the journal, and with the PATH that `prlctl` is on.
pub open spec fn plist_text(exe: Seq<char>, idle_minutes: u64, gutter: Seq<char>) -> Seq<char> {
    plist_head() + exe + plist_arguments() + text::decimal(idle_minutes as nat)
        + plist_environment() + gutter + plist_error_path() + gutter + plist_tail()
}

/// The description of the job that sweeps every five minutes.
pub fn plist(exe: &str, idle_minutes: u64, gutter: &str) -> (r: String)
    ensures
        r@ == plist_text(exe@, idle_minutes, gutter@),
{
    let mut out =
        "<?xml version=\"1.0\" encoding=\"UTF-8\"?>\n<!DOCTYPE plist PUBLIC \"-//Apple//DTD PLIST 1.0//EN\" \"http://www.apple.com/DTDs/PropertyList-1.0.dtd\">\n<plist version=\"1.0\">\n<dict>\n    <key>Label</key><string>com.akesson.vm.reap</string>\n    <key>ProgramArguments</key>\n    <array>\n        <string>".to_owned();
    out.append(exe);
    out.append(
        "</string>\n        <string>--quiet</string>\n        <string>reap</string>\n        <string>--idle-minutes</string>\n        <string>",
    );
    out.append(text::to_decimal(idle_minutes as u128).as_str());
    out.append(
        "</string>\n    </array>\n    <key>StartInterval</key><integer>300</integer>\n    <key>EnvironmentVariables</key>\n    <dict>\n        <key>PATH</key><string>/usr/local/bin:/usr/bin:/bin</string>\n    </dict>\n    <key>StandardOutPath</key><string>",
    );
    out.append(gutter);
    out.append("</string>\n    <key>StandardErrorPath</key><string>");
    out.append(gutter);
    out.append("</string>\n</dict>\n</plist>\n");
    out
}

/// Whether a description predates the journal: it names the retired log, or it
/// never learnt to be quiet.
pub open spec fn predates_journal(plist: Seq<char>) -> bool {
    text::contains(plist, "Library/Logs"@) || !text::contains(plist, "<string>--quiet</string>"@)
}

/// Whether a description predates the journal.
pub fn is_stale(plist: &str) -> (r: bool)
    ensures
        r == predates_journal(plist@),
{
    text::has(plist, "Library/Logs") || !text::has(plist, "<string>--quiet</string>")
}

/// Whether the description on disk predates the journal. None on disk is another
/// matter.
pub fn plist_is_stale(on_disk: Option<&str>) -> (r: bool)
    ensures
        r == (on_disk is Some && predates_journal(on_disk->0@)),
{
    match on_disk {
        Some(text) => is_stale(text),
        None => false,
    }
}

/// Whether a slash stands before a capital L anywhere, as it does in the name of
/// the retired log.
spec fn has_slash_l(s: Seq<char>) -> bool {
    exists|i: int| 0 <= i < s.len() - 1 && #[trigger] s[i] == '/' && s[i + 1] == 'L'
}

proof fn retired_log_has_slash_l()
    ensures
        "Library/Logs"@.len() == 12,
        "Library/Logs"@[7] == '/',
        "Library/Logs"@[8] == 'L',
        !"Library/Logs"@.contains('<'),
        !"Library/Logs"@.contains('>'),
{
    reveal_strlit("Library/Logs");
}

proof fn without_slash_l(s: Seq<char>)
    requires
        !has_slash_l(s),
    ensures
        !text::contains(s, "Library/Logs"@),
{
    retired_log_has_slash_l();
    let n = "Library/Logs"@;
    assert forall|i: int| !text::occurs_at(s, n, i) by {
        if text::occurs_at(s, n, i) {
            assert(s.subrange(i, i + 12)[7] == s[i + 7]);
            assert(s.subrange(i, i + 12)[8] == s[i + 8]);
            assert(s[i + 7] == '/' && s[i + 7 + 1] == 'L');
        }
    }
}

/// Two texts without `n` have none of it between them either, where they meet in
/// a character that `n` does not hold.
proof fn nothing_in_between(a: Seq<char>, b: Seq<char>, n: Seq<char>)
    requires
        !text::contains(a, n),
        !text::contains(b, n),
        n.len() > 0,
        (a.len() > 0 && !n.contains(a.last())) || (b.len() > 0 && !n.contains(b[0])),
    ensures
        !text::contains(a + b, n),
{
    assert forall|i: int| !text::occurs_at(a + b, n, i) by {
        if text::occurs_at(a + b, n, i) {
            let part = (a + b).subrange(i, i + n.len());
            if i + n.len() <= a.len() {
                assert(a.subrange(i, i + n.len()) =~= part);
                assert(text::occurs_at(a, n, i));
            } else if i >= a.len() {
                assert(b.subrange(i - a.len(), i - a.len() + n.len()) =~= part);
                assert(text::occurs_at(b, n, i - a.len()));
            } else {
                assert(part[a.len() - 1 - i] == a.last());
                assert(part[a.len() - i] == b[0]);
                assert(n[a.len() - 1 - i] == a.last());
                assert(n[a.len() - i] == b[0]);
            }
        }
    }
}

proof fn fixed_parts_are_clean()
    ensures
        !has_slash_l(plist_head()),
        plist_head().len() > 0,
        plist_head().last() == '>',
        !has_slash_l(plist_arguments()),
        plist_arguments().len() > 42,
        plist_arguments()[0] == '<',
        plist_arguments().last() == '>',
        plist_arguments().subrange(18, 42) == "<string>--quiet</string>"@,
        !has_slash_l(plist_environment()),
        plist_environment().len() > 0,
        plist_environment()[0] == '<',
        plist_environment().last() == '>',
        !has_slash_l(plist_error_path()),
        plist_error_path().len() > 0,
        plist_error_path()[0] == '<',
        plist_error_path().last() == '>',
        !has_slash_l(plist_tail()),
        plist_tail().len() > 0,
        plist_tail()[0] == '<',
{
    assert(!has_slash_l(plist_head()) && plist_head().len() > 0 && plist_head().last() == '>') by {
        reveal_strlit("<?xml version=\"1.0\" encoding=\"UTF-8\"?>\n<!DOCTYPE plist PUBLIC \"-//Apple//DTD PLIST 1.0//EN\" \"http://www.apple.com/DTDs/PropertyList-1.0.dtd\">\n<plist version=\"1.0\">\n<dict>\n    <key>Label</key><string>com.akesson.vm.reap</string>\n    <key>ProgramArguments</key>\n    <array>\n        <string>");
    }
    assert(!has_slash_l(plist_arguments()) && plist_arguments().len() > 42 && plist_arguments()[0]
        == '<' && plist_arguments().last() == '>' && plist_arguments().subrange(18, 42)
        =~= "<string>--quiet</string>"@) by {
        reveal_strlit("<string>--quiet</string>");
        reveal_strlit("</string>\n        <string>--quiet</string>\n        <string>reap</string>\n        <string>--idle-minutes</string>\n        <string>");
    }
    assert(!has_slash_l(plist_environment()) && plist_environment().len() > 0
        && plist_environment()[0] == '<' && plist_environment().last() == '>') by {
        reveal_strlit("</string>\n    </array>\n    <key>StartInterval</key><integer>300</integer>\n    <key>EnvironmentVariables</key>\n    <dict>\n        <key>PATH</key><string>/usr/local/bin:/usr/bin:/bin</string>\n    </dict>\n    <key>StandardOutPath</key><string>");
    }
    assert(!has_slash_l(plist_error_path()) && plist_error_path().len() > 0
        && plist_error_path()[0] == '<' && plist_error_path().last() == '>') by {
        reveal_strlit("</string>\n    <key>StandardErrorPath</key><string>");
    }
    assert(!has_slash_l(plist_tail()) && plist_tail().len() > 0 && plist_tail()[0] == '<') by {
        reveal_strlit("</string>\n</dict>\n</plist>\n");
    }
}

/// A description that is written now never reads as one from before the journal,
/// unless a path in it names the place of the retired log.
pub proof fn a_description_written_now_is_current(
    exe: Seq<char>,
    idle_minutes: u64,
    gutter: Seq<char>,
)
    requires
        !text::contains(exe, "Library/Logs"@),
        !text::contains(gutter, "Library/Logs"@),
    ensures
        !predates_journal(plist_text(exe, idle_minutes, gutter)),
{
    let n = "Library/Logs"@;
    let window = text::decimal(idle_minutes as nat);
    fixed_parts_are_clean();
    retired_log_has_slash_l();
    without_slash_l(plist_head());
    without_slash_l(plist_arguments());
    without_slash_l(plist_environment());
    without_slash_l(plist_error_path());
    without_slash_l(plist_tail());
    text::decimal_is_digits(idle_minutes as nat);
    without_slash_l(window);
    let a = plist_head() + exe;
    nothing_in_between(plist_head(), exe, n);
    let b = a + plist_arguments();
    nothing_in_between(a, plist_arguments(), n);
    assert(b.last() == plist_arguments().last());
    let c = b + window;
    nothing_in_between(b, window, n);
    let d = c + plist_environment();
    nothing_in_between(c, plist_environment(), n);
    assert(d.last() == plist_environment().last());
    let e = d + gutter;
    nothing_in_between(d, gutter, n);
    let f = e + plist_error_path();
    nothing_in_between(e, plist_error_path(), n);
    assert(f.last() == plist_error_path().last());
    let g = f + gutter;
    nothing_in_between(f, gutter, n);
    nothing_in_between(g, plist_tail(), n);
    let whole = plist_text(exe, idle_minutes, gutter);
    assert(whole == g + plist_tail());
    let at: int = a.len() as int + 18;
    let quiet = "<string>--quiet</string>"@;
    assert(quiet.len() == 24);
    assert(whole.subrange(at, at + 24) =~= plist_arguments().subrange(18, 42));
    assert(text::occurs_at(whole, quiet, at));
}

/// The launchd domain of a user.
pub fn gui_domain(uid: u32) -> (r: String)
    ensures
        r@ == "gui/"@ + text::decimal(uid as nat),
{
    let mut out = "gui/".to_owned();
    out.append(text::to_decimal(uid as u128).as_str());
    out
}

/// The job in the launchd domain of a user.
pub fn gui_domain_target(uid: u32) -> (r: String)
    ensures
        r@ == "gui/"@ + text::decimal(uid as nat) + "/com.akesson.vm.reap"@,
{
    let mut out = gui_domain(uid);
    out.append("/com.akesson.vm.reap");
    out
}

/// The `launchctl` arguments that unload the job.
pub fn unload_args(uid: u32) -> (r: Vec<String>)
    ensures
        text::views(r@) == seq!["bootout"@, "gui/"@ + text::decimal(uid as nat) + "/com.akesson.vm.reap"@],
{
    let job = gui_domain_target(uid);
    let args = owned(&["bootout", job.as_str()]);
    assert(text::views(args@) =~= seq!["bootout"@, "gui/"@ + text::decimal(uid as nat) + "/com.akesson.vm.reap"@]);
    args
}

/// The `launchctl` arguments that load the job from its plist.
pub fn load_args(uid: u32, plist: &str) -> (r: Vec<String>)
    ensures
        text::views(r@) == seq!["bootstrap"@, "gui/"@ + text::decimal(uid as nat), plist@],
{
    let domain = gui_domain(uid);
    let args = owned(&["bootstrap", domain.as_str(), plist]);
    assert(text::views(args@) =~= seq!["bootstrap"@, "gui/"@ + text::decimal(uid as nat), plist@]);
    args
}

/// The `launchctl` arguments that look for the job.
pub fn look_args(uid: u32) -> (r: Vec<String>)
    ensures
        text::views(r@) == seq!["print"@, "gui/"@ + text::decimal(uid as nat) + "/com.akesson.vm.reap"@],
{
    let job = gui_domain_target(uid);
    let args = owned(&["print", job.as_str()]);
    assert(text::views(args@) =~= seq!["print"@, "gui/"@ + text::decimal(uid as nat) + "/com.akesson.vm.reap"@]);
    args
}

/// Whether a run of `launchctl` succeeded, with what it complained of where it
/// did not.
pub fn launchctl(args: &[String], out: &Output) -> (r: Result<(), Failure>)
    ensures
        match r {
            Ok(_) => out.success,
            Err(e) => !out.success && e is Infra && e.says() == process::tool_failed(
                "launchctl"@,
                text::views(args@),
                out.stderr@,
            ),
        },
{
    process::succeeded("launchctl", args, out)
}

/// Whether the job is loaded: `launchctl` could be run, and it knows the job.
pub fn launchd_loaded(printed: Option<&Output>) -> (r: bool)
    ensures
        r == (printed is Some && printed->0.success),
{
    match printed {
        Some(out) => out.success,
        None => false,
    }
}

/// What an install says.
pub fn installed(exe: &str, idle_minutes: u64) -> (r: String)
    ensures
        r@ == "vm ▸ reap ▸ launchd job com.akesson.vm.reap installed: every 5m, shut down VMs idle ≥"@
            + text::decimal(idle_minutes as nat) + "m\nvm ▸ reap ▸ runs "@ + exe@
            + " — reinstall after moving the binary (`vm reap --install`)"@,
{
    let mut line =
        "vm ▸ reap ▸ launchd job com.akesson.vm.reap installed: every 5m, shut down VMs idle ≥".to_owned();
    line.append(text::to_decimal(idle_minutes as u128).as_str());
    line.append("m\nvm ▸ reap ▸ runs ");
    line.append(exe);
    line.append(" — reinstall after moving the binary (`vm reap --install`)");
    line
}

/// What the removal of the retired log says.
pub fn legacy_removed(path: &str) -> (r: String)
    ensures
        r@ == "vm ▸ reap ▸ removed the old "@ + path@
            + " — sweeps are recorded in the journal now, with the time they happened"@,
{
    let mut line = "vm ▸ reap ▸ removed the old ".to_owned();
    line.append(path);
    line.append(" — sweeps are recorded in the journal now, with the time they happened");
    line
}

/// A VM that is in use is left alone, and so is one whose console was touched within the
/// window; both are named, the second with the whole minutes since.
pub proof fn a_vm_that_is_used_is_left_alone(
    name: Seq<char>,
    idle_minutes: u64,
    idle: u128,
    input: u128,
    m: nat,
    taken: Sweep,
    end: Sweep,
)
    requires
        follows(name, idle_minutes, Seen::Claimed(false), taken),
        follows(name, idle_minutes, Seen::Input(idle, Ok(input)), end),
        input < idle_minutes * 60 * 1_000_000_000,
        m * 60 * 1_000_000_000 <= input < (m + 1) * 60 * 1_000_000_000,
    ensures
        taken matches Sweep::Leave(Some(Say::Crumb(line))) && line@ == "vm ▸ reap ▸ "@ + name
            + " in use — skipped"@,
        end matches Sweep::Leave(Some(Say::Crumb(line))) && line@ == "vm ▸ reap ▸ "@ + name
            + " console input "@ + text::decimal(m) + "m ago — kept"@,
{
    assert(input / 60_000_000_000 == m);
}

proof fn parts_of_the_job()
    ensures
        "<string>"@.len() == 8,
        "</string>"@.len() == 9,
        plist_head().len() > 8,
        plist_head().skip(plist_head().len() - 8) == "<string>"@,
        plist_arguments().len() > 9,
        plist_arguments().take(9) == "</string>"@,
        plist_error_path().len() > 9,
        plist_error_path().take(9) == "</string>"@,
        plist_tail().len() > 9,
        plist_tail().take(9) == "</string>"@,
        ({
            let key = "<string>--idle-minutes</string>\n        <string>"@;
            let a = plist_arguments();
            a.len() > key.len() && a.skip(a.len() - key.len()) == key
        }),
        ({
            let key = "<key>StandardErrorPath</key><string>"@;
            let p = plist_error_path();
            p.len() > key.len() && p.skip(p.len() - key.len()) == key
        }),
        ({
            let key = "<key>StartInterval</key><integer>300</integer>"@;
            let out = "<key>StandardOutPath</key><string>"@;
            let e = plist_environment();
            &&& e.len() > 27 + key.len()
            &&& e.take(9) == "</string>"@
            &&& e.subrange(27, 27 + key.len() as int) == key
            &&& e.len() > out.len()
            &&& e.skip(e.len() - out.len()) == out
        }),
{
    reveal_strlit("<string>");
    reveal_strlit("</string>");
    reveal_strlit("<string>--idle-minutes</string>\n        <string>");
    reveal_strlit("<key>StandardErrorPath</key><string>");
    reveal_strlit("<key>StartInterval</key><integer>300</integer>");
    reveal_strlit("<key>StandardOutPath</key><string>");
    reveal_strlit("</string>\n        <string>--quiet</string>\n        <string>reap</string>\n        <string>--idle-minutes</string>\n        <string>");
    reveal_strlit("</string>\n    </array>\n    <key>StartInterval</key><integer>300</integer>\n    <key>EnvironmentVariables</key>\n    <dict>\n        <key>PATH</key><string>/usr/local/bin:/usr/bin:/bin</string>\n    </dict>\n    <key>StandardOutPath</key><string>");
    reveal_strlit("</string>\n    <key>StandardErrorPath</key><string>");
    reveal_strlit("</string>\n</dict>\n</plist>\n");
    assert(plist_arguments().take(9) =~= "</string>"@);
    assert(plist_error_path().take(9) =~= "</string>"@);
    assert(plist_tail().take(9) =~= "</string>"@);
    let a = plist_arguments();
    let e = plist_environment();
    let p = plist_error_path();
    let key = "<string>--idle-minutes</string>\n        <string>"@;
    assert(a.skip(a.len() - key.len()) =~= key);
    let err = "<key>StandardErrorPath</key><string>"@;
    assert(p.skip(p.len() - err.len()) =~= err);
    let every = "<key>StartInterval</key><integer>300</integer>"@;
    let out = "<key>StandardOutPath</key><string>"@;
    assert(e.take(9) =~= "</string>"@);
    assert(e.subrange(27, 27 + every.len() as int) =~= every);
    assert(e.skip(e.len() - out.len()) =~= out);
    the_head_opens_a_string();
}

proof fn the_head_opens_a_string()
    ensures
        plist_head().len() > 8,
        plist_head().skip(plist_head().len() - 8) == "<string>"@,
{
    reveal_strlit("<string>");
    reveal_strlit("<?xml version=\"1.0\" encoding=\"UTF-8\"?>\n<!DOCTYPE plist PUBLIC \"-//Apple//DTD PLIST 1.0//EN\" \"http://www.apple.com/DTDs/PropertyList-1.0.dtd\">\n<plist version=\"1.0\">\n<dict>\n    <key>Label</key><string>com.akesson.vm.reap</string>\n    <key>ProgramArguments</key>\n    <array>\n        <string>");
    let h = plist_head();
    assert(h.skip(h.len() - 8) =~= "<string>"@);
}

/// The job that sweeps runs this very program, quietly and with the window that was asked
/// for, every five minutes, and what it prints goes to the gutter.
pub proof fn the_job_sweeps_with_its_window(exe: Seq<char>, idle_minutes: u64, gutter: Seq<char>)
    ensures
        ({
            let job = plist_text(exe, idle_minutes, gutter);
            &&& text::contains(job, "<string>"@ + exe + "</string>"@)
            &&& text::contains(
                job,
                "<string>--idle-minutes</string>\n        <string>"@ + text::decimal(
                    idle_minutes as nat,
                ) + "</string>"@,
            )
            &&& text::contains(job, "<key>StartInterval</key><integer>300</integer>"@)
            &&& text::contains(job, "<key>StandardOutPath</key><string>"@ + gutter + "</string>"@)
            &&& text::contains(job, "<key>StandardErrorPath</key><string>"@ + gutter + "</string>"@)
        }),
{
    let n = text::decimal(idle_minutes as nat);
    let job = plist_text(exe, idle_minutes, gutter);
    let (h, a, e, p, t) = (
        plist_head(),
        plist_arguments(),
        plist_environment(),
        plist_error_path(),
        plist_tail(),
    );
    let open = "<string>"@;
    let close = "</string>"@;
    let minutes_key = "<string>--idle-minutes</string>\n        <string>"@;
    let interval = "<key>StartInterval</key><integer>300</integer>"@;
    let out_key = "<key>StandardOutPath</key><string>"@;
    let err_key = "<key>StandardErrorPath</key><string>"@;
    parts_of_the_job();
    let i = h.len() - open.len();
    assert(job =~= h.take(i) + (open + exe + close) + (a.skip(close.len() as int) + n + e + gutter
        + p + gutter + t));
    text::what_is_contained_is_there(
        h.take(i),
        open + exe + close,
        a.skip(close.len() as int) + n + e + gutter + p + gutter + t,
    );
    let j = a.len() - minutes_key.len();
    let rest = e.skip(close.len() as int) + gutter + p + gutter + t;
    assert(job =~= (h + exe + a.take(j)) + (minutes_key + n + close) + rest);
    text::what_is_contained_is_there(h + exe + a.take(j), minutes_key + n + close, rest);
    let k: int = 27;
    assert(job =~= (h + exe + a + n + e.take(k)) + interval + (e.skip(k + interval.len()) + gutter
        + p + gutter + t));
    text::what_is_contained_is_there(
        h + exe + a + n + e.take(k),
        interval,
        e.skip(k + interval.len()) + gutter + p + gutter + t,
    );
    let l = e.len() - out_key.len();
    let back = p.skip(close.len() as int) + gutter + t;
    assert(job =~= (h + exe + a + n + e.take(l)) + (out_key + gutter + close) + back);
    text::what_is_contained_is_there(
        h + exe + a + n + e.take(l),
        out_key + gutter + close,
        back,
    );
    let m = p.len() - err_key.len();
    let last = t.skip(close.len() as int);
    assert(job =~= (h + exe + a + n + e + gutter + p.take(m)) + (err_key + gutter + close) + last);
    text::what_is_contained_is_there(
        h + exe + a + n + e + gutter + p.take(m),
        err_key + gutter + close,
        last,
    );
}

/// A job that logs where none logs any more is out of date, and so is one that is not told
/// to be quiet.
pub proof fn an_old_job_is_told_by_its_log(a: Seq<char>, b: Seq<char>)
    ensures
        predates_journal(a + "Library/Logs"@ + b),
        !text::contains(a, "<string>--quiet</string>"@) ==> predates_journal(a),
        text::contains(a, "<string>--quiet</string>"@) && !text::contains(a, "Library/Logs"@)
            ==> !predates_journal(a),
{
    text::what_is_contained_is_there(a, "Library/Logs"@, b);
}

} // verus!
