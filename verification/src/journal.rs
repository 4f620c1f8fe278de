//! The journal: every line `vm` prints, kept with the time it printed it.
//!
//! It is a transcript: the line in the file is the line that was seen. A journal
//! that fails must never fail a run, so any error ends it for good.

use crate::calendar;
use crate::config;
use crate::text;
use vstd::prelude::*;

verus! {

/// The journal file.
pub const FILE: &'static str = "vm.log";

/// The one generation of history kept behind it.
pub const ROTATED: &'static str = "vm.log.1";

/// The file that launchd points the reap job's output at.
pub const GUTTER: &'static str = "reap-launchd.log";

/// The size at which the journal is moved aside.
pub const MAX_BYTES: u64 = 8_388_608;

// ── Lines and where they go ──────────────────────────────────────────────────

/// A line that `vm` says.
#[derive(Debug)]
pub enum Say {
    /// Narration: what is being done, and how long it took.
    Crumb(String),
    /// News: something the user has to act on.
    Notice(String),
}

impl Say {
    /// The line itself.
    pub open spec fn line(self) -> Seq<char> {
        match self {
            Say::Crumb(t) => t@,
            Say::Notice(t) => t@,
        }
    }

    /// The line itself.
    pub fn text(&self) -> (r: &str)
        ensures
            r@ == self.line(),
    {
        match self {
            Say::Crumb(t) => t.as_str(),
            Say::Notice(t) => t.as_str(),
        }
    }

    /// Whether the line reaches the terminal. Quiet silences narration, never
    /// news.
    pub fn reaches_stderr(&self, quiet: bool) -> (r: bool)
        ensures
            r == (self is Notice || !quiet),
    {
        match self {
            Say::Crumb(_) => !quiet,
            Say::Notice(_) => true,
        }
    }
}

// ── The state machine ────────────────────────────────────────────────────────

/// Where a journal is in its short life.
#[derive(Debug, Clone, Copy, PartialEq, Eq, Structural)]
pub enum State {
    /// Not enabled. Nothing is ever written.
    Disabled,
    /// Enabled; the file is opened on the first line.
    Armed,
    /// The file is open.
    Open,
    /// Something failed. Nothing is written any more.
    Dead,
}

/// What can happen to a journal.
#[derive(Debug, Clone, Copy, PartialEq, Eq, Structural)]
pub enum Event {
    /// A line was said; whether there is a directory to keep it in.
    Line(bool),
    /// The file was opened, or could not be.
    Opened(bool),
    /// A record was written, or could not be.
    Written(bool),
}

/// What is to be done next.
#[derive(Debug, Clone, Copy, PartialEq, Eq, Structural)]
pub enum Action {
    Nothing,
    /// Open the file, then report how that went.
    OpenFile,
    /// Append the record of the line, then report how that went.
    Append,
}

/// How a journal moves on from an event, and what is to be done.
pub open spec fn step(state: State, event: Event) -> (State, Action) {
    match (state, event) {
        (State::Disabled, _) => (State::Disabled, Action::Nothing),
        (State::Dead, _) => (State::Dead, Action::Nothing),
        (_, Event::Line(false)) => (State::Dead, Action::Nothing),
        (State::Armed, Event::Line(true)) => (State::Armed, Action::OpenFile),
        (State::Armed, Event::Opened(true)) => (State::Open, Action::Append),
        (State::Armed, Event::Opened(false)) => (State::Dead, Action::Nothing),
        (State::Armed, Event::Written(_)) => (State::Armed, Action::Nothing),
        (State::Open, Event::Line(true)) => (State::Open, Action::Append),
        (State::Open, Event::Opened(_)) => (State::Open, Action::Nothing),
        (State::Open, Event::Written(true)) => (State::Open, Action::Nothing),
        (State::Open, Event::Written(false)) => (State::Dead, Action::Nothing),
    }
}

/// Moves the journal on from an event, and says what is to be done. Never fails.
pub fn emit(state: State, event: Event) -> (r: (State, Action))
    ensures
        r == step(state, event),
{
    match state {
        State::Disabled => (State::Disabled, Action::Nothing),
        State::Dead => (State::Dead, Action::Nothing),
        State::Armed => match event {
            Event::Line(true) => (State::Armed, Action::OpenFile),
            Event::Line(false) => (State::Dead, Action::Nothing),
            Event::Opened(true) => (State::Open, Action::Append),
            Event::Opened(false) => (State::Dead, Action::Nothing),
            Event::Written(_) => (State::Armed, Action::Nothing),
        },
        State::Open => match event {
            Event::Line(true) => (State::Open, Action::Append),
            Event::Line(false) => (State::Dead, Action::Nothing),
            Event::Opened(_) => (State::Open, Action::Nothing),
            Event::Written(true) => (State::Open, Action::Nothing),
            Event::Written(false) => (State::Dead, Action::Nothing),
        },
    }
}

/// A journal, and whether narration is kept off the terminal.
#[derive(Debug, Clone, Copy)]
pub struct Journal {
    pub state: State,
    pub quiet: bool,
}

/// The journal of a host verb: armed, unless `VM_JOURNAL` says off in any case.
pub fn init(quiet: bool, vm_journal: Option<&str>) -> (r: Journal)
    ensures
        r.quiet == quiet,
        r.state == (if vm_journal is Some && vm_journal->0@.map_values(
            |c: char| text::ascii_lower(c),
        ) == "off"@.map_values(|c: char| text::ascii_lower(c)) {
            State::Disabled
        } else {
            State::Armed
        }),
{
    let state = match vm_journal {
        Some(v) => if text::same_ignoring_ascii_case(v, "off") {
            State::Disabled
        } else {
            State::Armed
        },
        None => State::Armed,
    };
    Journal { state, quiet }
}

/// Whether narration is kept off the terminal. The journal ignores it.
pub fn quiet(journal: &Journal) -> (r: bool)
    ensures
        r == journal.quiet,
{
    journal.quiet
}

/// Where a journal ends up after a run of events.
pub open spec fn after(state: State, events: Seq<Event>) -> State
    decreases events.len(),
{
    if events.len() == 0 {
        state
    } else {
        step(after(state, events.drop_last()), events.last()).0
    }
}

/// A dead journal stays dead, and a disabled one disabled, whatever happens; and
/// neither ever asks for anything to be opened or written.
pub proof fn dead_and_disabled_are_final(state: State, events: Seq<Event>, event: Event)
    requires
        state == State::Dead || state == State::Disabled,
    ensures
        after(state, events) == state,
        step(after(state, events), event) == (state, Action::Nothing),
    decreases events.len(),
{
    if events.len() > 0 {
        dead_and_disabled_are_final(state, events.drop_last(), events.last());
    }
}

/// Nothing is appended before the file was opened: from an armed journal, an
/// append follows an opening that worked.
pub proof fn appends_only_to_an_open_file(events: Seq<Event>, event: Event)
    ensures
        step(after(State::Armed, events), event).1 == Action::Append ==> event == Event::Opened(
            true,
        ) || events.contains(Event::Opened(true)),
        after(State::Armed, events) == State::Open ==> events.contains(Event::Opened(true)),
    decreases events.len(),
{
    if events.len() > 0 {
        let front = events.drop_last();
        appends_only_to_an_open_file(front, events.last());
        if front.contains(Event::Opened(true)) {
            let i = choose|i: int| 0 <= i < front.len() && front[i] == Event::Opened(true);
            assert(events[i] == Event::Opened(true));
        }
        assert(events[events.len() - 1] == events.last());
    }
}

/// The directory of the journal, beside the configuration file, given the
/// directory that file is in.
pub fn log_dir(config_dir: Option<&str>) -> (r: Option<String>)
    ensures
        match config_dir {
            Some(dir) => r matches Some(p) && p@ == config::path_below(dir@, "log"@),
            None => r is None,
        },
{
    match config_dir {
        Some(dir) => Some(config::below(dir, "log")),
        None => None,
    }
}

/// The path of the journal, whether or not it exists.
pub fn path(config_dir: Option<&str>) -> (r: Option<String>)
    ensures
        match config_dir {
            Some(dir) => r matches Some(p) && p@ == config::path_below(
                config::path_below(dir@, "log"@),
                "vm.log"@,
            ),
            None => r is None,
        },
{
    match log_dir(config_dir) {
        Some(dir) => Some(config::below(dir.as_str(), FILE)),
        None => None,
    }
}

/// The path that launchd points the reap job's output at.
pub fn gutter_path(config_dir: Option<&str>) -> (r: Option<String>)
    ensures
        match config_dir {
            Some(dir) => r matches Some(p) && p@ == config::path_below(
                config::path_below(dir@, "log"@),
                "reap-launchd.log"@,
            ),
            None => r is None,
        },
{
    match log_dir(config_dir) {
        Some(dir) => Some(config::below(dir.as_str(), GUTTER)),
        None => None,
    }
}

/// Whether a journal of this size is moved aside before it is opened. One that
/// cannot be measured is left alone.
pub fn rotate(size: Option<u64>) -> (r: bool)
    ensures
        r == (size is Some && size->0 >= MAX_BYTES),
{
    match size {
        Some(n) => n >= MAX_BYTES,
        None => false,
    }
}

// ── Records ──────────────────────────────────────────────────────────────────

/// `s` without the newlines it ends with.
pub open spec fn without_newlines(s: Seq<char>) -> Seq<char>
    decreases s.len(),
{
    if s.len() > 0 && s.last() == '\n' {
        without_newlines(s.drop_last())
    } else {
        s
    }
}

/// The record of one line.
pub open spec fn record(stamp: Seq<char>, pid: nat, line: Seq<char>) -> Seq<char> {
    stamp + " ["@ + text::decimal(pid) + "] "@ + line + "\n"@
}

/// The records of some lines, one after the other.
pub open spec fn records(stamp: Seq<char>, pid: nat, lines: Seq<Seq<char>>) -> Seq<char>
    decreases lines.len(),
{
    if lines.len() == 0 {
        Seq::empty()
    } else {
        records(stamp, pid, lines.drop_last()) + record(stamp, pid, lines.last())
    }
}

/// One stamped record for each line of `text`. A newline at the end does not
/// make a line.
pub fn render(stamp: &str, pid: u32, text: &str) -> (r: String)
    ensures
        r@ == records(stamp@, pid as nat, text::split(without_newlines(text@), '\n')),
{
    let v: Vec<char> = text::chars_of(text);
    let mut end: usize = v.len();
    assert(v@.take(end as int) =~= v@);
    while end > 0 && v[end - 1] == '\n'
        invariant
            end <= v@.len(),
            without_newlines(v@) == without_newlines(v@.take(end as int)),
        decreases end,
    {
        assert(v@.take(end as int).drop_last() =~= v@.take(end - 1));
        end = end - 1;
    }
    let body = text::slice(&v, 0, end);
    assert(body@ =~= v@.take(end as int));
    let lines: Vec<String> = text::split_on(body.as_str(), '\n');
    let ghost all = text::views(lines@);
    let mut out = String::new();
    let mut i: usize = 0;
    assert(all.take(0) =~= Seq::<Seq<char>>::empty());
    while i < lines.len()
        invariant
            i <= lines@.len(),
            all == text::views(lines@),
            out@ == records(stamp@, pid as nat, all.take(i as int)),
        decreases lines@.len() - i,
    {
        let ghost before = out@;
        assert(all.take(i + 1).drop_last() =~= all.take(i as int));
        assert(all.take(i + 1).last() == lines@[i as int]@);
        out.append(stamp);
        out.append(" [");
        out.append(text::to_decimal(pid as u128).as_str());
        out.append("] ");
        out.append(lines[i].as_str());
        out.append("\n");
        assert(out@ =~= before + record(stamp@, pid as nat, lines@[i as int]@));
        i = i + 1;
    }
    assert(all.take(i as int) =~= all);
    out
}

/// The timestamp of a record: milliseconds since the epoch where the clock is past
/// it, and the seconds east of Greenwich that are in force.
pub fn stamp_now(epoch_millis: Option<i64>, offset_secs: i32) -> (r: String)
    requires
        epoch_millis matches Some(ms) ==> i64::MIN <= ms + offset_secs * 1000 <= i64::MAX,
    ensures
        calendar::shows(
            match epoch_millis {
                Some(ms) => ms as int,
                None => 0,
            },
            offset_secs as int,
            r@,
        ),
{
    match epoch_millis {
        Some(ms) => calendar::rfc3339(ms, offset_secs),
        None => calendar::rfc3339(0, offset_secs),
    }
}

/// The line for a panic.
pub fn panic_line(info: &str) -> (r: String)
    ensures
        r@ == "vm: panic: "@ + info@,
{
    let mut line = "vm: panic: ".to_owned();
    line.append(info);
    line
}

/// What a line of the journal holds, for a line that was said.
pub open spec fn entry(stamp: Seq<char>, pid: nat, line: Seq<char>) -> Seq<char> {
    stamp + " ["@ + text::decimal(pid) + "] "@ + line
}

proof fn records_from_the_front(stamp: Seq<char>, pid: nat, lines: Seq<Seq<char>>)
    requires
        lines.len() > 0,
    ensures
        records(stamp, pid, lines) == record(stamp, pid, lines[0]) + records(
            stamp,
            pid,
            lines.skip(1),
        ),
    decreases lines.len(),
{
    let front = lines.drop_last();
    if lines.len() == 1 {
        assert(front =~= Seq::<Seq<char>>::empty());
        assert(lines.skip(1) =~= Seq::<Seq<char>>::empty());
        assert(records(stamp, pid, front) + record(stamp, pid, lines.last()) =~= record(
            stamp,
            pid,
            lines[0],
        ) + records(stamp, pid, lines.skip(1)));
    } else {
        records_from_the_front(stamp, pid, front);
        assert(front.skip(1) =~= lines.skip(1).drop_last());
        assert(record(stamp, pid, lines[0]) + records(stamp, pid, front.skip(1)) + record(
            stamp,
            pid,
            lines.last(),
        ) =~= record(stamp, pid, lines[0]) + (records(stamp, pid, front.skip(1)) + record(
            stamp,
            pid,
            lines.last(),
        )));
    }
}

/// The journal is read by lines: what is written for some lines splits into one
/// stamped entry for each of them, in their order.
pub proof fn one_entry_for_each_line(stamp: Seq<char>, pid: nat, lines: Seq<Seq<char>>)
    requires
        !stamp.contains('\n'),
        forall|i: int| 0 <= i < lines.len() ==> !(#[trigger] lines[i]).contains('\n'),
    ensures
        text::split(records(stamp, pid, lines), '\n') == lines.map_values(
            |l: Seq<char>| entry(stamp, pid, l),
        ).push(Seq::empty()),
    decreases lines.len(),
{
    let f = |l: Seq<char>| entry(stamp, pid, l);
    if lines.len() == 0 {
        assert(records(stamp, pid, lines) =~= Seq::<char>::empty());
        assert(text::split(records(stamp, pid, lines), '\n') =~= lines.map_values(f).push(
            Seq::empty(),
        ));
    } else {
        let rest = lines.skip(1);
        records_from_the_front(stamp, pid, lines);
        assert forall|i: int| 0 <= i < rest.len() implies !(#[trigger] rest[i]).contains('\n') by {
            assert(rest[i] == lines[i + 1]);
        }
        one_entry_for_each_line(stamp, pid, rest);
        let first = entry(stamp, pid, lines[0]);
        let tail = records(stamp, pid, rest);
        reveal_strlit("\n");
        assert(record(stamp, pid, lines[0]) + tail =~= first + seq!['\n'] + tail);
        assert(!first.contains('\n')) by {
            reveal_strlit(" [");
            reveal_strlit("] ");
            text::decimal_is_digits(pid);
            if first.contains('\n') {
                let i = choose|i: int| 0 <= i < first.len() && first[i] == '\n';
                let a = stamp.len() as int;
                let b = a + 2 + text::decimal(pid).len();
                if i < a {
                    assert(stamp[i] == '\n');
                } else if i < a + 2 {
                    assert(first[i] == " ["@[i - a]);
                } else if i < b {
                    assert(first[i] == text::decimal(pid)[i - a - 2]);
                    assert(text::is_digit(text::decimal(pid)[i - a - 2]));
                } else if i < b + 2 {
                    assert(first[i] == "] "@[i - b]);
                } else {
                    assert(first[i] == lines[0][i - b - 2]);
                    assert(lines[0].contains('\n'));
                }
            }
        }
        text::split_at_first(first, '\n', tail);
        assert(lines.map_values(f).push(Seq::empty()) =~= seq![first] + rest.map_values(f).push(
            Seq::empty(),
        ));
    }
}

/// A journal opens its file at the first line, writes that line once the file is open and
/// every later one at once, and writes nothing more after anything failed.
pub proof fn a_journal_opens_then_appends(state: State, event: Event)
    ensures
        step(State::Armed, Event::Line(true)) == (State::Armed, Action::OpenFile),
        step(State::Armed, Event::Opened(true)) == (State::Open, Action::Append),
        step(State::Open, Event::Line(true)) == (State::Open, Action::Append),
        step(State::Open, Event::Written(true)) == (State::Open, Action::Nothing),
        event == Event::Opened(false) && state == State::Armed ==> step(state, event) == (
            State::Dead,
            Action::Nothing,
        ),
        event == Event::Written(false) && state == State::Open ==> step(state, event) == (
            State::Dead,
            Action::Nothing,
        ),
        event == Event::Line(false) && state != State::Disabled ==> step(state, event) == (
            State::Dead,
            Action::Nothing,
        ),
        state == State::Disabled || state == State::Dead ==> step(state, event) == (
            state,
            Action::Nothing,
        ),
{
}

/// A record begins with its time and names the process that wrote it, and its line stands
/// there whole.
pub proof fn a_record_says_when_and_who(stamp: Seq<char>, pid: nat, line: Seq<char>)
    ensures
        record(stamp, pid, line) == stamp + seq![' ', '['] + text::decimal(pid) + seq![']', ' ']
            + line + seq!['\n'],
        entry(stamp, pid, line).push('\n') == record(stamp, pid, line),
        records(stamp, pid, Seq::empty()).len() == 0,
        records(stamp, pid, seq![line]) == record(stamp, pid, line),
{
    reveal_strlit(" [");
    reveal_strlit("] ");
    reveal_strlit("\n");
    assert(" ["@ =~= seq![' ', '[']);
    assert("] "@ =~= seq![']', ' ']);
    assert("\n"@ =~= seq!['\n']);
    assert(entry(stamp, pid, line).push('\n') =~= record(stamp, pid, line));
    reveal_with_fuel(records, 2);
    assert(seq![line].drop_last() =~= Seq::<Seq<char>>::empty());
    assert(records(stamp, pid, seq![line]) =~= record(stamp, pid, line));
}

/// Only the newlines at the end of a text are left out of the journal.
pub proof fn only_trailing_newlines_are_dropped(s: Seq<char>, newlines: Seq<char>)
    requires
        s.len() > 0 ==> s.last() != '\n',
        forall|i: int| 0 <= i < newlines.len() ==> #[trigger] newlines[i] == '\n',
    ensures
        without_newlines(s + newlines) == s,
    decreases newlines.len(),
{
    if newlines.len() == 0 {
        assert(s + newlines =~= s);
    } else {
        let front = newlines.drop_last();
        assert((s + newlines).last() == newlines[newlines.len() - 1]);
        assert((s + newlines).drop_last() =~= s + front);
        assert forall|i: int| 0 <= i < front.len() implies #[trigger] front[i] == '\n' by {
            assert(front[i] == newlines[i]);
        }
        only_trailing_newlines_are_dropped(s, front);
    }
}

/// A journal is kept below eight mebibytes.
pub proof fn a_journal_is_rotated_at_eight_mebibytes()
    ensures
        MAX_BYTES == 8 * 1024 * 1024,
{
}

} // verus!
