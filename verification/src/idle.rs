//! How long ago the keyboard or mouse of a guest's console was last touched.
//!
//! A sweep asks before it shuts a VM down, so that one being used by hand is
//! left alone.

use crate::commands;
use crate::config::{GuestOs, VmConfig};
use crate::exit::{infra, Failure};
use crate::prl;
use crate::process::{self, Output};
use crate::sync::git::owned;
use crate::text;
use vstd::prelude::*;

verus! {

// ── On the host ──────────────────────────────────────────────────────────────

/// The ways to ask a guest.
#[derive(Debug, Clone, Copy, PartialEq, Eq, Structural)]
pub enum Way {
    /// Through Parallels, in the console session.
    Console,
    /// Over ssh, as any verb of the agent.
    Agent,
}

/// How a guest is asked. An ssh session of Windows has no input of its own.
pub fn idle_transport(os: GuestOs) -> (r: Way)
    ensures
        r == (if os == GuestOs::Windows {
            Way::Console
        } else {
            Way::Agent
        }),
{
    match os {
        GuestOs::Windows => Way::Console,
        _ => Way::Agent,
    }
}

/// The `prlctl` arguments that ask a Windows guest: input is per session there,
/// so the question goes to the console session.
pub fn console_command(vm: &VmConfig) -> (r: Result<Vec<String>, Failure>)
    ensures
        prl::carries(
            vm.parallels_name@,
            seq!["exec"@, vm.parallels_name@, "--current-user"@],
            seq!["cmd"@, "/c"@, commands::agent_on_console(*vm) + " _idle"@],
            r,
        ),
{
    let mut line = commands::agent_console_path(vm);
    line.append(" _idle");
    let args: [&str; 3] = ["cmd", "/c", line.as_str()];
    assert(text::str_views(args@) =~= seq!["cmd"@, "/c"@, line@]);
    prl::exec_console(vm.parallels_name.as_str(), &args)
}

/// What a Windows guest replied, or why it did not.
pub fn console_reply(out: &Output) -> (r: Result<String, Failure>)
    ensures
        match r {
            Ok(reply) => out.success && reply@ == process::lossy_text(out.stdout@),
            Err(e) => !out.success && e is Infra && e.says()
                == "agent _idle failed via prlctl exec: "@ + text::trim(
                process::lossy_text(out.stderr@),
            ),
        },
{
    if !out.success {
        let mut msg = "agent _idle failed via prlctl exec: ".to_owned();
        msg.append(text::trimmed(process::lossy(&out.stderr).as_str()).as_str());
        return Err(infra(msg));
    }
    Ok(process::lossy(&out.stdout))
}

/// The milliseconds since the last input that a reply of the agent gives.
pub fn input_idle(reply: &str) -> (r: Result<u64, Failure>)
    ensures
        match r {
            Ok(ms) => text::parsed(text::trim(reply@), 0x1_0000_0000_0000_0000) == Some(ms as nat),
            Err(e) => {
                let said = text::trim(reply@);
                &&& text::parsed(said, 0x1_0000_0000_0000_0000) is None
                &&& e is Infra
                &&& e.says() == "agent _idle replied '"@ + said + "': "@ + text::number_complaint(
                    said,
                )
            },
        },
{
    let said: String = text::trimmed(reply);
    match text::number(said.as_str()) {
        Ok(ms) => Ok(ms),
        Err(why) => {
            let mut msg = "agent _idle replied '".to_owned();
            msg.append(said.as_str());
            msg.append("': ");
            msg.append(why.as_str());
            Err(infra(msg))
        },
    }
}

// ── In the guest ─────────────────────────────────────────────────────────────

/// The milliseconds between two readings of a tick counter that starts over after
/// its largest value.
pub fn ticks_between(now: u32, last: u32) -> (r: u64)
    ensures
        r == (now - last) % 0x1_0000_0000,
{
    if now >= last {
        (now - last) as u64
    } else {
        now as u64 + 0x1_0000_0000u64 - last as u64
    }
}

/// A counter that started over in between still gives the time that passed.
pub proof fn rollover_does_not_matter(last: u32, passed: u32)
    ensures
        ({
            let now = (last + passed) % 0x1_0000_0000;
            (now - last) % 0x1_0000_0000 == passed
        }),
{
}

/// The address of a user's session bus, which a session without a login lacks.
pub fn bus_address(uid: u32) -> (r: String)
    ensures
        r@ == "unix:path=/run/user/"@ + text::decimal(uid as nat) + "/bus"@,
{
    let mut out = "unix:path=/run/user/".to_owned();
    out.append(text::to_decimal(uid as u128).as_str());
    out.append("/bus");
    out
}

/// The `dbus-send` arguments that ask the compositor.
pub fn bus_query() -> (r: Vec<String>)
    ensures
        text::views(r@) == seq!["--print-reply"@, "--dest=org.gnome.Mutter.IdleMonitor"@, "/org/gnome/Mutter/IdleMonitor/Core"@, "org.gnome.Mutter.IdleMonitor.GetIdletime"@],
{
    let args = owned(&["--print-reply", "--dest=org.gnome.Mutter.IdleMonitor", "/org/gnome/Mutter/IdleMonitor/Core", "org.gnome.Mutter.IdleMonitor.GetIdletime"]);
    assert(text::views(args@) =~= seq!["--print-reply"@, "--dest=org.gnome.Mutter.IdleMonitor"@, "/org/gnome/Mutter/IdleMonitor/Core"@, "org.gnome.Mutter.IdleMonitor.GetIdletime"@]);
    args
}

/// The `ioreg` arguments that ask the HID system.
pub fn hid_query() -> (r: Vec<String>)
    ensures
        text::views(r@) == seq!["-c"@, "IOHIDSystem"@],
{
    let args = owned(&["-c", "IOHIDSystem"]);
    assert(text::views(args@) =~= seq!["-c"@, "IOHIDSystem"@]);
    args
}

/// What a tool that reports idle time printed, or why it did not.
pub fn tool_reply(tool: &str, out: &Output) -> (r: Result<String, Failure>)
    ensures
        match r {
            Ok(reply) => out.success && reply@ == process::lossy_text(out.stdout@),
            Err(e) => !out.success && e is Infra && e.says() == tool@ + " failed: "@ + text::trim(
                process::lossy_text(out.stderr@),
            ),
        },
{
    if !out.success {
        let mut msg = tool.to_owned();
        msg.append(" failed: ");
        msg.append(text::trimmed(process::lossy(&out.stderr).as_str()).as_str());
        return Err(infra(msg));
    }
    Ok(process::lossy(&out.stdout))
}

/// The word after the first `uint64` in a list of words.
pub open spec fn after_uint64(words: Seq<Seq<char>>) -> Option<Seq<char>>
    decreases words.len(),
{
    if words.len() == 0 {
        None
    } else if words[0] == "uint64"@ {
        if words.len() > 1 {
            Some(words[1])
        } else {
            None
        }
    } else {
        after_uint64(words.skip(1))
    }
}

/// The number that a bus reply gives: the word after the first `uint64`.
pub open spec fn bus_idletime(reply: Seq<char>) -> Option<nat> {
    match after_uint64(text::words(reply)) {
        Some(word) => text::parsed(word, 0x1_0000_0000_0000_0000),
        None => None,
    }
}

/// The milliseconds that a bus reply gives.
pub fn parse_dbus_idletime(reply: &str) -> (r: Result<u64, Failure>)
    ensures
        match r {
            Ok(ms) => bus_idletime(reply@) == Some(ms as nat),
            Err(e) => bus_idletime(reply@) is None && e is Infra && e.says()
                == "no 'uint64 <ms>' in dbus reply: "@ + text::trim(reply@),
        },
{
    let words: Vec<String> = text::words_of(reply);
    let ghost all = text::words(reply@);
    let mut found: Option<u64> = None;
    let mut i: usize = 0;
    assert(all.skip(0) =~= all);
    while i < words.len() && !text::same(words[i].as_str(), "uint64")
        invariant
            i <= words@.len(),
            all == text::views(words@),
            after_uint64(all) == after_uint64(all.skip(i as int)),
        decreases words@.len() - i,
    {
        assert(all.skip(i as int)[0] == words@[i as int]@);
        assert(all.skip(i as int).skip(1) =~= all.skip(i + 1));
        i = i + 1;
    }
    if i < words.len() {
        assert(all.skip(i as int)[0] == words@[i as int]@);
        if i + 1 < words.len() {
            assert(all.skip(i as int)[1] == words@[i + 1]@);
            found = text::parse_u64(words[i + 1].as_str());
        }
    }
    match found {
        Some(ms) => Ok(ms),
        None => {
            let mut msg = "no 'uint64 <ms>' in dbus reply: ".to_owned();
            msg.append(text::trimmed(reply).as_str());
            Err(infra(msg))
        },
    }
}

/// The first line that holds a text.
pub open spec fn first_with(lines: Seq<Seq<char>>, needle: Seq<char>) -> Option<Seq<char>>
    decreases lines.len(),
{
    if lines.len() == 0 {
        None
    } else if text::contains(lines[0], needle) {
        Some(lines[0])
    } else {
        first_with(lines.skip(1), needle)
    }
}

/// The nanoseconds that a registry listing gives: what follows the last equals
/// sign of the first line about the idle time.
pub open spec fn hid_nanos(listing: Seq<char>) -> Option<nat> {
    match first_with(text::lines(listing), "\"HIDIdleTime\""@) {
        Some(line) => text::parsed(
            text::trim(text::split(line, '=').last()),
            0x1_0000_0000_0000_0000,
        ),
        None => None,
    }
}

/// The milliseconds that a registry listing gives.
pub fn parse_hid_idle_ms(ioreg: &str) -> (r: Result<u64, Failure>)
    ensures
        match r {
            Ok(ms) => hid_nanos(ioreg@) matches Some(ns) && ms == ns / 1_000_000,
            Err(e) => hid_nanos(ioreg@) is None && e is Infra && e.says()
                == "no HIDIdleTime in ioreg output"@,
        },
{
    let lines: Vec<String> = text::lines_of(ioreg);
    let ghost all = text::lines(ioreg@);
    let mut found: Option<u64> = None;
    let mut i: usize = 0;
    assert(all.skip(0) =~= all);
    while i < lines.len() && !text::has(lines[i].as_str(), "\"HIDIdleTime\"")
        invariant
            i <= lines@.len(),
            all == text::views(lines@),
            first_with(all, "\"HIDIdleTime\""@) == first_with(
                all.skip(i as int),
                "\"HIDIdleTime\""@,
            ),
        decreases lines@.len() - i,
    {
        assert(all.skip(i as int)[0] == lines@[i as int]@);
        assert(all.skip(i as int).skip(1) =~= all.skip(i + 1));
        i = i + 1;
    }
    if i < lines.len() {
        assert(all.skip(i as int)[0] == lines@[i as int]@);
        let parts: Vec<String> = text::split_on(lines[i].as_str(), '=');
        let ghost pieces = text::split(lines@[i as int]@, '=');
        assert(pieces.len() == parts@.len());
        assert(pieces.len() > 0);
        assert(pieces.last() == parts@[parts@.len() - 1]@);
        found = text::parse_u64(text::trimmed(parts[parts.len() - 1].as_str()).as_str());
    }
    match found {
        Some(ns) => Ok(ns / 1_000_000),
        None => Err(infra("no HIDIdleTime in ioreg output".to_owned())),
    }
}

proof fn found_behind_uint64(front: Seq<Seq<char>>, word: Seq<char>, rest: Seq<Seq<char>>)
    requires
        forall|i: int| 0 <= i < front.len() ==> #[trigger] front[i] != "uint64"@,
    ensures
        after_uint64(front + seq!["uint64"@, word] + rest) == Some(word),
        after_uint64(front) is None,
        after_uint64(front + seq!["uint64"@]) is None,
    decreases front.len(),
{
    let all = front + seq!["uint64"@, word] + rest;
    let short = front + seq!["uint64"@];
    if front.len() == 0 {
        assert(all[0] == "uint64"@);
        assert(all[1] == word);
        assert(short[0] == "uint64"@);
    } else {
        let tail = front.skip(1);
        assert(all[0] == front[0]);
        assert(short[0] == front[0]);
        assert(all.skip(1) =~= tail + seq!["uint64"@, word] + rest);
        assert(short.skip(1) =~= tail + seq!["uint64"@]);
        assert forall|i: int| 0 <= i < tail.len() implies #[trigger] tail[i] != "uint64"@ by {
            assert(tail[i] == front[i + 1]);
        }
        found_behind_uint64(tail, word, rest);
    }
}

proof fn digits_are_a_word(n: nat)
    ensures
        text::is_word(text::decimal(n)),
        !text::decimal(n).contains('='),
        !text::decimal(n).contains('\n'),
{
    text::decimal_is_digits(n);
    let s = text::decimal(n);
    assert forall|i: int| 0 <= i < s.len() implies !text::is_space(#[trigger] s[i]) && s[i] != '='
        && s[i] != '\n' by {
        text::blanks_and_line_ends_are_space(s[i]);
    }
}

/// The time that the bus reports is the number behind the first `uint64` of its reply,
/// wherever in the reply that stands.
pub proof fn the_bus_reports_its_number(
    front: Seq<Seq<char>>,
    ms: nat,
    rest: Seq<Seq<char>>,
)
    requires
        forall|i: int|
            0 <= i < front.len() ==> text::is_word(#[trigger] front[i]) && front[i] != "uint64"@,
        forall|i: int| 0 <= i < rest.len() ==> text::is_word(#[trigger] rest[i]),
        ms <= 0xffff_ffff_ffff_ffff,
    ensures
        bus_idletime(
            text::joined(front + seq!["uint64"@, text::decimal(ms)] + rest, seq![' ']),
        ) == Some(ms),
        bus_idletime(text::joined(front, seq![' '])) is None,
{
    reveal_strlit("uint64");
    digits_are_a_word(ms);
    let word = text::decimal(ms);
    let all = front + seq!["uint64"@, word] + rest;
    assert(text::is_word("uint64"@)) by {
        assert forall|i: int| 0 <= i < "uint64"@.len() implies !text::is_space(
            #[trigger] "uint64"@[i],
        ) by {
            text::blanks_and_line_ends_are_space("uint64"@[i]);
        }
    }
    assert forall|i: int| 0 <= i < all.len() implies text::is_word(#[trigger] all[i]) by {
        if i < front.len() {
            assert(all[i] == front[i]);
        } else if i >= front.len() + 2 {
            assert(all[i] == rest[i - front.len() - 2]);
        }
    }
    text::words_are_found_again(all);
    text::words_are_found_again(front);
    found_behind_uint64(front, word, rest);
    text::a_number_reads_back(ms, 0x1_0000_0000_0000_0000);
}

proof fn the_first_line_with_it(
    front: Seq<Seq<char>>,
    line: Seq<char>,
    rest: Seq<Seq<char>>,
    needle: Seq<char>,
)
    requires
        forall|i: int| 0 <= i < front.len() ==> !text::contains(#[trigger] front[i], needle),
        text::contains(line, needle),
    ensures
        first_with(front + seq![line] + rest, needle) == Some(line),
    decreases front.len(),
{
    let all = front + seq![line] + rest;
    if front.len() == 0 {
        assert(all[0] == line);
    } else {
        let tail = front.skip(1);
        assert(all[0] == front[0]);
        assert(all.skip(1) =~= tail + seq![line] + rest);
        assert forall|i: int| 0 <= i < tail.len() implies !text::contains(
            #[trigger] tail[i],
            needle,
        ) by {
            assert(tail[i] == front[i + 1]);
        }
        the_first_line_with_it(tail, line, rest, needle);
    }
}

/// The nanoseconds of a listing are the number at the end of the first line that names
/// them, and there are none where no line does.
pub proof fn a_listing_tells_its_nanoseconds(
    listing: Seq<char>,
    front: Seq<Seq<char>>,
    before: Seq<char>,
    ns: nat,
    rest: Seq<Seq<char>>,
)
    requires
        forall|i: int|
            0 <= i < front.len() ==> !text::contains(#[trigger] front[i], "\"HIDIdleTime\""@),
        ns <= 0xffff_ffff_ffff_ffff,
    ensures
        text::lines(listing) == front + seq![
            before + "\"HIDIdleTime\""@ + seq![' ', '=', ' '] + text::decimal(ns),
        ] + rest ==> hid_nanos(listing) == Some(ns),
        text::lines(listing) == front ==> hid_nanos(listing) is None,
{
    let needle = "\"HIDIdleTime\""@;
    let digits = text::decimal(ns);
    let line = before + needle + seq![' ', '=', ' '] + digits;
    assert(line =~= before + needle + (seq![' ', '=', ' '] + digits));
    text::what_is_contained_is_there(before, needle, seq![' ', '=', ' '] + digits);
    the_first_line_with_it(front, line, rest, needle);
    digits_are_a_word(ns);
    let tail = seq![' '] + digits;
    assert(!tail.contains('=')) by {
        if tail.contains('=') {
            let j = choose|j: int| 0 <= j < tail.len() && tail[j] == '=';
            assert(digits[j - 1] == '=');
        }
    }
    assert(line =~= (before + needle + seq![' ']) + seq!['='] + tail);
    text::split_parts(before + needle + seq![' '], '=', tail);
    text::split_of_one_piece(tail, '=');
    assert(text::split(line, '=').last() == tail);
    text::blanks_and_line_ends_are_space(' ');
    text::trimming_takes_only_space(seq![' '], digits, Seq::empty());
    assert(seq![' '] + digits + Seq::<char>::empty() =~= tail);
    text::a_number_reads_back(ns, 0x1_0000_0000_0000_0000);
    no_line_with_it(front, needle);
}

proof fn no_line_with_it(lines: Seq<Seq<char>>, needle: Seq<char>)
    requires
        forall|i: int| 0 <= i < lines.len() ==> !text::contains(#[trigger] lines[i], needle),
    ensures
        first_with(lines, needle) is None,
    decreases lines.len(),
{
    if lines.len() > 0 {
        let tail = lines.skip(1);
        assert forall|i: int| 0 <= i < tail.len() implies !text::contains(
            #[trigger] tail[i],
            needle,
        ) by {
            assert(tail[i] == lines[i + 1]);
        }
        assert(!text::contains(lines[0], needle));
        no_line_with_it(tail, needle);
    }
}

} // verus!
