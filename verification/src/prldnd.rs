//! The systemd unit that keeps a Linux guest's shutdown short.
//!
//! Parallels' drag-and-drop agent ignores the signal it is sent at shutdown and
//! holds the session open until systemd loses patience, seconds before Parallels
//! would force the VM off. The unit kills that agent as the shutdown opens.

use crate::config::VmConfig;
use crate::exit::{infra, Failure};
use crate::prl;
use crate::process::{self, Output};
use crate::ssh;
use crate::text;
use vstd::prelude::*;

verus! {

/// The name of the unit.
pub const UNIT_NAME: &'static str = "vm-prldnd-shutdown.service";

/// Where the unit is installed.
pub const UNIT_PATH: &'static str = "/etc/systemd/system/vm-prldnd-shutdown.service";

/// The unit, verbatim. A guest's copy is compared against it.
pub const UNIT: &'static str = "[Unit]\nDescription=vm: kill prldnd at shutdown so gnome-session can exit promptly\nDocumentation=https://github.com/akesson/vm\nDefaultDependencies=no\nConflicts=shutdown.target\nBefore=shutdown.target\n\n[Service]\nType=oneshot\nRemainAfterExit=yes\nExecStart=/bin/true\nExecStop=-/usr/bin/pkill -9 -x prldnd\n\n[Install]\nWantedBy=multi-user.target\n";

// ── Installing it ────────────────────────────────────────────────────────────

/// The script that installs the unit from its stdin and enables it.
pub open spec fn install_script() -> Seq<char> {
    "cat > /etc/systemd/system/vm-prldnd-shutdown.service && chmod 0644 /etc/systemd/system/vm-prldnd-shutdown.service && systemctl daemon-reload && systemctl enable --now vm-prldnd-shutdown.service"@
}

/// The `prlctl` arguments that install the unit as root. Its text goes over
/// stdin: the arguments would pass through a guest shell.
pub fn install(vm: &VmConfig) -> (r: Result<Vec<String>, Failure>)
    ensures
        prl::carries(
            vm.parallels_name@,
            seq!["exec"@, vm.parallels_name@],
            seq![install_script()],
            r,
        ),
{
    let args: [&str; 1] = [
        "cat > /etc/systemd/system/vm-prldnd-shutdown.service && chmod 0644 /etc/systemd/system/vm-prldnd-shutdown.service && systemctl daemon-reload && systemctl enable --now vm-prldnd-shutdown.service",
    ];
    assert(text::str_views(args@) =~= seq![install_script()]);
    prl::exec_elevated(vm.parallels_name.as_str(), &args)
}

/// An exit code as it is reported, where there is one.
pub open spec fn code_text(code: Option<i32>) -> Seq<char> {
    match code {
        Some(c) => "Some("@ + text::signed_decimal(c as int) + ")"@,
        None => "None"@,
    }
}

/// An exit code as it is reported.
pub fn show_code(code: Option<i32>) -> (r: String)
    ensures
        r@ == code_text(code),
{
    match code {
        Some(c) => {
            let mut out = "Some(".to_owned();
            out.append(text::to_signed_decimal(c as i128).as_str());
            out.append(")");
            out
        },
        None => "None".to_owned(),
    }
}

/// What an install that did not work is reported as.
pub open spec fn not_installed(name: Seq<char>, out: Output) -> Seq<char> {
    "could not install vm-prldnd-shutdown.service in '"@ + name + "' (exit "@ + code_text(out.code)
        + "): "@ + text::trim(process::lossy_text(out.stderr@))
        + "\n  Without it the guest takes ~95s to shut down and Parallels force-kills it at 120s."@
}

/// The line for an installed unit, or what went wrong.
pub fn installed(alias: &str, vm: &VmConfig, out: &Output) -> (r: Result<String, Failure>)
    ensures
        match r {
            Ok(line) => out.success && line@ == "vm ▸ "@ + alias@
                + " ▸ vm-prldnd-shutdown.service installed"@,
            Err(e) => !out.success && e is Infra && e.says() == not_installed(
                vm.parallels_name@,
                *out,
            ),
        },
{
    if !out.success {
        let mut msg = "could not install vm-prldnd-shutdown.service in '".to_owned();
        msg.append(vm.parallels_name.as_str());
        msg.append("' (exit ");
        msg.append(show_code(out.code).as_str());
        msg.append("): ");
        msg.append(text::trimmed(process::lossy(&out.stderr).as_str()).as_str());
        msg.append(
            "\n  Without it the guest takes ~95s to shut down and Parallels force-kills it at 120s.",
        );
        return Err(infra(msg));
    }
    let mut line = "vm ▸ ".to_owned();
    line.append(alias);
    line.append(" ▸ vm-prldnd-shutdown.service installed");
    Ok(line)
}

// ── Checking it ──────────────────────────────────────────────────────────────

/// What a guest's copy of the unit is worth at the next shutdown.
#[derive(Debug)]
pub enum State {
    /// Enabled, active, and the text of this version.
    Good,
    /// There is no such unit.
    Missing,
    /// The unit is not pulled in at boot; systemd says this of it.
    NotEnabled(String),
    /// The unit is not active now, so its stop action will not run.
    Inactive(String),
    /// The text is another one.
    Stale,
}

/// What separates the properties from the text of the unit in a probe's output.
pub open spec fn marker() -> Seq<char> {
    "\n---\n"@
}

/// The guest command that answers every question about the unit. It succeeds
/// where the unit is absent too: that is the guest the check is for.
pub fn probe_command() -> (r: String)
    ensures
        r@ == "systemctl show --property=ActiveState --property=UnitFileState vm-prldnd-shutdown.service; echo ---; cat /etc/systemd/system/vm-prldnd-shutdown.service 2>/dev/null || true"@,
{
    "systemctl show --property=ActiveState --property=UnitFileState vm-prldnd-shutdown.service; echo ---; cat /etc/systemd/system/vm-prldnd-shutdown.service 2>/dev/null || true".to_owned()
}

/// Where `needle` first stands in `hay`, or the length of `hay` where it does not.
pub open spec fn first_occurrence(hay: Seq<char>, needle: Seq<char>) -> int
    decreases hay.len(),
{
    if text::occurs_at(hay, needle, 0) || hay.len() == 0 {
        0
    } else {
        1 + first_occurrence(hay.skip(1), needle)
    }
}

/// The two halves of a probe's output: what stands before the first marker and
/// what stands behind it. Without a marker there is no second half.
pub open spec fn halves(out: Seq<char>) -> (Seq<char>, Seq<char>) {
    let i = first_occurrence(out, marker());
    if text::occurs_at(out, marker(), i) {
        (out.take(i), out.skip(i + marker().len()))
    } else {
        (out, Seq::empty())
    }
}

/// The value of the first line that sets a property, empty where none does.
pub open spec fn value_of(lines: Seq<Seq<char>>, key: Seq<char>) -> Seq<char>
    decreases lines.len(),
{
    if lines.len() == 0 {
        Seq::empty()
    } else {
        let i = text::first_index(lines[0], '=');
        if i < lines[0].len() && lines[0].take(i) == key {
            text::trim(lines[0].skip(i + 1))
        } else {
            value_of(lines.skip(1), key)
        }
    }
}

/// What the properties and the text of a unit mean.
pub open spec fn judged(props: Seq<char>, body: Seq<char>, r: State) -> bool {
    let file_state = value_of(text::lines(props), "UnitFileState"@);
    let active = value_of(text::lines(props), "ActiveState"@);
    if file_state.len() == 0 {
        r is Missing
    } else if file_state != "enabled"@ {
        r matches State::NotEnabled(s) && s@ == file_state
    } else if active != "active"@ {
        r matches State::Inactive(s) && s@ == active
    } else if text::trim_end(body) != text::trim_end(UNIT@) {
        r is Stale
    } else {
        r is Good
    }
}

proof fn first_occurrence_skips(hay: Seq<char>, needle: Seq<char>, i: int)
    requires
        0 <= i <= hay.len(),
        forall|j: int| 0 <= j < i ==> !text::occurs_at(hay, needle, j),
    ensures
        first_occurrence(hay, needle) == i + first_occurrence(hay.skip(i), needle),
    decreases i,
{
    if i == 0 {
        assert(hay.skip(0) =~= hay);
    } else {
        assert(!text::occurs_at(hay, needle, 0));
        assert forall|j: int| 0 <= j < i - 1 implies !text::occurs_at(hay.skip(1), needle, j) by {
            assert(!text::occurs_at(hay, needle, j + 1));
            if text::occurs_at(hay.skip(1), needle, j) {
                assert(hay.subrange(j + 1, j + 1 + needle.len()) =~= hay.skip(1).subrange(
                    j,
                    j + needle.len(),
                ));
            }
        }
        first_occurrence_skips(hay.skip(1), needle, i - 1);
        assert(hay.skip(1).skip(i - 1) =~= hay.skip(i));
    }
}

fn stands_at(hay: &[char], needle: &[char], at: usize) -> (r: bool)
    requires
        at <= hay@.len(),
    ensures
        r == text::occurs_at(hay@, needle@, at as int),
{
    if needle.len() > hay.len() - at {
        return false;
    }
    let mut i: usize = 0;
    while i < needle.len()
        invariant
            i <= needle@.len(),
            at + needle@.len() <= hay@.len(),
            hay@.len() <= usize::MAX,
            forall|j: int| 0 <= j < i ==> hay@[at + j] == needle@[j],
        decreases needle@.len() - i,
    {
        if hay[at + i] != needle[i] {
            assert(hay@.subrange(at as int, at + needle@.len())[i as int] != needle@[i as int]);
            return false;
        }
        i = i + 1;
    }
    assert(hay@.subrange(at as int, at + needle@.len()) =~= needle@);
    true
}

fn split_output(out: &str) -> (r: (String, String))
    ensures
        (r.0@, r.1@) == halves(out@),
{
    let v: Vec<char> = text::chars_of(out);
    let m: Vec<char> = text::chars_of("\n---\n");
    proof {
        reveal_strlit("\n---\n");
    }
    let n: usize = v.len();
    let mut i: usize = 0;
    while i < n && !stands_at(&v, &m, i)
        invariant
            i <= n,
            n == v@.len(),
            m@ == marker(),
            forall|j: int| 0 <= j < i ==> !text::occurs_at(v@, marker(), j),
        decreases n - i,
    {
        i = i + 1;
    }
    proof {
        first_occurrence_skips(v@, marker(), i as int);
        if i < n {
            assert(text::occurs_at(v@.skip(i as int), marker(), 0)) by {
                assert(v@.skip(i as int).subrange(0, marker().len() as int) =~= v@.subrange(
                    i as int,
                    i + marker().len(),
                ));
            }
        }
        assert(first_occurrence(v@, marker()) == i);
    }
    if i < n {
        let head = text::slice(&v, 0, i);
        let tail = text::slice(&v, i + m.len(), n);
        assert(head@ =~= v@.take(i as int));
        assert(tail@ =~= v@.skip(i + marker().len()));
        (head, tail)
    } else {
        (out.to_owned(), String::new())
    }
}

/// The value of a property in the output of `systemctl show`, read by its name:
/// the order of the lines is systemd's own.
pub fn property(props: &str, key: &str) -> (r: String)
    ensures
        r@ == value_of(text::lines(props@), key@),
{
    let lines: Vec<String> = text::lines_of(props);
    let ghost all = text::lines(props@);
    let mut n: usize = 0;
    assert(all.skip(0) =~= all);
    while n < lines.len()
        invariant
            n <= lines@.len(),
            all == text::views(lines@),
            all == text::lines(props@),
            value_of(all, key@) == value_of(all.skip(n as int), key@),
        decreases lines@.len() - n,
    {
        let v: Vec<char> = text::chars_of(lines[n].as_str());
        let eq: usize = text::index_from(&v, 0, '=');
        proof {
            assert(v@.skip(0) =~= v@);
            assert(all.skip(n as int)[0] == v@);
        }
        if eq < v.len() {
            let name: String = text::slice(&v, 0, eq);
            assert(name@ =~= v@.take(eq as int));
            if text::same(name.as_str(), key) {
                let value: String = text::slice(&v, eq + 1, v.len());
                assert(value@ =~= v@.skip(eq + 1));
                return text::trimmed(value.as_str());
            }
        }
        assert(all.skip(n as int).skip(1) =~= all.skip(n + 1));
        n = n + 1;
    }
    String::new()
}

/// What the output of a probe says of the unit.
pub fn assess(stdout: &str) -> (r: State)
    ensures
        judged(halves(stdout@).0, halves(stdout@).1, r),
{
    let (props, body): (String, String) = split_output(stdout);
    let file_state: String = property(props.as_str(), "UnitFileState");
    let active: String = property(props.as_str(), "ActiveState");
    if file_state.as_str().is_empty() {
        return State::Missing;
    }
    if !text::same(file_state.as_str(), "enabled") {
        return State::NotEnabled(file_state);
    }
    if !text::same(active.as_str(), "active") {
        return State::Inactive(active);
    }
    let have: String = text::trimmed_end(body.as_str());
    let want: String = text::trimmed_end(UNIT);
    if !text::same(have.as_str(), want.as_str()) {
        return State::Stale;
    }
    State::Good
}

/// White space more or less at the end of a guest's copy is no difference.
pub proof fn trailing_space_is_no_difference(
    props: Seq<char>,
    body: Seq<char>,
    space: Seq<char>,
    r: State,
)
    requires
        forall|i: int| 0 <= i < space.len() ==> text::is_space(#[trigger] space[i]),
    ensures
        judged(props, body + space, r) == judged(props, body, r),
    decreases space.len(),
{
    if space.len() == 0 {
        assert(body + space =~= body);
    } else {
        let front = space.drop_last();
        assert((body + space).drop_last() =~= body + front);
        assert((body + space).last() == space[space.len() - 1]);
        assert(text::trim_end(body + space) == text::trim_end(body + front));
        trailing_space_is_no_difference(props, body, front, r);
    }
}

/// Whether a line sets a property.
pub open spec fn sets(line: Seq<char>, key: Seq<char>) -> bool {
    let i = text::first_index(line, '=');
    i < line.len() && line.take(i) == key
}

/// Properties are read by name: two lines can change places, unless both set the
/// same one.
pub proof fn order_of_properties_does_not_matter(
    a: Seq<char>,
    b: Seq<char>,
    rest: Seq<Seq<char>>,
    key: Seq<char>,
)
    requires
        !(sets(a, key) && sets(b, key)),
    ensures
        value_of(seq![a, b] + rest, key) == value_of(seq![b, a] + rest, key),
{
    reveal_with_fuel(value_of, 3);
    let x = seq![a, b] + rest;
    let y = seq![b, a] + rest;
    assert(x.skip(1) =~= seq![b] + rest);
    assert(y.skip(1) =~= seq![a] + rest);
    assert(x.skip(1).skip(1) =~= rest);
    assert(y.skip(1).skip(1) =~= rest);
    assert(x.skip(1)[0] == b);
    assert(y.skip(1)[0] == a);
}

/// The remote command that probes the unit.
pub fn check_command() -> (r: Vec<String>)
    ensures
        text::views(r@) == seq![
            "sh"@,
            "-c"@,
            ssh::quoted(
                "systemctl show --property=ActiveState --property=UnitFileState vm-prldnd-shutdown.service; echo ---; cat /etc/systemd/system/vm-prldnd-shutdown.service 2>/dev/null || true"@,
            ),
        ],
{
    let mut out: Vec<String> = Vec::new();
    out.push("sh".to_owned());
    out.push("-c".to_owned());
    out.push(ssh::shell_quote(probe_command().as_str()));
    assert(text::views(out@) =~= seq![
        "sh"@,
        "-c"@,
        ssh::quoted(
            "systemctl show --property=ActiveState --property=UnitFileState vm-prldnd-shutdown.service; echo ---; cat /etc/systemd/system/vm-prldnd-shutdown.service 2>/dev/null || true"@,
        ),
    ]);
    out
}

/// What a guest says of its unit, or that it could not be asked.
pub fn check(out: &Output) -> (r: Result<State, Failure>)
    ensures
        match r {
            Ok(state) => {
                let said = process::lossy_text(out.stdout@);
                out.success && judged(halves(said).0, halves(said).1, state)
            },
            Err(e) => !out.success && e is Infra && e.says() == "probe failed: "@ + text::trim(
                process::lossy_text(out.stderr@),
            ),
        },
{
    if !out.success {
        let mut msg = "probe failed: ".to_owned();
        msg.append(text::trimmed(process::lossy(&out.stderr).as_str()).as_str());
        return Err(infra(msg));
    }
    Ok(assess(process::lossy(&out.stdout).as_str()))
}

/// A property is what stands behind its name and the first equals sign of the first line
/// that sets it; a property that no line sets is empty.
pub proof fn a_property_is_set_by_its_line(
    front: Seq<Seq<char>>,
    key: Seq<char>,
    value: Seq<char>,
    rest: Seq<Seq<char>>,
)
    requires
        !key.contains('='),
        forall|i: int| 0 <= i < front.len() ==> !sets(#[trigger] front[i], key),
    ensures
        value_of(front + seq![key + seq!['='] + value] + rest, key) == text::trim(value),
        value_of(front, key).len() == 0,
    decreases front.len(),
{
    let line = key + seq!['='] + value;
    let all = front + seq![line] + rest;
    if front.len() == 0 {
        assert(all[0] == line);
        text::first_index_is_first(line, '=');
        let i = text::first_index(line, '=');
        assert(line[key.len() as int] == '=');
        if i < key.len() {
            assert(key.contains(key[i]));
        }
        assert(line.take(i) =~= key);
        assert(line.skip(i + 1) =~= value);
    } else {
        let tail = front.skip(1);
        assert(all[0] == front[0]);
        assert(all.skip(1) =~= tail + seq![line] + rest);
        assert(!sets(front[0], key));
        assert forall|i: int| 0 <= i < tail.len() implies !sets(#[trigger] tail[i], key) by {
            assert(tail[i] == front[i + 1]);
        }
        a_property_is_set_by_its_line(tail, key, value, rest);
    }
}

/// A unit is good exactly where systemd says that it is enabled and active and its text is
/// the one that is installed, but for white space at its end. A unit without a state is
/// missing, whatever else is said of it, and what is not enabled is never called inactive.
pub proof fn a_unit_is_judged_by_its_state(
    props: Seq<char>,
    body: Seq<char>,
    state: Seq<char>,
    active: Seq<char>,
    r: State,
)
    requires
        text::is_trimmed(state),
        text::is_trimmed(active),
        judged(props, body, r),
        text::lines(props) == seq![
            "ActiveState"@ + seq!['='] + active,
            "UnitFileState"@ + seq!['='] + state,
        ],
    ensures
        r is Missing <==> state.len() == 0,
        r is NotEnabled <==> state.len() > 0 && state != "enabled"@,
        r matches State::NotEnabled(s) ==> s@ == state,
        r is Inactive <==> state == "enabled"@ && active != "active"@,
        r matches State::Inactive(s) ==> s@ == active,
        r is Good <==> state == "enabled"@ && active == "active"@ && text::trim_end(body)
            == text::trim_end(UNIT@),
        r is Stale <==> state == "enabled"@ && active == "active"@ && text::trim_end(body)
            != text::trim_end(UNIT@),
{
    reveal_strlit("ActiveState");
    reveal_strlit("UnitFileState");
    reveal_strlit("enabled");
    let none = Seq::<Seq<char>>::empty();
    let (k, m) = ("ActiveState"@, "UnitFileState"@);
    let a = k + seq!['='] + active;
    let b = m + seq!['='] + state;
    text::first_index_is_first(a, '=');
    assert(a[k.len() as int] == '=');
    let i = text::first_index(a, '=');
    assert(a.take(i)[0] == 'A' || i == 0);
    assert(m[0] == 'U');
    assert(!sets(a, m)) by {
        if sets(a, m) {
            assert(a.take(i)[0] == 'U');
        }
    }
    a_property_is_set_by_its_line(seq![a], m, state, none);
    a_property_is_set_by_its_line(none, k, active, seq![b]);
    assert(seq![a] + seq![b] + none =~= seq![a, b]);
    assert(none + seq![a] + seq![b] =~= seq![a, b]);
    let empty = Seq::<char>::empty();
    text::trimming_takes_only_space(empty, state, empty);
    text::trimming_takes_only_space(empty, active, empty);
    assert(empty + state + empty =~= state);
    assert(empty + active + empty =~= active);
}

/// The two halves of the output are parted at the first line of three dashes, and without
/// such a line it is all properties.
pub proof fn dashes_part_the_output(props: Seq<char>, body: Seq<char>)
    ensures
        (forall|j: int|
            0 <= j < props.len() ==> !text::occurs_at(
                props + "\n---\n"@ + body,
                "\n---\n"@,
                j,
            )) ==> halves(props + "\n---\n"@ + body) == (props, body),
        !text::contains(props, "\n---\n"@) ==> halves(props) == (props, Seq::<char>::empty()),
{
    let mark = "\n---\n"@;
    let all = props + mark + body;
    let n = props.len() as int;
    if forall|j: int| 0 <= j < n ==> !text::occurs_at(all, mark, j) {
        first_occurrence_skips(all, mark, n);
        assert(all.skip(n) =~= mark + body);
        assert((mark + body).subrange(0, mark.len() as int) =~= mark);
        assert(text::occurs_at(mark + body, mark, 0));
        assert(all.subrange(n, n + mark.len()) =~= mark);
        assert(text::occurs_at(all, mark, n));
        assert(all.take(n) =~= props);
        assert(all.skip(n + mark.len()) =~= body);
    }
    if !text::contains(props, mark) {
        assert(!text::occurs_at(props, mark, first_occurrence(props, mark)));
    }
}

/// A code is shown as Rust shows it.
pub proof fn a_code_is_shown_as_an_option(code: i32)
    ensures
        code_text(Some(code)) == "Some("@ + text::signed_decimal(code as int) + seq![')'],
        code_text(None) == "None"@,
{
    reveal_strlit(")");
    assert(")"@ =~= seq![')']);
}

/// What could not be installed is told with the VM, the code and what the guest complained
/// of; the installation writes the unit, has systemd read it, and enables and starts it.
pub proof fn an_installation_that_failed_says_so(name: Seq<char>, out: Output)
    ensures
        text::contains(not_installed(name, out), name),
        text::contains(not_installed(name, out), code_text(out.code)),
        text::contains(not_installed(name, out), text::trim(process::lossy_text(out.stderr@))),
        install_script()
            == "cat > /etc/systemd/system/vm-prldnd-shutdown.service && chmod 0644 /etc/systemd/system/vm-prldnd-shutdown.service && systemctl daemon-reload && systemctl enable --now vm-prldnd-shutdown.service"@,
{
    let why = text::trim(process::lossy_text(out.stderr@));
    let code = code_text(out.code);
    let head = "could not install vm-prldnd-shutdown.service in '"@;
    let end = "\n  Without it the guest takes ~95s to shut down and Parallels force-kills it at 120s."@;
    let said = not_installed(name, out);
    assert(said =~= head + name + ("' (exit "@ + code + "): "@ + why + end));
    text::what_is_contained_is_there(head, name, "' (exit "@ + code + "): "@ + why + end);
    assert(said =~= (head + name + "' (exit "@) + code + ("): "@ + why + end));
    text::what_is_contained_is_there(head + name + "' (exit "@, code, "): "@ + why + end);
    text::what_is_contained_is_there(head + name + "' (exit "@ + code + "): "@, why, end);
}

} // verus!
