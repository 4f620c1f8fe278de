//! What `vm` makes of what Parallels reports: which address a guest can be
//! reached on, whether a VM is on its way up, and what a `prlctl` command line
//! may carry.

use crate::clock;
use crate::exit::{infra, Failure};
use crate::json;
use crate::process::{self, Output};
use crate::text;
use vstd::prelude::*;

verus! {

/// One VM as `prlctl list` reports it.
#[derive(Debug)]
pub struct PrlVm {
    pub uuid: String,
    pub status: String,
    /// `-` while the VM has no address.
    pub ip_configured: String,
    pub name: String,
}

// ── Addresses ────────────────────────────────────────────────────────────────

/// One of the four numbers of a dotted IPv4 address: one to three digits
/// without a leading zero, 255 at most.
pub open spec fn is_octet(s: Seq<char>) -> bool {
    &&& text::all_digits(s)
    &&& s.len() <= 3
    &&& s.len() == 1 || s[0] != '0'
    &&& text::digits_value(s) <= 255
}

/// A dotted IPv4 address.
pub open spec fn is_ipv4(s: Seq<char>) -> bool {
    let p = text::split(s, '.');
    p.len() == 4 && is_octet(p[0]) && is_octet(p[1]) && is_octet(p[2]) && is_octet(p[3])
}

/// The number at `i` of a dotted IPv4 address.
pub open spec fn octet(s: Seq<char>, i: int) -> nat {
    text::digits_value(text::split(s, '.')[i])
}

/// Whether an address that a guest reports is one it can be reached on: an IPv4
/// address that is not link-local, not loopback and not unspecified. A booting
/// guest passes through addresses of every other kind on its way to this one.
pub open spec fn is_usable(s: Seq<char>) -> bool {
    &&& is_ipv4(s)
    &&& !(octet(s, 0) == 169 && octet(s, 1) == 254)
    &&& octet(s, 0) != 127
    &&& !(octet(s, 0) == 0 && octet(s, 1) == 0 && octet(s, 2) == 0 && octet(s, 3) == 0)
}

fn parse_octet(s: &str) -> (r: Option<u64>)
    ensures
        r is Some == is_octet(s@),
        r matches Some(n) ==> n == text::digits_value(s@),
{
    let v: Vec<char> = text::chars_of(s);
    if v.len() == 0 || v.len() > 3 || (v.len() > 1 && v[0] == '0') {
        return None;
    }
    if v[0] == '+' {
        assert(!text::is_digit(s@[0]));
        return None;
    }
    assert(text::without_plus(s@) == s@);
    match text::parse_u64(s) {
        Some(n) => if n <= 255 {
            Some(n)
        } else {
            None
        },
        None => None,
    }
}

fn usable(addr: &str) -> (r: bool)
    ensures
        r == is_usable(addr@),
{
    let p: Vec<String> = text::split_on(addr, '.');
    assert(text::views(p@).len() == p@.len());
    if p.len() != 4 {
        return false;
    }
    assert(forall|i: int| 0 <= i < 4 ==> text::split(addr@, '.')[i] == (#[trigger] p@[i])@);
    let a = parse_octet(p[0].as_str());
    let b = parse_octet(p[1].as_str());
    let c = parse_octet(p[2].as_str());
    let d = parse_octet(p[3].as_str());
    match (a, b, c, d) {
        (Some(a), Some(b), Some(c), Some(d)) => {
            !(a == 169 && b == 254) && a != 127 && !(a == 0 && b == 0 && c == 0 && d == 0)
        },
        _ => false,
    }
}

/// The first of `words` that a guest can be reached on.
pub open spec fn first_usable(words: Seq<Seq<char>>) -> Option<Seq<char>>
    decreases words.len(),
{
    if words.len() == 0 {
        None
    } else if is_usable(words[0]) {
        Some(words[0])
    } else {
        first_usable(words.skip(1))
    }
}

/// The address to use out of an `ip_configured` field, if it carries one yet.
pub open spec fn address_in(field: Seq<char>) -> Option<Seq<char>> {
    first_usable(text::words(field))
}

/// The address to use out of an `ip_configured` field, if it carries one yet.
pub fn ipv4(field: &str) -> (r: Option<String>)
    ensures
        match r {
            Some(ip) => address_in(field@) == Some(ip@),
            None => address_in(field@) is None,
        },
{
    let words: Vec<String> = text::words_of(field);
    let ghost all = text::views(words@);
    let mut i: usize = 0;
    assert(all.skip(0) =~= all);
    while i < words.len()
        invariant
            i <= words@.len(),
            all == text::views(words@),
            all == text::words(field@),
            first_usable(all) == first_usable(all.skip(i as int)),
        decreases words@.len() - i,
    {
        assert(all.skip(i as int)[0] == words@[i as int]@);
        if usable(words[i].as_str()) {
            return Some(words[i].as_str().to_owned());
        }
        assert(all.skip(i as int).skip(1) =~= all.skip(i + 1));
        i = i + 1;
    }
    None
}

/// The addresses that a guest reports and cannot be reached on, in order.
pub open spec fn stopgaps(words: Seq<Seq<char>>) -> Seq<Seq<char>> {
    words.filter(|w: Seq<char>| w != "-"@ && !is_usable(w))
}

/// The addresses in an `ip_configured` field that a guest cannot be reached on:
/// the stopgaps of a boot. None for a guest without any address.
pub fn unusable_addrs(field: &str) -> (r: Vec<String>)
    ensures
        text::views(r@) == stopgaps(text::words(field@)),
{
    let words: Vec<String> = text::words_of(field);
    let ghost all = text::views(words@);
    let ghost keep = |w: Seq<char>| w != "-"@ && !is_usable(w);
    let mut out: Vec<String> = Vec::new();
    let mut i: usize = 0;
    proof {
        reveal(Seq::filter);
        assert(all.take(0) =~= Seq::<Seq<char>>::empty());
        assert(text::views(out@) =~= all.take(0).filter(keep));
    }
    while i < words.len()
        invariant
            i <= words@.len(),
            all == text::views(words@),
            keep == (|w: Seq<char>| w != "-"@ && !is_usable(w)),
            text::views(out@) == all.take(i as int).filter(keep),
        decreases words@.len() - i,
    {
        let ghost before = out@;
        let w: &str = words[i].as_str();
        proof {
            reveal(Seq::filter);
            assert(all.take(i + 1).drop_last() =~= all.take(i as int));
            assert(all.take(i + 1).last() == w@);
        }
        if !text::same(w, "-") && !usable(w) {
            out.push(w.to_owned());
            assert(text::views(out@) =~= text::views(before).push(w@));
        }
        i = i + 1;
    }
    assert(all.take(i as int) =~= all);
    out
}

impl PrlVm {
    /// The address the guest can be reached on, once it has one.
    pub fn ip(&self) -> (r: Option<String>)
        ensures
            match r {
                Some(ip) => address_in(self.ip_configured@) == Some(ip@),
                None => address_in(self.ip_configured@) is None,
            },
    {
        ipv4(self.ip_configured.as_str())
    }
}

/// Four numbers in decimal, with a dot between each two of them.
pub open spec fn dotted(a: nat, b: nat, c: nat, d: nat) -> Seq<char> {
    text::decimal(a) + seq!['.'] + (text::decimal(b) + seq!['.'] + (text::decimal(c) + seq!['.']
        + text::decimal(d)))
}

proof fn a_number_holds_no_dot(n: nat)
    ensures
        !text::decimal(n).contains('.'),
        !text::decimal(n).contains(' '),
        text::is_word(text::decimal(n)),
{
    text::decimal_is_digits(n);
    let s = text::decimal(n);
    assert forall|i: int| 0 <= i < s.len() implies #[trigger] s[i] != '.' && s[i] != ' '
        && !text::is_space(s[i]) by {
        assert(text::is_digit(s[i]));
    }
}

proof fn numbers_between_dots(a: nat, b: nat, c: nat, d: nat)
    ensures
        text::split(dotted(a, b, c, d), '.') == seq![
            text::decimal(a),
            text::decimal(b),
            text::decimal(c),
            text::decimal(d),
        ],
        text::is_word(dotted(a, b, c, d)),
{
    let (w, x, y, z) = (text::decimal(a), text::decimal(b), text::decimal(c), text::decimal(d));
    a_number_holds_no_dot(a);
    a_number_holds_no_dot(b);
    a_number_holds_no_dot(c);
    a_number_holds_no_dot(d);
    text::split_of_one_piece(z, '.');
    text::split_at_first(y, '.', z);
    text::split_at_first(x, '.', y + seq!['.'] + z);
    text::split_at_first(w, '.', x + seq!['.'] + (y + seq!['.'] + z));
    assert(seq![w] + (seq![x] + (seq![y] + seq![z])) =~= seq![w, x, y, z]);
    let s = dotted(a, b, c, d);
    assert forall|i: int| 0 <= i < s.len() implies !text::is_space(#[trigger] s[i]) by {
        let (n, m, k) = (w.len() as int, x.len() as int, y.len() as int);
        if i < n {
            assert(s[i] == w[i]);
        } else if n < i < n + 1 + m {
            assert(s[i] == x[i - n - 1]);
        } else if n + 1 + m < i < n + 2 + m + k {
            assert(s[i] == y[i - n - m - 2]);
        } else if i > n + 2 + m + k {
            assert(s[i] == z[i - n - m - k - 3]);
        } else {
            assert(s[i] == '.');
        }
    }
}

proof fn small_numbers_are_octets(n: nat)
    ensures
        is_octet(text::decimal(n)) == (n <= 255),
{
    text::decimal_is_digits(n);
    text::digits_are_read_back(n);
    if n <= 255 {
        reveal_with_fuel(text::decimal, 4);
        assert(text::decimal(n).len() <= 3);
    }
}

/// Which addresses a guest can be reached on, by their four numbers: those of at
/// most 255 each that are neither link-local nor loopback nor unspecified. A field
/// that is such an address carries it, and a field that is any other address
/// carries none.
pub proof fn an_address_is_usable_by_its_numbers(a: nat, b: nat, c: nat, d: nat)
    ensures
        ({
            let usable = a <= 255 && b <= 255 && c <= 255 && d <= 255 && !(a == 169 && b == 254)
                && a != 127 && !(a == 0 && b == 0 && c == 0 && d == 0);
            &&& is_usable(dotted(a, b, c, d)) == usable
            &&& address_in(dotted(a, b, c, d)) == (if usable {
                Some(dotted(a, b, c, d))
            } else {
                None
            })
        }),
{
    numbers_between_dots(a, b, c, d);
    small_numbers_are_octets(a);
    small_numbers_are_octets(b);
    small_numbers_are_octets(c);
    small_numbers_are_octets(d);
    text::digits_are_read_back(a);
    text::digits_are_read_back(b);
    text::digits_are_read_back(c);
    text::digits_are_read_back(d);
    let s = dotted(a, b, c, d);
    let none = Seq::<char>::empty();
    text::a_word_stands_alone(none, s, none);
    assert(none + s + none =~= s);
    assert(text::words(s) =~= seq![s]);
    assert(seq![s].skip(1) =~= Seq::<Seq<char>>::empty());
    assert(first_usable(seq![s].skip(1)) is None);
}

/// Nothing but four numbers with dots between them is an address that a guest can
/// be reached on: no IPv6 address, no name, and no dash.
pub proof fn only_dotted_numbers_are_usable(s: Seq<char>)
    requires
        is_usable(s),
    ensures
        exists|a: nat, b: nat, c: nat, d: nat|
            a <= 255 && b <= 255 && c <= 255 && d <= 255 && s == #[trigger] dotted(a, b, c, d),
{
    let p = text::split(s, '.');
    text::a_split_is_lossless(s, '.');
    let (a, b, c, d) = (octet(s, 0), octet(s, 1), octet(s, 2), octet(s, 3));
    text::digits_spell_one_number(p[0]);
    text::digits_spell_one_number(p[1]);
    text::digits_spell_one_number(p[2]);
    text::digits_spell_one_number(p[3]);
    let dot = seq!['.'];
    assert(p =~= seq![p[0]] + (seq![p[1]] + (seq![p[2]] + seq![p[3]])));
    text::join_parts(seq![p[2]], seq![p[3]], dot);
    text::join_parts(seq![p[3]], Seq::empty(), dot);
    text::join_parts(seq![p[1]], seq![p[2]] + seq![p[3]], dot);
    text::join_parts(seq![p[0]], seq![p[1]] + (seq![p[2]] + seq![p[3]]), dot);
    assert(s =~= dotted(a, b, c, d));
}

/// Of several addresses in a field the first one that can be used is taken, whatever
/// stands in front of it and behind it.
pub proof fn the_first_usable_address_is_taken(
    gap: Seq<char>,
    word: Seq<char>,
    rest: Seq<char>,
)
    requires
        text::all_space(gap),
        text::is_word(word),
        rest.len() > 0 ==> text::is_space(rest[0]),
    ensures
        is_usable(word) ==> address_in(gap + word + rest) == Some(word),
        !is_usable(word) ==> address_in(gap + word + rest) == address_in(rest),
        address_in(gap) is None,
{
    text::a_word_stands_alone(gap, word, rest);
    let ws = seq![word] + text::words(rest);
    assert(ws.skip(1) =~= text::words(rest));
    assert(ws[0] == word);
}

/// What a guest reports and cannot be reached on are its stopgaps, in their order;
/// the dash of a guest without an address is none.
pub proof fn stopgaps_are_the_rest(a: Seq<Seq<char>>, word: Seq<char>)
    ensures
        stopgaps(a.push(word)) == (if word == "-"@ || is_usable(word) {
            stopgaps(a)
        } else {
            stopgaps(a).push(word)
        }),
        stopgaps(Seq::empty()) == Seq::<Seq<char>>::empty(),
{
    reveal(Seq::filter);
    assert(a.push(word).drop_last() =~= a);
}

// ── Finding a VM ─────────────────────────────────────────────────────────────

/// Whether the VM at `i` is the first of that name.
pub open spec fn first_named(vms: Seq<PrlVm>, name: Seq<char>, i: int) -> bool {
    &&& 0 <= i < vms.len()
    &&& vms[i].name@ == name
    &&& forall|j: int| 0 <= j < i ==> (#[trigger] vms[j]).name@ != name
}

/// Where the first VM of that name stands in the list.
pub fn position(vms: &[PrlVm], name: &str) -> (r: Option<usize>)
    ensures
        match r {
            Some(i) => first_named(vms@, name@, i as int),
            None => forall|j: int| 0 <= j < vms@.len() ==> (#[trigger] vms@[j]).name@ != name@,
        },
{
    let mut i: usize = 0;
    while i < vms.len()
        invariant
            i <= vms@.len(),
            forall|j: int| 0 <= j < i ==> (#[trigger] vms@[j]).name@ != name@,
        decreases vms@.len() - i,
    {
        if text::same(vms[i].name.as_str(), name) {
            return Some(i);
        }
        i = i + 1;
    }
    None
}

/// The VM of that name in the list Parallels gave.
pub fn find<'a>(vms: &'a [PrlVm], name: &str) -> (r: Result<&'a PrlVm, Failure>)
    ensures
        match r {
            Ok(vm) => exists|i: int| first_named(vms@, name@, i) && *vm == vms@[i],
            Err(e) => {
                &&& forall|j: int| 0 <= j < vms@.len() ==> (#[trigger] vms@[j]).name@ != name@
                &&& e is Infra
                &&& e.says() == "no Parallels VM named '"@ + name@ + "' (see `prlctl list -a`)"@
            },
        },
{
    match position(vms, name) {
        Some(i) => {
            assert(first_named(vms@, name@, i as int));
            Ok(&vms[i])
        },
        None => {
            let mut msg = "no Parallels VM named '".to_owned();
            msg.append(name);
            msg.append("' (see `prlctl list -a`)");
            Err(infra(msg))
        },
    }
}

// ── Waking a VM ──────────────────────────────────────────────────────────────

/// The statuses a VM never leaves on its own: it has to be started or resumed.
pub open spec fn off(status: Seq<char>) -> bool {
    status == "stopped"@ || status == "suspended"@ || status == "paused"@
}

/// Whether a VM with this status stays down until something starts or resumes
/// it.
pub fn is_off(status: &str) -> (r: bool)
    ensures
        r == off(status@),
{
    text::same(status, "stopped") || text::same(status, "suspended") || text::same(
        status,
        "paused",
    )
}

/// What has to be done to a VM before its address can be waited for.
#[derive(Debug)]
pub enum Wake {
    /// It is running: nothing to do, and nothing to say.
    Running,
    /// `prlctl start` it, and say so.
    Start(String),
    /// `prlctl resume` it, and say so.
    Resume(String),
    /// Someone else is waking it: say so, and wait with them.
    Join(String),
    /// It is on its way down: look again before deciding anything.
    Settle,
    /// It cannot be brought up.
    Fail(Failure),
}

/// How a line about one VM begins.
pub open spec fn about(alias: Seq<char>, name: Seq<char>, status: Seq<char>) -> Seq<char> {
    "vm ▸ "@ + alias + " ▸ '"@ + name + "' is "@ + status
}

fn about_line(alias: &str, name: &str, status: &str) -> (r: String)
    ensures
        r@ == about(alias@, name@, status@),
{
    let mut line = "vm ▸ ".to_owned();
    line.append(alias);
    line.append(" ▸ '");
    line.append(name);
    line.append("' is ");
    line.append(status);
    line
}

/// The failure of a VM that will not finish stopping.
pub open spec fn stuck_stopping(name: Seq<char>, waited: int) -> Seq<char> {
    "VM '"@ + name + "' is still stopping after "@ + text::decimal(
        clock::seconds(waited) as nat,
    ) + "s — a shutdown is not landing, and vm does not start a VM on its way down (see `prlctl list -a`)"@
}

/// The failure of a VM in a state that is neither up nor a way there.
pub open spec fn unexpected_state(name: Seq<char>, status: Seq<char>) -> Seq<char> {
    "VM '"@ + name + "' is in unexpected state '"@ + status
        + "' — expected running, stopped, suspended, or paused (see `prlctl list -a`)"@
}

/// Whether this is what a VM's status asks for, after having waited so long for
/// it to settle.
pub open spec fn woken(
    alias: Seq<char>,
    name: Seq<char>,
    status: Seq<char>,
    waited: int,
    grace: int,
    r: Wake,
) -> bool {
    if status == "running"@ {
        r is Running
    } else if status == "stopped"@ {
        r matches Wake::Start(line) && line@ == about(alias, name, status) + " — starting it…"@
    } else if status == "suspended"@ || status == "paused"@ {
        r matches Wake::Resume(line) && line@ == about(alias, name, status) + " — resuming it…"@
    } else if status == "starting"@ || status == "resuming"@ {
        r matches Wake::Join(line) && line@ == about(alias, name, status)
            + " — a wake is already in flight; joining it…"@
    } else if status == "stopping"@ {
        if waited >= grace {
            r matches Wake::Fail(e) && e is Infra && e.says() == stuck_stopping(name, waited)
        } else {
            r is Settle
        }
    } else {
        r matches Wake::Fail(e) && e is Infra && e.says() == unexpected_state(name, status)
    }
}

/// What one look at a VM's status means to a caller that needs it up, after
/// having waited so long for it to settle.
///
/// A running VM is used as it is. A wake in flight is joined, never started a
/// second time. A VM that is stopping is given the grace window to get there.
pub fn ensure_running(alias: &str, vm: &PrlVm, waited: u128, grace: u128) -> (r: Wake)
    ensures
        woken(alias@, vm.name@, vm.status@, waited as int, grace as int, r),
{
    let name: &str = vm.name.as_str();
    let status: &str = vm.status.as_str();
    if text::same(status, "running") {
        Wake::Running
    } else if text::same(status, "stopped") {
        let mut line = about_line(alias, name, status);
        line.append(" — starting it…");
        Wake::Start(line)
    } else if text::same(status, "suspended") || text::same(status, "paused") {
        let mut line = about_line(alias, name, status);
        line.append(" — resuming it…");
        Wake::Resume(line)
    } else if text::same(status, "starting") || text::same(status, "resuming") {
        let mut line = about_line(alias, name, status);
        line.append(" — a wake is already in flight; joining it…");
        Wake::Join(line)
    } else if text::same(status, "stopping") {
        if waited >= grace {
            let mut msg = "VM '".to_owned();
            msg.append(name);
            msg.append("' is still stopping after ");
            msg.append(text::to_decimal(waited / clock::SECOND).as_str());
            msg.append(
                "s — a shutdown is not landing, and vm does not start a VM on its way down (see `prlctl list -a`)",
            );
            Wake::Fail(infra(msg))
        } else {
            Wake::Settle
        }
    } else {
        let mut msg = "VM '".to_owned();
        msg.append(name);
        msg.append("' is in unexpected state '");
        msg.append(status);
        msg.append(
            "' — expected running, stopped, suspended, or paused (see `prlctl list -a`)",
        );
        Wake::Fail(infra(msg))
    }
}

/// What is done about a VM, by its status: one that runs is used, one that is stopped
/// is started, one that is suspended or paused is resumed, one that is on its way up
/// is waited for, and one on its way down is given the grace window to get there and
/// then given up on. Any other status is a failure.
pub proof fn a_vm_is_woken_by_its_status(
    alias: Seq<char>,
    name: Seq<char>,
    status: Seq<char>,
    waited: int,
    grace: int,
    r: Wake,
)
    requires
        woken(alias, name, status, waited, grace, r),
    ensures
        r is Running <==> status == "running"@,
        r is Start <==> status == "stopped"@,
        r is Resume <==> status == "suspended"@ || status == "paused"@,
        r is Join <==> status == "starting"@ || status == "resuming"@,
        r is Settle <==> status == "stopping"@ && waited < grace,
        r matches Wake::Fail(e) ==> e is Infra && (status != "stopping"@ || waited >= grace),
        off(status) <==> status == "stopped"@ || status == "suspended"@ || status == "paused"@,
{
    reveal_strlit("running");
    reveal_strlit("stopped");
    reveal_strlit("suspended");
    reveal_strlit("paused");
    reveal_strlit("starting");
    reveal_strlit("resuming");
    reveal_strlit("stopping");
    assert("running"@.len() == 7 && "stopped"@.len() == 7 && "suspended"@.len() == 9);
    assert("paused"@.len() == 6 && "starting"@.len() == 8 && "resuming"@.len() == 8);
    assert("stopping"@.len() == 8 && "running"@[0] == 'r' && "stopped"@[0] == 's');
    assert("starting"@[2] == 'a' && "stopping"@[2] == 'o' && "resuming"@[0] == 'r');
}

/// Only a VM that stays down by itself is started or resumed: never one that runs,
/// that somebody else is waking, or that is on its way down.
pub proof fn only_an_off_vm_is_woken(
    alias: Seq<char>,
    name: Seq<char>,
    status: Seq<char>,
    waited: int,
    grace: int,
    r: Wake,
)
    requires
        woken(alias, name, status, waited, grace, r),
        r is Start || r is Resume,
    ensures
        off(status),
        r is Start == (status == "stopped"@),
{
}

/// What a failed start or resume means, given a fresh look at the VM: where it
/// is no longer off, something else brought it up and that wake is joined; else
/// the failure stands. The wording of the failure is never consulted.
pub fn lost_start(alias: &str, vm: &PrlVm, failure: Failure) -> (r: Result<String, Failure>)
    ensures
        match r {
            Ok(line) => !off(vm.status@) && line@ == about(alias@, vm.name@, vm.status@)
                + " — something else brought it up; joining that wake…"@,
            Err(e) => off(vm.status@) && e == failure,
        },
{
    if is_off(vm.status.as_str()) {
        Err(failure)
    } else {
        let mut line = about_line(alias, vm.name.as_str(), vm.status.as_str());
        line.append(" — something else brought it up; joining that wake…");
        Ok(line)
    }
}

/// A VM brought up: where to reach it, and whether it had to be woken. A guest
/// just woken may still be starting its services behind the address.
#[derive(Debug)]
pub struct Up {
    pub ip: String,
    pub woke: bool,
}

/// The outcome of a bring-up. A VM counts as woken where this process acted on
/// it, joined someone else's wake, or had to wait for the address at all.
pub fn ensure_up(ip: String, acted: bool, joined: bool, waited_for_ip: bool) -> (r: Up)
    ensures
        r.ip@ == ip@,
        r.woke == (acted || joined || waited_for_ip),
{
    Up { ip, woke: acted || joined || waited_for_ip }
}

// ── Waiting for an address ───────────────────────────────────────────────────

/// How many ticks a guest gets to report an address.
pub const IP_TIMEOUT_TICKS: u32 = 90;

/// How many ticks pass between two looks at a VM.
pub const POLL_TICKS: u32 = 2;

/// How many ticks a wait lasts before it is worth a line, and then between
/// lines.
pub const HEARTBEAT_TICKS: u32 = 10;

/// How many ticks Parallels gets to move a VM out of a settled off-state.
pub const GRACE_TICKS: u32 = 15;

/// How long a guest gets to report an address once Parallels has it running.
pub fn ip_timeout(tick: u128) -> (r: u128)
    requires
        tick <= 0xffff_ffff_ffff_ffff * 1_000_000,
    ensures
        r == tick * 90,
{
    clock::ticks(tick, IP_TIMEOUT_TICKS)
}

/// How often the VM's state is read while waiting.
pub fn poll(tick: u128) -> (r: u128)
    requires
        tick <= 0xffff_ffff_ffff_ffff * 1_000_000,
    ensures
        r == tick * 2,
{
    clock::ticks(tick, POLL_TICKS)
}

/// How long a wait lasts before it says so, and then how often it does.
pub fn heartbeat(tick: u128) -> (r: u128)
    requires
        tick <= 0xffff_ffff_ffff_ffff * 1_000_000,
    ensures
        r == tick * 10,
{
    clock::ticks(tick, HEARTBEAT_TICKS)
}

/// How long Parallels gets to move a VM out of a settled off-state after it
/// reported a successful start or resume.
pub fn transition_grace(tick: u128) -> (r: u128)
    requires
        tick <= 0xffff_ffff_ffff_ffff * 1_000_000,
    ensures
        r == tick * 15,
{
    clock::ticks(tick, GRACE_TICKS)
}

/// What one observation of a VM means to a caller waiting for its address.
#[derive(Debug, PartialEq, Eq)]
pub enum Step {
    Up(String),
    Wait,
    Fail(String),
}

/// The failure of a VM that is still off past the grace window.
pub open spec fn never_came_up(name: Seq<char>, status: Seq<char>, waited: int) -> Seq<char> {
    "VM '"@ + name + "' is "@ + status + " "@ + text::decimal(clock::seconds(waited) as nat)
        + "s after vm asked Parallels to bring it up, so it will never report an IP.\n  Either the start/resume did not take effect, or something put the VM back down while vm was waiting for it (`vm reap`, or a stop/suspend from the Parallels GUI).\n  `prlctl list -a` shows the current state; `prlctl "@
        + (if status == "stopped"@ {
        "start"@
    } else {
        "resume"@
    }) + " \""@ + name + "\"` brings it up by hand."@
}

/// The failure of a guest that reports only addresses it cannot be reached on.
pub open spec fn only_stopgaps(
    name: Seq<char>,
    status: Seq<char>,
    addrs: Seq<char>,
    timeout: int,
) -> Seq<char> {
    "VM '"@ + name + "' is "@ + status + " but reported no IPv4 within "@ + text::decimal(
        clock::seconds(timeout) as nat,
    ) + "s — only "@ + text::joined(stopgaps(text::words(addrs)), ", "@)
        + ".\n  vm reaches a guest over IPv4: it is what Parallels' shared network leases, and the only address the git sync push can be pointed at.\n  Check the guest's network adapter is on Shared Networking and its DHCP client is up."@
}

/// The failure of a guest that reports no address at all.
pub open spec fn no_address(name: Seq<char>, status: Seq<char>, timeout: int) -> Seq<char> {
    "VM '"@ + name + "' is "@ + status + " but did not report an IP within "@ + text::decimal(
        clock::seconds(timeout) as nat,
    )
        + "s — the guest may still be booting, or Parallels Tools isn't running in it"@
}

/// What an observation means, and what a failure then says.
pub open spec fn meaning(
    name: Seq<char>,
    status: Seq<char>,
    addrs: Seq<char>,
    waited: int,
    timeout: int,
    grace: int,
    step: Step,
) -> bool {
    match address_in(addrs) {
        Some(ip) => step matches Step::Up(found) && found@ == ip,
        None => if off(status) && waited >= grace {
            step matches Step::Fail(msg) && msg@ == never_came_up(name, status, waited)
        } else if waited >= timeout {
            if stopgaps(text::words(addrs)).len() > 0 {
                step matches Step::Fail(msg) && msg@ == only_stopgaps(name, status, addrs, timeout)
            } else {
                step matches Step::Fail(msg) && msg@ == no_address(name, status, timeout)
            }
        } else {
            step is Wait
        },
    }
}

/// What one observation means to a caller waiting for an address. `addrs` is the
/// raw `ip_configured` field: what a guest reports and cannot be reached on is
/// the difference between a guest without a network and one on the wrong one.
pub fn assess(
    name: &str,
    status: &str,
    addrs: &str,
    waited: u128,
    timeout: u128,
    grace: u128,
) -> (r: Step)
    ensures
        meaning(name@, status@, addrs@, waited as int, timeout as int, grace as int, r),
{
    if let Some(ip) = ipv4(addrs) {
        return Step::Up(ip);
    }
    if is_off(status) && waited >= grace {
        let verb: &str = if text::same(status, "stopped") {
            "start"
        } else {
            "resume"
        };
        let mut msg = "VM '".to_owned();
        msg.append(name);
        msg.append("' is ");
        msg.append(status);
        msg.append(" ");
        msg.append(text::to_decimal(waited / clock::SECOND).as_str());
        msg.append(
            "s after vm asked Parallels to bring it up, so it will never report an IP.\n  Either the start/resume did not take effect, or something put the VM back down while vm was waiting for it (`vm reap`, or a stop/suspend from the Parallels GUI).\n  `prlctl list -a` shows the current state; `prlctl ",
        );
        msg.append(verb);
        msg.append(" \"");
        msg.append(name);
        msg.append("\"` brings it up by hand.");
        return Step::Fail(msg);
    }
    if waited >= timeout {
        let unusable: Vec<String> = unusable_addrs(addrs);
        assert(text::views(unusable@).len() == unusable@.len());
        let mut msg = "VM '".to_owned();
        msg.append(name);
        msg.append("' is ");
        msg.append(status);
        if unusable.len() > 0 {
            msg.append(" but reported no IPv4 within ");
            msg.append(text::to_decimal(timeout / clock::SECOND).as_str());
            msg.append("s — only ");
            msg.append(text::join(&unusable, ", ").as_str());
            msg.append(
                ".\n  vm reaches a guest over IPv4: it is what Parallels' shared network leases, and the only address the git sync push can be pointed at.\n  Check the guest's network adapter is on Shared Networking and its DHCP client is up.",
            );
            return Step::Fail(msg);
        }
        msg.append(" but did not report an IP within ");
        msg.append(text::to_decimal(timeout / clock::SECOND).as_str());
        msg.append(
            "s — the guest may still be booting, or Parallels Tools isn't running in it",
        );
        return Step::Fail(msg);
    }
    Step::Wait
}

/// An address that a guest can be reached on ends the wait, whatever else is true.
pub proof fn an_address_ends_the_wait(
    name: Seq<char>,
    status: Seq<char>,
    addrs: Seq<char>,
    waited: int,
    timeout: int,
    grace: int,
    step: Step,
)
    requires
        meaning(name, status, addrs, waited, timeout, grace, step),
    ensures
        step is Up == address_in(addrs) is Some,
{
}

/// A guest that reports an address it can be reached on is up, at that address and
/// whatever its status; one that reports none is never up.
pub proof fn a_guest_is_up_at_its_address(
    name: Seq<char>,
    status: Seq<char>,
    a: nat,
    b: nat,
    c: nat,
    d: nat,
    waited: int,
    timeout: int,
    grace: int,
    step: Step,
    nowhere: Step,
)
    requires
        meaning(name, status, dotted(a, b, c, d), waited, timeout, grace, step),
        meaning(name, status, "-"@, waited, timeout, grace, nowhere),
    ensures
        a <= 255 && b <= 255 && c <= 255 && d <= 255 && !(a == 169 && b == 254) && a != 127 && !(a
            == 0 && b == 0 && c == 0 && d == 0) <==> step is Up,
        step matches Step::Up(ip) ==> ip@ == dotted(a, b, c, d),
        nowhere !is Up,
        waited < grace && waited < timeout ==> nowhere is Wait,
        waited >= timeout ==> nowhere is Fail,
        off(status) && waited >= grace ==> nowhere is Fail,
        !off(status) && waited < timeout ==> nowhere is Wait,
{
    an_address_is_usable_by_its_numbers(a, b, c, d);
    reveal_strlit("-");
    let none = Seq::<char>::empty();
    assert("-"@.len() == 1 && "-"@[0] == '-');
    assert(text::is_word("-"@));
    the_first_usable_address_is_taken(none, "-"@, none);
    assert(none + "-"@ + none =~= "-"@);
    if is_usable("-"@) {
        only_dotted_numbers_are_usable("-"@);
        let (x, y, z, w) = choose|x: nat, y: nat, z: nat, w: nat|
            x <= 255 && y <= 255 && z <= 255 && w <= 255 && "-"@ == #[trigger] dotted(x, y, z, w);
        assert(dotted(x, y, z, w).len() > 1);
    }
    the_first_usable_address_is_taken(none, "-"@, none);
    assert(address_in(none) is None);
}

/// A VM that is off is waited for inside the grace window, and is given up on past
/// it, before the timeout and with the reason that it is off. A VM that is not off
/// has until the timeout, and no wait lasts longer.
pub proof fn every_wait_ends(
    name: Seq<char>,
    status: Seq<char>,
    addrs: Seq<char>,
    waited: int,
    timeout: int,
    grace: int,
    step: Step,
)
    requires
        meaning(name, status, addrs, waited, timeout, grace, step),
        address_in(addrs) is None,
        grace <= timeout,
    ensures
        off(status) ==> (step is Wait == (waited < grace)),
        off(status) && waited >= grace ==> (step matches Step::Fail(msg) && msg@ == never_came_up(
            name,
            status,
            waited,
        )),
        !off(status) ==> (step is Wait == (waited < timeout)),
{
}

/// What to do after one look at a VM whose address is waited for.
#[derive(Debug)]
pub enum Waiting {
    /// The guest has its address.
    Ready(String),
    /// It will not get one.
    GiveUp(Failure),
    /// Say this, if anything; look again after the polling interval, and say
    /// nothing more before the wait reaches this length.
    Again(Option<String>, u128),
}

/// The line that narrates a long wait.
pub open spec fn still_waiting(
    alias: Seq<char>,
    name: Seq<char>,
    status: Seq<char>,
    waited: int,
    timeout: int,
) -> Seq<char> {
    "vm ▸ "@ + alias + " ▸ '"@ + name + "' "@ + status + ", no IP yet — "@ + text::decimal(
        clock::seconds(waited) as nat,
    ) + "s of "@ + text::decimal(clock::seconds(timeout) as nat) + "s"@
}

/// One turn of the wait for an address: what was just seen of the VM, how long
/// the wait has lasted, and the length at which it next says so.
pub fn wait_for_ip(alias: &str, vm: &PrlVm, waited: u128, next_beat: u128, tick: u128) -> (r:
    Waiting)
    requires
        tick <= 0xffff_ffff_ffff_ffff * 1_000_000,
        waited <= 0xffff_ffff_ffff_ffff * 1_000_000_000,
    ensures
        exists|step: Step|
            {
                &&& #[trigger] meaning(
                    vm.name@,
                    vm.status@,
                    vm.ip_configured@,
                    waited as int,
                    tick * 90,
                    tick * 15,
                    step,
                )
                &&& match step {
                    Step::Up(ip) => r matches Waiting::Ready(found) && found@ == ip@,
                    Step::Fail(msg) => r matches Waiting::GiveUp(e) && e is Infra && e.says()
                        == msg@,
                    Step::Wait => r matches Waiting::Again(line, next) && (if waited >= next_beat {
                        text::opt_string(line) == Some(
                            still_waiting(
                                alias@,
                                vm.name@,
                                vm.status@,
                                waited as int,
                                tick * 90,
                            ),
                        ) && next == waited + tick * 10
                    } else {
                        line is None && next == next_beat
                    }),
                }
            },
{
    let timeout: u128 = ip_timeout(tick);
    let step = assess(
        vm.name.as_str(),
        vm.status.as_str(),
        vm.ip_configured.as_str(),
        waited,
        timeout,
        transition_grace(tick),
    );
    let ghost seen = step;
    let r = match step {
        Step::Up(ip) => Waiting::Ready(ip),
        Step::Fail(msg) => Waiting::GiveUp(infra(msg)),
        Step::Wait => {
            if waited >= next_beat {
                let mut line = "vm ▸ ".to_owned();
                line.append(alias);
                line.append(" ▸ '");
                line.append(vm.name.as_str());
                line.append("' ");
                line.append(vm.status.as_str());
                line.append(", no IP yet — ");
                line.append(text::to_decimal(waited / clock::SECOND).as_str());
                line.append("s of ");
                line.append(text::to_decimal(timeout / clock::SECOND).as_str());
                line.append("s");
                Waiting::Again(Some(line), waited + heartbeat(tick))
            } else {
                Waiting::Again(None, next_beat)
            }
        },
    };
    assert(meaning(
        vm.name@,
        vm.status@,
        vm.ip_configured@,
        waited as int,
        tick * 90,
        tick * 15,
        seen,
    ));
    r
}

// ── Command lines for prlctl ─────────────────────────────────────────────────

/// The most guest-command argv that `prlctl exec` is given, in total bytes. Past
/// about 3.9 KB it hangs forever, silently.
pub const EXEC_ARGV_LIMIT: usize = 3072;

/// The bytes of a command line: those of each argument, and one more for each.
pub open spec fn argv_bytes(args: Seq<Seq<char>>) -> nat
    decreases args.len(),
{
    if args.len() == 0 {
        0
    } else {
        argv_bytes(args.drop_last()) + text::utf8_len(args.last()) + 1
    }
}

/// The refusal of a command line that would hang.
pub open spec fn oversized(name: Seq<char>, total: nat) -> Seq<char> {
    "refusing `prlctl exec "@ + name + " …`: the command line totals "@ + text::decimal(total)
        + " bytes, over vm's 3072-byte cap.\n  prlctl exec hangs forever — silently, and immune to SIGTERM — once its total command line passes ~3.9 KB (measured on Parallels 26.4; the limit is combined size, not per argument).\n  Send bulk data to the guest some other way: the agent protocol's stdin, a synced file, or ssh."@
}

/// Refuses a command line that `prlctl exec` would hang on, with the cause. The
/// limit is on the whole of it, not on any one argument.
pub fn check_exec_argv(name: &str, args: &[&str]) -> (r: Result<(), Failure>)
    ensures
        match r {
            Ok(_) => argv_bytes(text::str_views(args@)) <= EXEC_ARGV_LIMIT,
            Err(e) => {
                let total = argv_bytes(text::str_views(args@));
                total > EXEC_ARGV_LIMIT && e is Infra && e.says() == oversized(name@, total)
            },
        },
{
    let mut total: u128 = 0;
    let count: usize = args.len();
    let ghost all = text::str_views(args@);
    let mut i: usize = 0;
    assert(all.take(0) =~= Seq::<Seq<char>>::empty());
    while i < args.len()
        invariant
            i <= args@.len(),
            args@.len() == count,
            all == text::str_views(args@),
            total == argv_bytes(all.take(i as int)),
            total <= i * (usize::MAX + 1),
        decreases args@.len() - i,
    {
        let size: usize = text::byte_len(args[i]);
        assert(all.take(i + 1).drop_last() =~= all.take(i as int));
        assert(i * (usize::MAX + 1) + (usize::MAX + 1) == (i + 1) * (usize::MAX + 1))
            by (nonlinear_arith);
        assert((i + 1) * (usize::MAX + 1) <= u128::MAX) by (nonlinear_arith)
            requires
                i < usize::MAX,
                usize::MAX <= 0xffff_ffff_ffff_ffff,
        ;
        total = total + size as u128 + 1;
        i = i + 1;
    }
    assert(all.take(i as int) =~= all);
    if total > EXEC_ARGV_LIMIT as u128 {
        let mut msg = "refusing `prlctl exec ".to_owned();
        msg.append(name);
        msg.append(" …`: the command line totals ");
        msg.append(text::to_decimal(total).as_str());
        msg.append(
            " bytes, over vm's 3072-byte cap.\n  prlctl exec hangs forever — silently, and immune to SIGTERM — once its total command line passes ~3.9 KB (measured on Parallels 26.4; the limit is combined size, not per argument).\n  Send bulk data to the guest some other way: the agent protocol's stdin, a synced file, or ssh.",
        );
        return Err(infra(msg));
    }
    Ok(())
}

/// The texts `fixed` and `args`, one list after the other.
fn argv(fixed: &[&str], args: &[&str]) -> (r: Vec<String>)
    ensures
        text::views(r@) == text::str_views(fixed@) + text::str_views(args@),
{
    let mut out: Vec<String> = Vec::new();
    let mut i: usize = 0;
    assert(text::views(out@) =~= text::str_views(fixed@.take(0)));
    while i < fixed.len()
        invariant
            i <= fixed@.len(),
            text::views(out@) == text::str_views(fixed@.take(i as int)),
        decreases fixed@.len() - i,
    {
        let ghost before = out@;
        out.push(fixed[i].to_owned());
        assert(text::views(out@) =~= text::views(before).push(fixed@[i as int]@));
        assert(text::str_views(fixed@.take(i + 1)) =~= text::str_views(
            fixed@.take(i as int),
        ).push(fixed@[i as int]@));
        i = i + 1;
    }
    assert(fixed@.take(i as int) =~= fixed@);
    let ghost head = text::str_views(fixed@);
    let mut j: usize = 0;
    assert(head + text::str_views(args@.take(0)) =~= head);
    while j < args.len()
        invariant
            j <= args@.len(),
            text::views(out@) == head + text::str_views(args@.take(j as int)),
        decreases args@.len() - j,
    {
        let ghost before = out@;
        out.push(args[j].to_owned());
        assert(text::views(out@) =~= text::views(before).push(args@[j as int]@));
        assert(text::str_views(args@.take(j + 1)) =~= text::str_views(args@.take(j as int)).push(
            args@[j as int]@,
        ));
        j = j + 1;
    }
    assert(args@.take(j as int) =~= args@);
    out
}

/// Whether this is what becomes of a guest command: `prlctl`'s arguments with the
/// command behind `head`, or the refusal of one that is too long.
pub open spec fn carries(
    name: Seq<char>,
    head: Seq<Seq<char>>,
    args: Seq<Seq<char>>,
    r: Result<Vec<String>, Failure>,
) -> bool {
    match r {
        Ok(v) => argv_bytes(args) <= EXEC_ARGV_LIMIT && text::views(v@) == head + args,
        Err(e) => argv_bytes(args) > EXEC_ARGV_LIMIT && e is Infra && e.says() == oversized(
            name,
            argv_bytes(args),
        ),
    }
}

/// The bytes of a command line are those of each argument in UTF-8 and one more for
/// each, whatever their order.
pub proof fn arguments_add_up(a: Seq<Seq<char>>, b: Seq<Seq<char>>, arg: Seq<char>)
    ensures
        argv_bytes(a + b) == argv_bytes(a) + argv_bytes(b),
        argv_bytes(seq![arg]) == vstd::utf8::encode_utf8(arg).len() + 1,
        argv_bytes(Seq::empty()) == 0,
    decreases b.len(),
{
    reveal_with_fuel(argv_bytes, 2);
    assert(seq![arg].drop_last() =~= Seq::<Seq<char>>::empty());
    if b.len() == 0 {
        assert(a + b =~= a);
    } else {
        assert((a + b).drop_last() =~= a + b.drop_last());
        assert((a + b).last() == b.last());
        arguments_add_up(a, b.drop_last(), arg);
    }
}

/// A guest command of at most 3072 bytes is carried as it is, behind what `prlctl` is
/// told; a longer one is never handed to it.
pub proof fn a_command_line_is_carried_whole_or_refused(
    name: Seq<char>,
    head: Seq<Seq<char>>,
    args: Seq<Seq<char>>,
    r: Result<Vec<String>, Failure>,
)
    requires
        carries(name, head, args, r),
    ensures
        r is Ok <==> argv_bytes(args) <= 3072,
        r matches Ok(v) ==> text::views(v@) == head + args,
        r matches Err(e) ==> e is Infra && text::contains(e.says(), text::decimal(argv_bytes(args))),
{
    if r is Err {
        let (a, n, b) = (
            "refusing `prlctl exec "@,
            text::decimal(argv_bytes(args)),
            " …`: the command line totals "@,
        );
        let tail =
            " bytes, over vm's 3072-byte cap.\n  prlctl exec hangs forever — silently, and immune to SIGTERM — once its total command line passes ~3.9 KB (measured on Parallels 26.4; the limit is combined size, not per argument).\n  Send bulk data to the guest some other way: the agent protocol's stdin, a synced file, or ssh."@;
        assert(oversized(name, argv_bytes(args)) =~= (a + name + b) + n + tail);
        text::what_is_contained_is_there(a + name + b, n, tail);
    }
}

/// The `prlctl` arguments that run `args` in the guest's console session, as the
/// user logged in there.
pub fn exec_console(name: &str, args: &[&str]) -> (r: Result<Vec<String>, Failure>)
    ensures
        carries(name@, seq!["exec"@, name@, "--current-user"@], text::str_views(args@), r),
{
    match check_exec_argv(name, args) {
        Ok(_) => {
            let v = argv(&["exec", name, "--current-user"], args);
            assert(text::views(v@) =~= seq!["exec"@, name@, "--current-user"@]
                + text::str_views(args@));
            Ok(v)
        },
        Err(e) => Err(e),
    }
}

/// The `prlctl` arguments that run `args` in the guest as the superuser.
pub fn exec_elevated(name: &str, args: &[&str]) -> (r: Result<Vec<String>, Failure>)
    ensures
        carries(name@, seq!["exec"@, name@], text::str_views(args@), r),
{
    match check_exec_argv(name, args) {
        Ok(_) => {
            let v = argv(&["exec", name], args);
            assert(text::views(v@) =~= seq!["exec"@, name@] + text::str_views(args@));
            Ok(v)
        },
        Err(e) => Err(e),
    }
}

/// What a run of `prlctl` printed.
pub fn prlctl(args: &[String], out: Output) -> (r: Result<String, Failure>)
    ensures
        process::printed("prlctl"@, text::views(args@), out, r),
{
    process::stdout_of("prlctl", args, out)
}

/// The fields that a text gives of a VM, or what is wrong with it.
pub open spec fn vm_in(text: Seq<char>) -> Result<Seq<(Seq<char>, Seq<char>)>, Seq<char>> {
    json::record_in(
        text,
        "PrlVm"@,
        seq!["uuid"@, "status"@, "ip_configured"@, "name"@],
        4,
        false,
    )
}

/// What is wrong with the text of a VM, if anything.
pub open spec fn vm_trouble(text: Seq<char>) -> Option<Seq<char>> {
    match vm_in(text) {
        Err(e) => Some(e),
        Ok(fields) => if json::text_field(fields, "uuid"@) is Err {
            Some(json::text_field(fields, "uuid"@)->Err_0)
        } else if json::text_field(fields, "status"@) is Err {
            Some(json::text_field(fields, "status"@)->Err_0)
        } else if json::text_field(fields, "ip_configured"@) is Err {
            Some(json::text_field(fields, "ip_configured"@)->Err_0)
        } else if json::text_field(fields, "name"@) is Err {
            Some(json::text_field(fields, "name"@)->Err_0)
        } else {
            None
        },
    }
}

/// Whether a text is that of a VM. Fields that are not looked at are passed over.
pub open spec fn vm_reads_as(text: Seq<char>, vm: PrlVm) -> bool {
    vm_in(text) matches Ok(fields) && json::ok(
        json::text_field(fields, "uuid"@),
        vm.uuid@,
    ) && json::ok(json::text_field(fields, "status"@), vm.status@) && json::ok(
        json::text_field(fields, "ip_configured"@),
        vm.ip_configured@,
    ) && json::ok(json::text_field(fields, "name"@), vm.name@)
}

/// A VM is read from the fields of its object that bear the names of its own, and
/// from no others; it is in order exactly where each of them is a string.
pub proof fn a_vm_is_read_by_its_fields(
    text: Seq<char>,
    fields: Seq<(Seq<char>, Seq<char>)>,
    i: int,
    j: int,
    k: int,
    l: int,
    vm: PrlVm,
)
    requires
        json::ok(json::members_in(text), fields),
        json::distinct(fields),
        0 <= i < fields.len(),
        0 <= j < fields.len(),
        0 <= k < fields.len(),
        0 <= l < fields.len(),
        fields[i].0 == "uuid"@,
        fields[j].0 == "status"@,
        fields[k].0 == "ip_configured"@,
        fields[l].0 == "name"@,
    ensures
        vm_reads_as(text, vm) <==> json::ok(json::string_in(fields[i].1), vm.uuid@) && json::ok(
            json::string_in(fields[j].1),
            vm.status@,
        ) && json::ok(json::string_in(fields[k].1), vm.ip_configured@) && json::ok(
            json::string_in(fields[l].1),
            vm.name@,
        ),
        vm_trouble(text) is None <==> json::string_in(fields[i].1) is Ok && json::string_in(
            fields[j].1,
        ) is Ok && json::string_in(fields[k].1) is Ok && json::string_in(fields[l].1) is Ok,
{
    json::field_at(fields, i);
    json::field_at(fields, j);
    json::field_at(fields, k);
    json::field_at(fields, l);
    json::distinct_never_repeat(
        fields,
        seq!["uuid"@, "status"@, "ip_configured"@, "name"@],
    );
}

fn read_vm(text: &str) -> (r: Result<PrlVm, String>)
    ensures
        match r {
            Ok(vm) => vm_trouble(text@) is None && vm_reads_as(text@, vm),
            Err(e) => vm_trouble(text@) == Some(e@),
        },
{
    let keys: [&str; 4] = ["uuid", "status", "ip_configured", "name"];
    assert(text::str_views(keys@) =~= seq!["uuid"@, "status"@, "ip_configured"@, "name"@]);
    let fields: Vec<(String, String)> = match json::read_record(text, "PrlVm", &keys, 4, false) {
        Ok(fields) => fields,
        Err(e) => {
            return Err(e);
        },
    };
    let uuid: String = match json::need_text(&fields, "uuid") {
        Ok(s) => s,
        Err(e) => {
            return Err(e);
        },
    };
    let status: String = match json::need_text(&fields, "status") {
        Ok(s) => s,
        Err(e) => {
            return Err(e);
        },
    };
    let ip_configured: String = match json::need_text(&fields, "ip_configured") {
        Ok(s) => s,
        Err(e) => {
            return Err(e);
        },
    };
    match json::need_text(&fields, "name") {
        Ok(name) => Ok(PrlVm { uuid, status, ip_configured, name }),
        Err(e) => Err(e),
    }
}

/// What is wrong with the first of some texts that is not that of a VM.
pub open spec fn first_trouble(items: Seq<Seq<char>>) -> Option<Seq<char>>
    decreases items.len(),
{
    if items.len() == 0 {
        None
    } else if vm_trouble(items[0]) is Some {
        vm_trouble(items[0])
    } else {
        first_trouble(items.skip(1))
    }
}

/// What is wrong with a listing, if anything.
pub open spec fn listing_trouble(text: Seq<char>) -> Option<Seq<char>> {
    match json::elements_in(text) {
        Err(e) => Some(e),
        Ok(items) => first_trouble(items),
    }
}

/// Whether a listing is one of these VMs.
pub open spec fn lists(text: Seq<char>, vms: Seq<PrlVm>) -> bool {
    json::elements_in(text) matches Ok(items) && items.len() == vms.len() && forall|i: int|
        0 <= i < vms.len() ==> vm_reads_as(items[i], #[trigger] vms[i])
}

/// The VMs of a listing, or what is wrong with it.
pub fn parse_list(listing: &str) -> (r: Result<Vec<PrlVm>, Failure>)
    ensures
        match r {
            Ok(vms) => listing_trouble(listing@) is None && lists(listing@, vms@),
            Err(e) => e is Infra && (listing_trouble(listing@) matches Some(why) && e.says()
                == "unexpected `"@ + "prlctl list --json"@ + "` output: "@ + why),
        },
{
    let items: Vec<String> = match json::read_elements(listing) {
        Ok(items) => items,
        Err(why) => {
            return Err(unexpected("prlctl list --json", why.as_str()));
        },
    };
    let ghost all = text::views(items@);
    let mut vms: Vec<PrlVm> = Vec::new();
    let mut i: usize = 0;
    assert(all.skip(0) =~= all);
    while i < items.len()
        invariant
            i <= items@.len(),
            all == text::views(items@),
            json::ok(json::elements_in(listing@), all),
            vms@.len() == i,
            first_trouble(all) == first_trouble(all.skip(i as int)),
            forall|j: int| 0 <= j < i ==> vm_reads_as(all[j], #[trigger] vms@[j]),
        decreases items@.len() - i,
    {
        assert(all.skip(i as int)[0] == items@[i as int]@);
        match read_vm(items[i].as_str()) {
            Ok(vm) => {
                let ghost before = vms@;
                vms.push(vm);
                assert forall|j: int| 0 <= j < i + 1 implies vm_reads_as(
                    all[j],
                    #[trigger] vms@[j],
                ) by {
                    if j < i {
                        assert(vms@[j] == before[j]);
                    }
                }
            },
            Err(why) => {
                return Err(unexpected("prlctl list --json", why.as_str()));
            },
        }
        assert(all.skip(i as int).skip(1) =~= all.skip(i + 1));
        i = i + 1;
    }
    Ok(vms)
}

/// The VMs of a listing, where a parse into typed records took it. Where it did not,
/// its complaint stands: it says where in the listing it is.
pub fn placed_list(listing: &str, typed: Result<(), String>) -> (r: Result<Vec<PrlVm>, Failure>)
    ensures
        match typed {
            Ok(_) => match r {
                Ok(vms) => listing_trouble(listing@) is None && lists(listing@, vms@),
                Err(e) => e is Infra && (listing_trouble(listing@) matches Some(why) && e.says()
                    == "unexpected `"@ + "prlctl list --json"@ + "` output: "@ + why),
            },
            Err(why) => r matches Err(e) && e is Infra && e.says() == "unexpected `"@
                + "prlctl list --json"@ + "` output: "@ + why@,
        },
{
    match typed {
        Ok(_) => parse_list(listing),
        Err(why) => Err(unexpected("prlctl list --json", why.as_str())),
    }
}

fn unexpected(call: &str, why: &str) -> (r: Failure)
    ensures
        r is Infra,
        r.says() == "unexpected `"@ + call@ + "` output: "@ + why@,
{
    let mut msg = "unexpected `".to_owned();
    msg.append(call);
    msg.append("` output: ");
    msg.append(why);
    infra(msg)
}

/// The `prlctl` arguments that list every VM. The full listing is the one that
/// carries addresses.
pub fn list_all() -> (r: Vec<String>)
    ensures
        text::views(r@) == seq!["list"@, "-a"@, "-f"@, "--json"@],
{
    let v = argv(&["list", "-a", "-f", "--json"], &[]);
    assert(text::views(v@) =~= seq!["list"@, "-a"@, "-f"@, "--json"@]);
    v
}

/// The `prlctl` arguments that start a VM.
pub fn start(name: &str) -> (r: Vec<String>)
    ensures
        text::views(r@) == seq!["start"@, name@],
{
    let v = argv(&["start", name], &[]);
    assert(text::views(v@) =~= seq!["start"@, name@]);
    v
}

/// The `prlctl` arguments that resume a VM.
pub fn resume(name: &str) -> (r: Vec<String>)
    ensures
        text::views(r@) == seq!["resume"@, name@],
{
    let v = argv(&["resume", name], &[]);
    assert(text::views(v@) =~= seq!["resume"@, name@]);
    v
}

/// The `prlctl` arguments that shut a VM down gracefully.
pub fn stop(name: &str) -> (r: Vec<String>)
    ensures
        text::views(r@) == seq!["stop"@, name@],
{
    let v = argv(&["stop", name], &[]);
    assert(text::views(v@) =~= seq!["stop"@, name@]);
    v
}

/// The `prlctl` arguments that save a picture of a VM's display.
pub fn capture(name: &str, file: &str) -> (r: Vec<String>)
    ensures
        text::views(r@) == seq!["capture"@, name@, "--file"@, file@],
{
    let v = argv(&["capture", name, "--file", file], &[]);
    assert(text::views(v@) =~= seq!["capture"@, name@, "--file"@, file@]);
    v
}

// ── Snapshots ────────────────────────────────────────────────────────────────

/// The `prlctl` arguments that list a VM's snapshots.
pub fn snapshot_list(name: &str) -> (r: Vec<String>)
    ensures
        text::views(r@) == seq!["snapshot-list"@, name@, "--json"@],
{
    let v = argv(&["snapshot-list", name, "--json"], &[]);
    assert(text::views(v@) =~= seq!["snapshot-list"@, name@, "--json"@]);
    v
}

/// The fields that a text gives of a snapshot's entry, or what is wrong with it.
pub open spec fn entry_in(text: Seq<char>) -> Result<Seq<(Seq<char>, Seq<char>)>, Seq<char>> {
    json::record_in(text, "Snap"@, seq!["name"@], 1, false)
}

/// What is wrong with the text of a snapshot's entry, if anything.
pub open spec fn entry_trouble(text: Seq<char>) -> Option<Seq<char>> {
    match entry_in(text) {
        Err(e) => Some(e),
        Ok(fields) => match json::text_field(fields, "name"@) {
            Err(e) => Some(e),
            Ok(_) => None,
        },
    }
}

/// What is wrong with the first of some entries that is not that of a snapshot.
pub open spec fn first_entry_trouble(entries: Seq<(Seq<char>, Seq<char>)>) -> Option<Seq<char>>
    decreases entries.len(),
{
    if entries.len() == 0 {
        None
    } else if entry_trouble(entries[0].1) is Some {
        entry_trouble(entries[0].1)
    } else {
        first_entry_trouble(entries.skip(1))
    }
}

/// What is wrong with a listing of snapshots, if anything. No text at all is a
/// listing of none.
pub open spec fn snapshots_trouble(text: Seq<char>) -> Option<Seq<char>> {
    if text::trim(text).len() == 0 {
        None
    } else {
        match json::entries_in(text) {
            Err(e) => Some(e),
            Ok(entries) => first_entry_trouble(entries),
        }
    }
}

/// Whether an entry of a listing is this snapshot: its id, and its name.
pub open spec fn entry_reads_as(entry: (Seq<char>, Seq<char>), snap: (String, String)) -> bool {
    entry.0 == snap.0@ && (entry_in(entry.1) matches Ok(fields) && json::ok(
        json::text_field(fields, "name"@),
        snap.1@,
    ))
}

/// Whether a listing is one of these snapshots.
pub open spec fn lists_snapshots(text: Seq<char>, snaps: Seq<(String, String)>) -> bool {
    if text::trim(text).len() == 0 {
        snaps.len() == 0
    } else {
        json::entries_in(text) matches Ok(entries) && entries.len() == snaps.len() && forall|i: int|
            0 <= i < snaps.len() ==> entry_reads_as(entries[i], #[trigger] snaps[i])
    }
}

/// Whether the ids of some snapshots come in ascending order, none of them twice.
pub open spec fn ids_ascend(snaps: Seq<(String, String)>) -> bool {
    forall|i: int, j: int|
        0 <= i < j < snaps.len() ==> text::less((#[trigger] snaps[i]).0@, (#[trigger] snaps[j]).0@)
}

/// A snapshot is read from the name in its entry, under the id that the entry has.
pub proof fn a_snapshot_is_read_by_its_name(
    id: Seq<char>,
    text: Seq<char>,
    fields: Seq<(Seq<char>, Seq<char>)>,
    i: int,
    snap: (String, String),
)
    requires
        json::ok(json::members_in(text), fields),
        json::distinct(fields),
        0 <= i < fields.len(),
        fields[i].0 == "name"@,
    ensures
        entry_reads_as((id, text), snap) <==> snap.0@ == id && json::ok(
            json::string_in(fields[i].1),
            snap.1@,
        ),
        entry_trouble(text) is None <==> json::string_in(fields[i].1) is Ok,
        snapshots_trouble(Seq::empty()) is None,
        lists_snapshots(Seq::empty(), seq![snap]) == false,
        lists_snapshots(Seq::empty(), Seq::empty()),
{
    json::field_at(fields, i);
    json::distinct_never_repeat(fields, seq!["name"@]);
    let none = Seq::<char>::empty();
    text::trimming_takes_only_space(none, none, none);
    assert(none + none + none =~= none);
}

/// The snapshots of a listing, in the order of their ids, each with its id and its name, or what is wrong
/// with it.
pub fn parse_snapshot_list(listing: &str) -> (r: Result<Vec<(String, String)>, String>)
    ensures
        match r {
            Ok(snaps) => snapshots_trouble(listing@) is None && lists_snapshots(listing@, snaps@)
                && ids_ascend(snaps@),
            Err(e) => snapshots_trouble(listing@) == Some(e@),
        },
{
    let mut snaps: Vec<(String, String)> = Vec::new();
    if text::trimmed(listing).as_str().is_empty() {
        return Ok(snaps);
    }
    let entries: Vec<(String, String)> = match json::read_entries(listing) {
        Ok(entries) => entries,
        Err(why) => {
            return Err(why);
        },
    };
    let ghost all = json::pairs(entries@);
    let mut i: usize = 0;
    assert(all.skip(0) =~= all);
    while i < entries.len()
        invariant
            i <= entries@.len(),
            all == json::pairs(entries@),
            text::trim(listing@).len() > 0,
            json::ok(json::entries_in(listing@), all),
            crate::ordmap::increasing(all),
            snaps@.len() == i,
            first_entry_trouble(all) == first_entry_trouble(all.skip(i as int)),
            forall|j: int| 0 <= j < i ==> entry_reads_as(all[j], #[trigger] snaps@[j]),
        decreases entries@.len() - i,
    {
        assert(all.skip(i as int)[0] == (entries@[i as int].0@, entries@[i as int].1@));
        let keys: [&str; 1] = ["name"];
        assert(text::str_views(keys@) =~= seq!["name"@]);
        let fields: Vec<(String, String)> = match json::read_record(
            entries[i].1.as_str(),
            "Snap",
            &keys,
            1,
            false,
        ) {
            Ok(fields) => fields,
            Err(why) => {
                return Err(why);
            },
        };
        match json::need_text(&fields, "name") {
            Ok(name) => {
                let ghost before = snaps@;
                snaps.push((entries[i].0.as_str().to_owned(), name));
                assert forall|j: int| 0 <= j < i + 1 implies entry_reads_as(
                    all[j],
                    #[trigger] snaps@[j],
                ) by {
                    if j < i {
                        assert(snaps@[j] == before[j]);
                    }
                }
            },
            Err(why) => {
                return Err(why);
            },
        }
        assert(all.skip(i as int).skip(1) =~= all.skip(i + 1));
        i = i + 1;
    }
    assert forall|a: int, b: int| 0 <= a < b < snaps@.len() implies text::less(
        (#[trigger] snaps@[a]).0@,
        (#[trigger] snaps@[b]).0@,
    ) by {
        assert(entry_reads_as(all[a], snaps@[a]) && entry_reads_as(all[b], snaps@[b]));
        assert(text::less(all[a].0, all[b].0));
    }
    Ok(snaps)
}

/// The snapshots that `prlctl` listed, or what is wrong with its listing.
pub fn listed_snapshots(name: &str, listing: &str) -> (r: Result<Vec<(String, String)>, Failure>)
    ensures
        match r {
            Ok(snaps) => snapshots_trouble(listing@) is None && lists_snapshots(listing@, snaps@)
                && ids_ascend(snaps@),
            Err(e) => e is Infra && (snapshots_trouble(listing@) matches Some(why) && e.says()
                == "unexpected `"@ + ("prlctl snapshot-list "@ + name@ + " --json"@)
                + "` output: "@ + why),
        },
{
    match parse_snapshot_list(listing) {
        Ok(snaps) => Ok(snaps),
        Err(why) => {
            let mut call = "prlctl snapshot-list ".to_owned();
            call.append(name);
            call.append(" --json");
            Err(unexpected(call.as_str(), why.as_str()))
        },
    }
}

/// The snapshots that `prlctl` listed, where a parse into typed records took its
/// listing. Where it did not, its complaint stands: it says where in the listing it
/// is. A blank listing is none that could be parsed.
pub fn placed_snapshots(name: &str, listing: &str, typed: Result<(), String>) -> (r: Result<
    Vec<(String, String)>,
    Failure,
>)
    ensures
        match (typed, r) {
            (Err(why), Err(e)) => text::trim(listing@).len() > 0 && e is Infra && e.says()
                == "unexpected `"@ + ("prlctl snapshot-list "@ + name@ + " --json"@)
                + "` output: "@ + why@,
            (Err(_), Ok(snaps)) => text::trim(listing@).len() == 0 && snaps@.len() == 0,
            (Ok(_), Ok(snaps)) => snapshots_trouble(listing@) is None && lists_snapshots(
                listing@,
                snaps@,
            ) && ids_ascend(snaps@),
            (Ok(_), Err(e)) => e is Infra && (snapshots_trouble(listing@) matches Some(why)
                && e.says() == "unexpected `"@ + ("prlctl snapshot-list "@ + name@ + " --json"@)
                + "` output: "@ + why),
        },
{
    match typed {
        Ok(_) => listed_snapshots(name, listing),
        Err(why) => {
            if text::trimmed(listing).as_str().is_empty() {
                return Ok(Vec::new());
            }
            let mut call = "prlctl snapshot-list ".to_owned();
            call.append(name);
            call.append(" --json");
            Err(unexpected(call.as_str(), why.as_str()))
        },
    }
}

/// The `prlctl` arguments that take a snapshot.
pub fn snapshot_create(name: &str, snap_name: &str) -> (r: Vec<String>)
    ensures
        text::views(r@) == seq!["snapshot"@, name@, "--name"@, snap_name@],
{
    let v = argv(&["snapshot", name, "--name", snap_name], &[]);
    assert(text::views(v@) =~= seq!["snapshot"@, name@, "--name"@, snap_name@]);
    v
}

/// The `prlctl` arguments that roll a VM back, disk and run state both.
pub fn snapshot_switch(name: &str, id: &str) -> (r: Vec<String>)
    ensures
        text::views(r@) == seq!["snapshot-switch"@, name@, "--id"@, id@],
{
    let v = argv(&["snapshot-switch", name, "--id", id], &[]);
    assert(text::views(v@) =~= seq!["snapshot-switch"@, name@, "--id"@, id@]);
    v
}

/// The `prlctl` arguments that delete a snapshot.
pub fn snapshot_delete(name: &str, id: &str) -> (r: Vec<String>)
    ensures
        text::views(r@) == seq!["snapshot-delete"@, name@, "--id"@, id@],
{
    let v = argv(&["snapshot-delete", name, "--id", id], &[]);
    assert(text::views(v@) =~= seq!["snapshot-delete"@, name@, "--id"@, id@]);
    v
}

/// The first braced stretch of `out`: from the first `{` to the first `}` after
/// it, both included.
pub open spec fn braced(out: Seq<char>) -> Option<Seq<char>> {
    let start = text::first_index(out, '{');
    if start < out.len() {
        let end = start + text::first_index(out.skip(start), '}');
        if end < out.len() {
            Some(out.subrange(start, end + 1))
        } else {
            None
        }
    } else {
        None
    }
}

/// The braced id in what `prlctl snapshot` prints.
pub fn parse_snapshot_id(out: &str) -> (r: Option<String>)
    ensures
        text::opt_string(r) == braced(out@),
{
    let v: Vec<char> = text::chars_of(out);
    let start: usize = text::index_from(&v, 0, '{');
    assert(out@.skip(0) =~= out@);
    if start == v.len() {
        return None;
    }
    let end: usize = text::index_from(&v, start, '}');
    if end == v.len() {
        return None;
    }
    Some(text::slice(&v, start, end + 1))
}

proof fn first_at(s: Seq<char>, c: char, i: int)
    requires
        0 <= i < s.len(),
        s[i] == c,
        forall|j: int| 0 <= j < i ==> s[j] != c,
    ensures
        text::first_index(s, c) == i,
{
    text::first_index_is_first(s, c);
}

/// The id is what stands in the first pair of braces, braces and all.
pub proof fn an_id_stands_in_braces(before: Seq<char>, id: Seq<char>, after: Seq<char>)
    requires
        !before.contains('{'),
        !id.contains('}'),
    ensures
        braced(before + seq!['{'] + id + seq!['}'] + after) == Some(seq!['{'] + id + seq!['}']),
        braced(before) is None,
        braced(before + seq!['{'] + id) is None,
{
    let whole = before + seq!['{'] + id + seq!['}'] + after;
    let open = before + seq!['{'] + id;
    let n = before.len() as int;
    assert forall|j: int| 0 <= j < n implies whole[j] != '{' && open[j] != '{' by {
        assert(before.contains(before[j]));
    }
    first_at(whole, '{', n);
    first_at(open, '{', n);
    let rest = whole.skip(n);
    assert forall|j: int| 0 <= j < id.len() + 1 implies rest[j] != '}' by {
        if j > 0 {
            assert(rest[j] == id[j - 1]);
            assert(id.contains(id[j - 1]));
        }
    }
    first_at(rest, '}', id.len() as int + 1);
    let tail = open.skip(n);
    text::first_index_is_first(tail, '}');
    if text::first_index(tail, '}') < tail.len() {
        let j = text::first_index(tail, '}');
        assert(j > 0 && tail[j] == id[j - 1]);
        assert(id.contains(id[j - 1]));
    }
    text::first_index_is_first(before, '{');
    if text::first_index(before, '{') < before.len() {
        assert(before.contains(before[text::first_index(before, '{')]));
    }
    assert(whole.subrange(n, n + id.len() + 2) =~= seq!['{'] + id + seq!['}']);
}

/// The id of a snapshot just taken, out of what `prlctl` printed.
pub fn created_snapshot(out: &str) -> (r: Result<String, Failure>)
    ensures
        match r {
            Ok(id) => braced(out@) == Some(id@),
            Err(e) => braced(out@) is None && e is Infra && e.says()
                == "could not find a snapshot id in prlctl output: "@ + out@,
        },
{
    match parse_snapshot_id(out) {
        Some(id) => Ok(id),
        None => {
            let mut msg = "could not find a snapshot id in prlctl output: ".to_owned();
            msg.append(out);
            Err(infra(msg))
        },
    }
}

/// What a snapshot needs to know of a VM: where it lives on the host's disk, and
/// the size of its memory, which is about the size of the image written.
#[derive(Debug)]
pub struct VmDetails {
    pub home: String,
    pub memory_mb: u64,
}

/// The `prlctl` arguments that describe one VM.
pub fn details(name: &str) -> (r: Vec<String>)
    ensures
        text::views(r@) == seq!["list"@, "-i"@, name@, "--json"@],
{
    let v = argv(&["list", "-i", name, "--json"], &[]);
    assert(text::views(v@) =~= seq!["list"@, "-i"@, name@, "--json"@]);
    v
}

/// `s` without any `Mb` that it ends with.
pub open spec fn without_unit(s: Seq<char>) -> Seq<char>
    decreases s.len(),
{
    if s.len() >= 2 && s[s.len() - 2] == 'M' && s[s.len() - 1] == 'b' {
        without_unit(s.take(s.len() - 2))
    } else {
        s
    }
}

/// The number of megabytes that a memory size spells.
pub open spec fn megabytes(size: Seq<char>) -> Option<nat> {
    text::parsed(without_unit(size), 0x1_0000_0000_0000_0000)
}

/// A memory size is its number of megabytes, with the unit behind it or without.
pub proof fn a_memory_size_is_its_megabytes(n: nat)
    requires
        n <= 0xffff_ffff_ffff_ffff,
    ensures
        megabytes(text::decimal(n) + seq!['M', 'b']) == Some(n),
        megabytes(text::decimal(n)) == Some(n),
{
    text::a_number_reads_back(n, 0x1_0000_0000_0000_0000);
    text::decimal_is_digits(n);
    let s = text::decimal(n);
    let sized = s + seq!['M', 'b'];
    assert(sized.take(sized.len() - 2) =~= s);
    assert(text::is_digit(s[s.len() - 1]));
    assert(without_unit(s) == s);
}

/// The home and the memory size that the text of a VM gives, or what is wrong with
/// it.
pub open spec fn info_in(text: Seq<char>) -> Result<(Seq<char>, Seq<char>), Seq<char>> {
    match json::record_in(text, "Info"@, seq!["Home"@, "Hardware"@], 2, false) {
        Err(e) => Err(e),
        Ok(fields) => match json::text_field(fields, "Home"@) {
            Err(e) => Err(e),
            Ok(home) => match object_field(fields, "Hardware"@, "Hardware"@, "memory"@) {
                Err(e) => Err(e),
                Ok(hardware) => match object_field(hardware, "memory"@, "Memory"@, "size"@) {
                    Err(e) => Err(e),
                    Ok(memory) => match json::text_field(memory, "size"@) {
                        Err(e) => Err(e),
                        Ok(size) => Ok((home, size)),
                    },
                },
            },
        },
    }
}

/// The fields of a record of one field that is itself a field, or what is wrong
/// with it.
pub open spec fn object_field(
    fields: Seq<(Seq<char>, Seq<char>)>,
    key: Seq<char>,
    what: Seq<char>,
    inner: Seq<char>,
) -> Result<Seq<(Seq<char>, Seq<char>)>, Seq<char>> {
    match json::field(fields, key) {
        None => Err(json::missing(key)),
        Some(value) => json::record_in(value, what, seq![inner], 1, false),
    }
}

fn need_object(fields: &[(String, String)], key: &str, what: &str, inner: &str) -> (r: Result<
    Vec<(String, String)>,
    String,
>)
    ensures
        ({
            let read = object_field(json::pairs(fields@), key@, what@, inner@);
            match r {
                Ok(v) => json::ok(read, json::pairs(v@)),
                Err(e) => json::bad(read, e@),
            }
        }),
{
    match json::find(fields, key) {
        None => Err(json::missing_field(key)),
        Some(value) => {
            let keys: [&str; 1] = [inner];
            assert(text::str_views(keys@) =~= seq![inner@]);
            json::read_record(value, what, &keys, 1, false)
        },
    }
}

fn read_info(text: &str) -> (r: Result<(String, String), String>)
    ensures
        match r {
            Ok(info) => json::ok(info_in(text@), (info.0@, info.1@)),
            Err(e) => json::bad(info_in(text@), e@),
        },
{
    let keys: [&str; 2] = ["Home", "Hardware"];
    assert(text::str_views(keys@) =~= seq!["Home"@, "Hardware"@]);
    let fields: Vec<(String, String)> = match json::read_record(text, "Info", &keys, 2, false) {
        Ok(fields) => fields,
        Err(e) => {
            return Err(e);
        },
    };
    let home: String = match json::need_text(&fields, "Home") {
        Ok(s) => s,
        Err(e) => {
            return Err(e);
        },
    };
    let hardware: Vec<(String, String)> = match need_object(
        &fields,
        "Hardware",
        "Hardware",
        "memory",
    ) {
        Ok(v) => v,
        Err(e) => {
            return Err(e);
        },
    };
    let memory: Vec<(String, String)> = match need_object(
        &hardware,
        "memory",
        "Memory",
        "size",
    ) {
        Ok(v) => v,
        Err(e) => {
            return Err(e);
        },
    };
    match json::need_text(&memory, "size") {
        Ok(size) => Ok((home, size)),
        Err(e) => Err(e),
    }
}

/// What is wrong with the first of some texts that gives no home and memory size.
pub open spec fn first_info_trouble(items: Seq<Seq<char>>) -> Option<Seq<char>>
    decreases items.len(),
{
    if items.len() == 0 {
        None
    } else {
        match info_in(items[0]) {
            Err(e) => Some(e),
            Ok(_) => first_info_trouble(items.skip(1)),
        }
    }
}

/// What the details of a VM come to: its home and its memory in megabytes, from
/// the last of the VMs in a text, or what is wrong with it.
pub open spec fn details_in(text: Seq<char>) -> Result<(Seq<char>, nat), Seq<char>> {
    match json::elements_in(text) {
        Err(e) => Err(e),
        Ok(items) => match first_info_trouble(items) {
            Some(e) => Err(e),
            None => if items.len() == 0 {
                Err("empty VM info list"@)
            } else {
                let info = info_in(items.last())->Ok_0;
                match megabytes(info.1) {
                    Some(mb) => Ok((info.0, mb)),
                    None => Err(
                        "cannot parse memory size '"@ + info.1 + "': "@ + text::number_complaint(
                            without_unit(info.1),
                        ),
                    ),
                }
            },
        },
    }
}

/// The details of a VM, or what is wrong with the text that gives them.
pub fn parse_details(listing: &str) -> (r: Result<VmDetails, String>)
    ensures
        match r {
            Ok(d) => json::ok(details_in(listing@), (d.home@, d.memory_mb as nat)),
            Err(e) => json::bad(details_in(listing@), e@),
        },
{
    let items: Vec<String> = match json::read_elements(listing) {
        Ok(items) => items,
        Err(e) => {
            return Err(e);
        },
    };
    let ghost all = text::views(items@);
    let mut last: Option<(String, String)> = None;
    let mut i: usize = 0;
    assert(all.skip(0) =~= all);
    while i < items.len()
        invariant
            i <= items@.len(),
            all == text::views(items@),
            json::ok(json::elements_in(listing@), all),
            first_info_trouble(all) == first_info_trouble(all.skip(i as int)),
            i == 0 ==> last is None,
            i > 0 ==> (last matches Some(info) && json::ok(
                info_in(all[i - 1]),
                (info.0@, info.1@),
            )),
        decreases items@.len() - i,
    {
        assert(all.skip(i as int)[0] == items@[i as int]@);
        match read_info(items[i].as_str()) {
            Ok(info) => {
                last = Some(info);
            },
            Err(e) => {
                return Err(e);
            },
        }
        assert(all.skip(i as int).skip(1) =~= all.skip(i + 1));
        i = i + 1;
    }
    let (home, size): (String, String) = match last {
        Some(info) => info,
        None => {
            return Err("empty VM info list".to_owned());
        },
    };
    assert(all.last() == all[i - 1]);
    let v: Vec<char> = text::chars_of(size.as_str());
    let mut end: usize = v.len();
    assert(v@.take(end as int) =~= v@);
    while end >= 2 && v[end - 2] == 'M' && v[end - 1] == 'b'
        invariant
            end <= v@.len(),
            without_unit(v@) == without_unit(v@.take(end as int)),
        decreases end,
    {
        assert(v@.take(end as int).take(end - 2) =~= v@.take(end - 2));
        end = end - 2;
    }
    let number = text::slice(&v, 0, end);
    assert(number@ =~= v@.take(end as int));
    match text::number(number.as_str()) {
        Ok(memory_mb) => Ok(VmDetails { home, memory_mb }),
        Err(why) => {
            let mut msg = "cannot parse memory size '".to_owned();
            msg.append(size.as_str());
            msg.append("': ");
            msg.append(why.as_str());
            Err(msg)
        },
    }
}

/// The details that `prlctl` gave of a VM, or what is wrong with them.
pub fn listed_details(name: &str, listing: &str) -> (r: Result<VmDetails, Failure>)
    ensures
        match r {
            Ok(d) => json::ok(details_in(listing@), (d.home@, d.memory_mb as nat)),
            Err(e) => e is Infra && (details_in(listing@) matches Err(why) && e.says()
                == "unexpected `"@ + ("prlctl list -i "@ + name@ + " --json"@) + "` output: "@
                + why),
        },
{
    match parse_details(listing) {
        Ok(d) => Ok(d),
        Err(why) => {
            let mut call = "prlctl list -i ".to_owned();
            call.append(name);
            call.append(" --json");
            Err(unexpected(call.as_str(), why.as_str()))
        },
    }
}

/// The details that `prlctl` gave of a VM, where a parse into typed records took
/// them. Where it did not, its complaint stands: it says where in them it is.
pub fn placed_details(name: &str, listing: &str, typed: Result<(), String>) -> (r: Result<
    VmDetails,
    Failure,
>)
    ensures
        match typed {
            Ok(_) => match r {
                Ok(d) => json::ok(details_in(listing@), (d.home@, d.memory_mb as nat)),
                Err(e) => e is Infra && (details_in(listing@) matches Err(why) && e.says()
                    == "unexpected `"@ + ("prlctl list -i "@ + name@ + " --json"@) + "` output: "@
                    + why),
            },
            Err(why) => r matches Err(e) && e is Infra && e.says() == "unexpected `"@ + (
            "prlctl list -i "@ + name@ + " --json"@) + "` output: "@ + why@,
        },
{
    match typed {
        Ok(_) => listed_details(name, listing),
        Err(why) => {
            let mut call = "prlctl list -i ".to_owned();
            call.append(name);
            call.append(" --json");
            Err(unexpected(call.as_str(), why.as_str()))
        },
    }
}

/// Whether a refusal means that the guest's exec session is not open yet, which
/// is a wake to wait out rather than a failure.
pub fn is_session_not_ready(stderr: &str) -> (r: bool)
    ensures
        r == text::contains(stderr@, "Unable to open new session"@),
{
    text::has(stderr, "Unable to open new session")
}

/// A listing is its VMs, each read from its own element and in their order; the first that
/// cannot be read is what is said of the listing.
pub proof fn a_listing_is_its_vms(
    text: Seq<char>,
    items: Seq<Seq<char>>,
    vms: Seq<PrlVm>,
    i: int,
)
    requires
        json::ok(json::elements_in(text), items),
    ensures
        lists(text, vms) ==> vms.len() == items.len() && (0 <= i < items.len() ==> vm_reads_as(
            items[i],
            vms[i],
        )),
        (forall|j: int| 0 <= j < items.len() ==> vm_trouble(#[trigger] items[j]) is None)
            ==> listing_trouble(text) is None,
        0 <= i < items.len() && vm_trouble(items[i]) is Some && (forall|j: int|
            0 <= j < i ==> vm_trouble(#[trigger] items[j]) is None) ==> listing_trouble(text)
            == vm_trouble(items[i]),
{
    if forall|j: int| 0 <= j < items.len() ==> vm_trouble(#[trigger] items[j]) is None {
        every_vm_is_in_order(items);
    }
    if 0 <= i < items.len() && vm_trouble(items[i]) is Some && (forall|j: int|
        0 <= j < i ==> vm_trouble(#[trigger] items[j]) is None) {
        the_first_vm_in_trouble(items, i);
    }
}

proof fn every_vm_is_in_order(items: Seq<Seq<char>>)
    requires
        forall|j: int| 0 <= j < items.len() ==> vm_trouble(#[trigger] items[j]) is None,
    ensures
        first_trouble(items) is None,
    decreases items.len(),
{
    if items.len() > 0 {
        let tail = items.skip(1);
        assert(vm_trouble(items[0]) is None);
        assert forall|j: int| 0 <= j < tail.len() implies vm_trouble(#[trigger] tail[j]) is None by {
            assert(tail[j] == items[j + 1]);
        }
        every_vm_is_in_order(tail);
    }
}

proof fn the_first_vm_in_trouble(items: Seq<Seq<char>>, i: int)
    requires
        0 <= i < items.len(),
        vm_trouble(items[i]) is Some,
        forall|j: int| 0 <= j < i ==> vm_trouble(#[trigger] items[j]) is None,
    ensures
        first_trouble(items) == vm_trouble(items[i]),
    decreases i,
{
    if i > 0 {
        let tail = items.skip(1);
        assert(vm_trouble(items[0]) is None);
        assert(tail[i - 1] == items[i]);
        assert forall|j: int| 0 <= j < i - 1 implies vm_trouble(#[trigger] tail[j]) is None by {
            assert(tail[j] == items[j + 1]);
        }
        the_first_vm_in_trouble(tail, i - 1);
    }
}

/// The VM that is found by a name is the first of that name.
pub proof fn the_first_of_a_name_is_found(vms: Seq<PrlVm>, name: Seq<char>, i: int, j: int)
    requires
        first_named(vms, name, i),
    ensures
        0 <= i < vms.len(),
        vms[i].name@ == name,
        0 <= j < i ==> vms[j].name@ != name,
        first_named(vms, name, j) ==> i == j,
{
}

/// The details of a VM are in its object: the home, and the size of the memory two objects
/// further in. Of several objects the last is taken, and the size is read as megabytes.
pub proof fn details_are_read_from_the_last_object(
    text: Seq<char>,
    items: Seq<Seq<char>>,
    home: Seq<char>,
    size: Seq<char>,
    mb: nat,
)
    requires
        json::ok(json::elements_in(text), items),
        items.len() > 0,
        forall|j: int| 0 <= j < items.len() ==> info_in(#[trigger] items[j]) is Ok,
        json::ok(info_in(items.last()), (home, size)),
    ensures
        megabytes(size) == Some(mb) ==> json::ok(details_in(text), (home, mb)),
        megabytes(size) is None ==> details_in(text) is Err,
{
    every_object_is_in_order(items);
}

proof fn every_object_is_in_order(items: Seq<Seq<char>>)
    requires
        forall|j: int| 0 <= j < items.len() ==> info_in(#[trigger] items[j]) is Ok,
    ensures
        first_info_trouble(items) is None,
    decreases items.len(),
{
    if items.len() > 0 {
        let tail = items.skip(1);
        assert(info_in(items[0]) is Ok);
        assert forall|j: int| 0 <= j < tail.len() implies info_in(#[trigger] tail[j]) is Ok by {
            assert(tail[j] == items[j + 1]);
        }
        every_object_is_in_order(tail);
    }
}

/// Where a VM's home and memory stand: in `Home`, and in `size` of `memory` of `Hardware`.
pub proof fn memory_is_found_in_the_hardware(
    text: Seq<char>,
    home: Seq<char>,
    hardware: Seq<char>,
    memory: Seq<char>,
    size: Seq<char>,
)
    requires
        json::ok(json::members_in(text), seq![("Home"@, home), ("Hardware"@, hardware)]),
        json::ok(json::members_in(hardware), seq![("memory"@, memory)]),
        json::ok(json::members_in(memory), seq![("size"@, size)]),
        json::string_in(home) is Ok,
        json::string_in(size) is Ok,
    ensures
        json::ok(info_in(text), (json::string_in(home)->Ok_0, json::string_in(size)->Ok_0)),
{
    reveal_strlit("Home");
    reveal_strlit("Hardware");
    assert("Home"@.len() != "Hardware"@.len());
    let outer = seq![("Home"@, home), ("Hardware"@, hardware)];
    let middle = seq![("memory"@, memory)];
    let inner = seq![("size"@, size)];
    assert(json::distinct(outer) && json::distinct(middle) && json::distinct(inner));
    json::distinct_never_repeat(outer, seq!["Home"@, "Hardware"@]);
    json::distinct_never_repeat(middle, seq!["memory"@]);
    json::distinct_never_repeat(inner, seq!["size"@]);
    json::field_at(outer, 0);
    json::field_at(outer, 1);
    json::field_at(middle, 0);
    json::field_at(inner, 0);
}

/// What is said while a VM is waited for, and where it cannot be used, names the VM and the
/// status that it has, and times in whole seconds.
pub proof fn a_wait_is_told_in_seconds(
    alias: Seq<char>,
    name: Seq<char>,
    status: Seq<char>,
    waited: nat,
    limit: nat,
)
    ensures
        still_waiting(alias, name, status, waited as int * 1_000_000_000, limit as int * 1_000_000_000)
            == "vm ▸ "@ + alias + " ▸ '"@ + name + "' "@ + status + ", no IP yet — "@
            + text::decimal(waited) + "s of "@ + text::decimal(limit) + "s"@,
        no_address(name, status, limit as int * 1_000_000_000) == "VM '"@ + name + "' is "@ + status
            + " but did not report an IP within "@ + text::decimal(limit)
            + "s — the guest may still be booting, or Parallels Tools isn't running in it"@,
        stuck_stopping(name, waited as int * 1_000_000_000) == "VM '"@ + name
            + "' is still stopping after "@ + text::decimal(waited)
            + "s — a shutdown is not landing, and vm does not start a VM on its way down (see `prlctl list -a`)"@,
        text::contains(unexpected_state(name, status), name),
        text::contains(unexpected_state(name, status), status),
        text::contains(about(alias, name, status), name),
{
    assert((waited as int * 1_000_000_000) / 1_000_000_000 == waited);
    assert((limit as int * 1_000_000_000) / 1_000_000_000 == limit);
    let none = Seq::<char>::empty();
    let tail = "' — expected running, stopped, suspended, or paused (see `prlctl list -a`)"@;
    let middle = "' is in unexpected state '"@;
    assert(unexpected_state(name, status) =~= "VM '"@ + name + (middle + status + tail));
    text::what_is_contained_is_there("VM '"@, name, middle + status + tail);
    text::what_is_contained_is_there("VM '"@ + name + middle, status, tail);
    assert(about(alias, name, status) =~= ("vm ▸ "@ + alias + " ▸ '"@) + name + ("' is "@ + status));
    text::what_is_contained_is_there("vm ▸ "@ + alias + " ▸ '"@, name, "' is "@ + status);
}

/// Snapshots are listed by ascending ids, each once.
pub proof fn snapshots_are_listed_by_their_ids(snaps: Seq<(String, String)>, i: int, j: int)
    requires
        ids_ascend(snaps),
        0 <= i < j < snaps.len(),
    ensures
        text::less(snaps[i].0@, snaps[j].0@),
        snaps[i].0@ != snaps[j].0@,
{
    text::less_is_irreflexive(snaps[i].0@);
}

/// A listing of snapshots is its entries, each read as one snapshot and in their order; it is
/// in order exactly where each entry is.
pub proof fn every_entry_is_a_snapshot(
    text: Seq<char>,
    entries: Seq<(Seq<char>, Seq<char>)>,
    snaps: Seq<(String, String)>,
    i: int,
)
    requires
        text::trim(text).len() > 0,
        json::ok(json::entries_in(text), entries),
    ensures
        lists_snapshots(text, snaps) ==> snaps.len() == entries.len() && (0 <= i < entries.len()
            ==> entry_reads_as(entries[i], snaps[i])),
        (forall|j: int| 0 <= j < entries.len() ==> entry_trouble((#[trigger] entries[j]).1) is None)
            ==> snapshots_trouble(text) is None,
        0 <= i < entries.len() && entry_trouble(entries[i].1) is Some && (forall|j: int|
            0 <= j < i ==> entry_trouble((#[trigger] entries[j]).1) is None) ==> snapshots_trouble(
            text,
        ) == entry_trouble(entries[i].1),
{
    if lists_snapshots(text, snaps) && 0 <= i < entries.len() {
        assert(entry_reads_as(entries[i], snaps[i]));
    }
    if forall|j: int| 0 <= j < entries.len() ==> entry_trouble((#[trigger] entries[j]).1) is None {
        every_entry_is_in_order(entries);
    }
    if 0 <= i < entries.len() && entry_trouble(entries[i].1) is Some && (forall|j: int|
        0 <= j < i ==> entry_trouble((#[trigger] entries[j]).1) is None) {
        the_first_entry_in_trouble(entries, i);
    }
}

proof fn every_entry_is_in_order(entries: Seq<(Seq<char>, Seq<char>)>)
    requires
        forall|j: int| 0 <= j < entries.len() ==> entry_trouble((#[trigger] entries[j]).1) is None,
    ensures
        first_entry_trouble(entries) is None,
    decreases entries.len(),
{
    if entries.len() > 0 {
        let tail = entries.skip(1);
        assert(entry_trouble(entries[0].1) is None);
        assert forall|j: int| 0 <= j < tail.len() implies entry_trouble(
            (#[trigger] tail[j]).1,
        ) is None by {
            assert(tail[j] == entries[j + 1]);
        }
        every_entry_is_in_order(tail);
    }
}

proof fn the_first_entry_in_trouble(entries: Seq<(Seq<char>, Seq<char>)>, i: int)
    requires
        0 <= i < entries.len(),
        entry_trouble(entries[i].1) is Some,
        forall|j: int| 0 <= j < i ==> entry_trouble((#[trigger] entries[j]).1) is None,
    ensures
        first_entry_trouble(entries) == entry_trouble(entries[i].1),
    decreases i,
{
    if i > 0 {
        let tail = entries.skip(1);
        assert(entry_trouble(entries[0].1) is None);
        assert(tail[i - 1] == entries[i]);
        assert forall|j: int| 0 <= j < i - 1 implies entry_trouble(
            (#[trigger] tail[j]).1,
        ) is None by {
            assert(tail[j] == entries[j + 1]);
        }
        the_first_entry_in_trouble(tail, i - 1);
    }
}

/// A VM may be given as a list too, in the order of its fields.
pub proof fn a_vm_may_be_a_list(text: Seq<char>, items: Seq<Seq<char>>, vm: PrlVm)
    requires
        json::members_in(text) is Err,
        json::ok(json::elements_in(text), items),
    ensures
        items.len() < 4 ==> vm_trouble(text) is Some,
        items.len() > 4 ==> vm_trouble(text) is Some,
        items.len() == 4 ==> (vm_reads_as(text, vm) <==> json::ok(
            json::string_in(items[0]),
            vm.uuid@,
        ) && json::ok(json::string_in(items[1]), vm.status@) && json::ok(
            json::string_in(items[2]),
            vm.ip_configured@,
        ) && json::ok(json::string_in(items[3]), vm.name@)),
{
    reveal_strlit("uuid");
    reveal_strlit("status");
    reveal_strlit("ip_configured");
    reveal_strlit("name");
    if items.len() == 4 {
        let keys = seq!["uuid"@, "status"@, "ip_configured"@, "name"@];
        let fields = json::under_keys(keys, items);
        assert("uuid"@[0] == 'u' && "status"@[0] == 's' && "ip_configured"@[0] == 'i' && "name"@[0]
            == 'n');
        assert(fields[0] == (keys[0], items[0]) && fields[1] == (keys[1], items[1]) && fields[2] == (
            keys[2],
            items[2],
        ) && fields[3] == (keys[3], items[3]));
        assert(json::distinct(fields));
        json::field_at(fields, 0);
        json::field_at(fields, 1);
        json::field_at(fields, 2);
        json::field_at(fields, 3);
    }
}

} // verus!
