//! Whether a process can reach the accessibility interface of the system it runs
//! on and read a populated tree there, and if not, what is missing.

pub mod linux;
pub mod mac;
pub mod win;

use crate::text;
use vstd::prelude::*;

verus! {

/// How a check went.
#[derive(Debug, Clone, Copy, PartialEq, Eq, Structural)]
pub enum Status {
    Pass,
    /// The interface cannot be reached, or something it needs is missing.
    Fail,
    /// An observation. It explains a failure; it is none.
    Info,
}

/// A check: what was looked at, how it went, and what was found.
#[derive(Debug)]
pub struct Check {
    pub name: String,
    pub status: Status,
    pub detail: String,
}

impl Check {
    /// Whether the check is this one.
    pub open spec fn reads(self, name: Seq<char>, status: Status, detail: Seq<char>) -> bool {
        self.name@ == name && self.status == status && self.detail@ == detail
    }

    /// The line that a check is printed as.
    pub open spec fn line(self) -> Seq<char> {
        (match self.status {
            Status::Pass => "PASS"@,
            Status::Fail => "FAIL"@,
            Status::Info => "info"@,
        }) + "  "@ + self.name@ + ": "@ + self.detail@
    }

    /// The line that a check is printed as.
    pub fn text(&self) -> (r: String)
        ensures
            r@ == self.line(),
    {
        let mut out = match self.status {
            Status::Pass => "PASS".to_owned(),
            Status::Fail => "FAIL".to_owned(),
            Status::Info => "info".to_owned(),
        };
        out.append("  ");
        out.append(self.name.as_str());
        out.append(": ");
        out.append(self.detail.as_str());
        out
    }
}

pub(crate) fn check(name: &str, status: Status, detail: &str) -> (r: Check)
    ensures
        r.reads(name@, status, detail@),
{
    Check { name: name.to_owned(), status, detail: detail.to_owned() }
}

pub(crate) fn three(a: &str, b: &str, c: &str) -> (r: String)
    ensures
        r@ == a@ + b@ + c@,
{
    let mut out = a.to_owned();
    out.append(b);
    out.append(c);
    out
}

/// The checks made so far, in their order.
#[derive(Debug)]
pub struct Report {
    pub checks: Vec<Check>,
}

/// Whether no check failed.
pub open spec fn ready(checks: Seq<Check>) -> bool {
    forall|i: int| 0 <= i < checks.len() ==> (#[trigger] checks[i]).status != Status::Fail
}

/// The lines that a report is printed as.
pub open spec fn printed(checks: Seq<Check>) -> Seq<Seq<char>> {
    checks.map_values(|c: Check| c.line()) + seq![
        Seq::empty(),
        if ready(checks) {
            "a11y-probe ▸ OK — accessibility API reachable and populated"@
        } else {
            "a11y-probe ▸ NOT READY — see FAIL lines above"@
        },
    ]
}

impl Report {
    /// A report without a check.
    pub fn new() -> (r: Report)
        ensures
            r.checks@.len() == 0,
    {
        Report { checks: Vec::new() }
    }

    /// Adds some checks.
    pub fn extend(&mut self, more: Vec<Check>)
        ensures
            final(self).checks@ == old(self).checks@ + more@,
    {
        let ghost before = self.checks@;
        let mut more = more;
        let ghost all = more@;
        self.checks.append(&mut more);
        assert(self.checks@ =~= before + all);
    }

    /// Adds a check that passed.
    pub fn pass(&mut self, name: &str, detail: &str)
        ensures
            final(self).checks@.drop_last() == old(self).checks@,
            final(self).checks@.len() == old(self).checks@.len() + 1,
            final(self).checks@.last().reads(name@, Status::Pass, detail@),
    {
        self.checks.push(check(name, Status::Pass, detail));
        assert(self.checks@.drop_last() =~= old(self).checks@);
    }

    /// Adds a check that failed.
    pub fn fail(&mut self, name: &str, detail: &str)
        ensures
            final(self).checks@.drop_last() == old(self).checks@,
            final(self).checks@.len() == old(self).checks@.len() + 1,
            final(self).checks@.last().reads(name@, Status::Fail, detail@),
    {
        self.checks.push(check(name, Status::Fail, detail));
        assert(self.checks@.drop_last() =~= old(self).checks@);
    }

    /// Adds an observation.
    pub fn info(&mut self, name: &str, detail: &str)
        ensures
            final(self).checks@.drop_last() == old(self).checks@,
            final(self).checks@.len() == old(self).checks@.len() + 1,
            final(self).checks@.last().reads(name@, Status::Info, detail@),
    {
        self.checks.push(check(name, Status::Info, detail));
        assert(self.checks@.drop_last() =~= old(self).checks@);
    }

    /// Whether no check failed.
    pub fn ok(&self) -> (r: bool)
        ensures
            r == ready(self.checks@),
    {
        let mut i: usize = 0;
        while i < self.checks.len()
            invariant
                i <= self.checks@.len(),
                forall|j: int|
                    0 <= j < i ==> (#[trigger] self.checks@[j]).status != Status::Fail,
            decreases self.checks@.len() - i,
        {
            if self.checks[i].status == Status::Fail {
                return false;
            }
            i = i + 1;
        }
        true
    }

    /// The lines that the report is printed as.
    pub fn print(&self) -> (r: Vec<String>)
        ensures
            text::views(r@) == printed(self.checks@),
    {
        let mut out: Vec<String> = Vec::new();
        let ghost f = |c: Check| c.line();
        let mut i: usize = 0;
        assert(text::views(out@) =~= self.checks@.take(0).map_values(f));
        while i < self.checks.len()
            invariant
                i <= self.checks@.len(),
                f == (|c: Check| c.line()),
                text::views(out@) == self.checks@.take(i as int).map_values(f),
            decreases self.checks@.len() - i,
        {
            let ghost before = out@;
            let line = self.checks[i].text();
            out.push(line);
            assert(text::views(out@) =~= text::views(before).push(line@));
            assert(self.checks@.take(i + 1).map_values(f) =~= self.checks@.take(
                i as int,
            ).map_values(f).push(f(self.checks@[i as int])));
            i = i + 1;
        }
        assert(self.checks@.take(i as int) =~= self.checks@);
        let ghost before = out@;
        out.push(String::new());
        let last = if self.ok() {
            "a11y-probe ▸ OK — accessibility API reachable and populated".to_owned()
        } else {
            "a11y-probe ▸ NOT READY — see FAIL lines above".to_owned()
        };
        out.push(last);
        assert(text::views(out@) =~= printed(self.checks@));
        out
    }
}

/// An observation never changes whether a probe is ready.
pub proof fn observations_do_not_decide(checks: Seq<Check>, c: Check)
    requires
        c.status == Status::Info,
    ensures
        ready(checks.push(c)) == ready(checks),
{
    let more = checks.push(c);
    if ready(more) {
        assert forall|i: int| 0 <= i < checks.len() implies (#[trigger] checks[i]).status
            != Status::Fail by {
            assert(more[i] == checks[i]);
        }
    }
}

/// A failed check is never made up for.
pub proof fn a_failure_stays(checks: Seq<Check>, more: Seq<Check>)
    requires
        !ready(checks),
    ensures
        !ready(checks + more),
{
    let i = choose|i: int| 0 <= i < checks.len() && (#[trigger] checks[i]).status == Status::Fail;
    assert((checks + more)[i] == checks[i]);
}

/// How long a window is looked for.
pub const WINDOW_TIMEOUT: u128 = 10_000_000_000;

/// How long a probe waits between two looks for its window, in milliseconds.
pub const WINDOW_POLL_MS: u64 = 200;

/// Whether a window that was not found is looked for again.
pub fn look_again(waited: u128) -> (r: bool)
    ensures
        r == (waited < WINDOW_TIMEOUT),
{
    waited < WINDOW_TIMEOUT
}

/// A probe is ready exactly where no check failed, and says so in its last line; each check
/// is printed with its verdict, its name and what it found.
pub proof fn a_probe_is_ready_without_failures(checks: Seq<Check>, c: Check, i: int)
    ensures
        ready(Seq::empty()),
        ready(checks.push(c)) <==> ready(checks) && c.status != Status::Fail,
        printed(checks).len() == checks.len() + 2,
        0 <= i < checks.len() ==> printed(checks)[i] == checks[i].line(),
        ready(checks) ==> printed(checks).last()
            == "a11y-probe ▸ OK — accessibility API reachable and populated"@,
        !ready(checks) ==> printed(checks).last()
            == "a11y-probe ▸ NOT READY — see FAIL lines above"@,
        c.status == Status::Pass ==> c.line() == "PASS"@ + "  "@ + c.name@ + ": "@ + c.detail@,
        c.status == Status::Fail ==> c.line() == "FAIL"@ + "  "@ + c.name@ + ": "@ + c.detail@,
        c.status == Status::Info ==> c.line() == "info"@ + "  "@ + c.name@ + ": "@ + c.detail@,
{
    let more = checks.push(c);
    if ready(more) {
        assert(more[checks.len() as int] == c);
        assert forall|j: int| 0 <= j < checks.len() implies (#[trigger] checks[j]).status
            != Status::Fail by {
            assert(more[j] == checks[j]);
        }
    }
    if ready(checks) && c.status != Status::Fail {
        assert forall|j: int| 0 <= j < more.len() implies (#[trigger] more[j]).status
            != Status::Fail by {
            if j < checks.len() {
                assert(more[j] == checks[j]);
            }
        }
    }
}

/// A window is waited for ten seconds.
pub proof fn a_window_is_waited_for_ten_seconds()
    ensures
        WINDOW_TIMEOUT == 10 * 1_000_000_000,
        WINDOW_POLL_MS == 200,
{
}

/// A check reads as its name, its verdict and what it found, all three.
pub proof fn a_check_reads_as_what_it_is(
    c: Check,
    name: Seq<char>,
    status: Status,
    detail: Seq<char>,
)
    ensures
        c.reads(name, status, detail) <==> c.name@ == name && c.status == status && c.detail@
            == detail,
        c.reads(c.name@, c.status, c.detail@),
{
}

} // verus!
