//! `vm doctor`: the setup of host and guests, one check per line.
//!
//! A bare `vm doctor` surveys every configured VM and brings none up; one that
//! names a VM brings it up, because the checks worth having are the live ones.

use crate::agent::Agent;
use crate::commands;
use crate::config::{self, Config, GuestOs, VmConfig};
use crate::exit::{infra, Failure};
use crate::journal::Say;
use crate::prl;
use crate::prldnd;
use crate::process::{self, Output};
use crate::proto::{self, VersionInfo};
use crate::ssh::{self, SshTarget};
use crate::sync::git::owned;
use crate::text;
use vstd::prelude::*;

verus! {

// ── The report ───────────────────────────────────────────────────────────────

/// One line of a diagnosis.
#[derive(Debug)]
pub enum Line {
    /// What the following checks are about.
    Heading(String),
    /// A check that passed: what was checked, and what was found.
    Pass(String, String),
    /// A check that failed.
    Fail(String, String),
    /// A check that was not made.
    Skip(String, String),
}

impl Line {
    /// What the line says.
    pub open spec fn says(self) -> Seq<char> {
        match self {
            Line::Heading(h) => h@,
            Line::Pass(what, detail) => "  ✓ "@ + what@ + ": "@ + detail@,
            Line::Fail(what, detail) => "  ✗ "@ + what@ + ": "@ + detail@,
            Line::Skip(what, detail) => "  - "@ + what@ + ": "@ + detail@,
        }
    }

    /// Whether the line is a passed check of `what`, with this detail.
    pub open spec fn passes(self, what: Seq<char>, detail: Seq<char>) -> bool {
        self matches Line::Pass(w, d) && w@ == what && d@ == detail
    }

    /// Whether the line is a failed check of `what`, with this detail.
    pub open spec fn fails(self, what: Seq<char>, detail: Seq<char>) -> bool {
        self matches Line::Fail(w, d) && w@ == what && d@ == detail
    }

    /// Whether the line is a check of `what` that was not made, with this detail.
    pub open spec fn skips(self, what: Seq<char>, detail: Seq<char>) -> bool {
        self matches Line::Skip(w, d) && w@ == what && d@ == detail
    }

    /// What the line says.
    pub fn text(&self) -> (r: String)
        ensures
            r@ == self.says(),
    {
        match self {
            Line::Heading(h) => h.as_str().to_owned(),
            Line::Pass(what, detail) => {
                let mut out = "  ✓ ".to_owned();
                out.append(what.as_str());
                out.append(": ");
                out.append(detail.as_str());
                out
            },
            Line::Fail(what, detail) => {
                let mut out = "  ✗ ".to_owned();
                out.append(what.as_str());
                out.append(": ");
                out.append(detail.as_str());
                out
            },
            Line::Skip(what, detail) => {
                let mut out = "  - ".to_owned();
                out.append(what.as_str());
                out.append(": ");
                out.append(detail.as_str());
                out
            },
        }
    }
}

/// How many lines report a failed check.
pub open spec fn problems(lines: Seq<Line>) -> nat
    decreases lines.len(),
{
    if lines.len() == 0 {
        0
    } else {
        problems(lines.drop_last()) + (if lines.last() is Fail {
            1nat
        } else {
            0nat
        })
    }
}

/// A diagnosis so far.
#[derive(Debug)]
pub struct Report {
    pub lines: Vec<Line>,
}

impl Report {
    /// A diagnosis without a line.
    pub fn new() -> (r: Report)
        ensures
            r.lines@.len() == 0,
    {
        Report { lines: Vec::new() }
    }

    /// Adds a passed check.
    pub fn ok(&mut self, what: &str, detail: &str)
        ensures
            final(self).lines@.drop_last() == old(self).lines@,
            final(self).lines@.len() == old(self).lines@.len() + 1,
            final(self).lines@.last().passes(what@, detail@),
    {
        self.lines.push(pass(what, detail));
        assert(self.lines@.drop_last() =~= old(self).lines@);
    }

    /// Adds a failed check.
    pub fn fail(&mut self, what: &str, detail: &str)
        ensures
            final(self).lines@.drop_last() == old(self).lines@,
            final(self).lines@.len() == old(self).lines@.len() + 1,
            final(self).lines@.last().fails(what@, detail@),
    {
        self.lines.push(fail(what, detail));
        assert(self.lines@.drop_last() =~= old(self).lines@);
    }

    /// Adds a check that was not made.
    pub fn skip(&mut self, what: &str, detail: &str)
        ensures
            final(self).lines@.drop_last() == old(self).lines@,
            final(self).lines@.len() == old(self).lines@.len() + 1,
            final(self).lines@.last().skips(what@, detail@),
    {
        self.lines.push(skip(what, detail));
        assert(self.lines@.drop_last() =~= old(self).lines@);
    }

    /// How many checks failed.
    pub fn failures(&self) -> (r: usize)
        ensures
            r == problems(self.lines@),
    {
        let mut n: usize = 0;
        let mut i: usize = 0;
        assert(self.lines@.take(0) =~= Seq::<Line>::empty());
        while i < self.lines.len()
            invariant
                i <= self.lines@.len(),
                n <= i,
                n == problems(self.lines@.take(i as int)),
            decreases self.lines@.len() - i,
        {
            assert(self.lines@.take(i + 1).drop_last() =~= self.lines@.take(i as int));
            if let Line::Fail(_, _) = &self.lines[i] {
                n = n + 1;
            }
            i = i + 1;
        }
        assert(self.lines@.take(i as int) =~= self.lines@);
        n
    }

    /// How a diagnosis ends: with code 1 where any check failed, and with the
    /// verdict. The count of problems is shown to a quiet run too.
    pub fn conclude(&self) -> (r: (i32, Say))
        ensures
            r.0 == (if problems(self.lines@) == 0 {
                0int
            } else {
                1int
            }),
            if problems(self.lines@) == 0 {
                r.1 matches Say::Crumb(line) && line@ == "vm ▸ doctor ▸ all checks passed"@
            } else {
                r.1 matches Say::Notice(line) && line@ == "vm ▸ doctor ▸ "@ + text::decimal(
                    problems(self.lines@),
                ) + " problem(s)"@
            },
    {
        let n: usize = self.failures();
        if n == 0 {
            return (0, Say::Crumb("vm ▸ doctor ▸ all checks passed".to_owned()));
        }
        let mut line = "vm ▸ doctor ▸ ".to_owned();
        line.append(text::to_decimal(n as u128).as_str());
        line.append(" problem(s)");
        (1, Say::Notice(line))
    }
}

fn pass(what: &str, detail: &str) -> (r: Line)
    ensures
        r.passes(what@, detail@),
{
    Line::Pass(what.to_owned(), detail.to_owned())
}

fn fail(what: &str, detail: &str) -> (r: Line)
    ensures
        r.fails(what@, detail@),
{
    Line::Fail(what.to_owned(), detail.to_owned())
}

fn skip(what: &str, detail: &str) -> (r: Line)
    ensures
        r.skips(what@, detail@),
{
    Line::Skip(what.to_owned(), detail.to_owned())
}

/// A diagnosis exits with zero exactly where no line of it reports a failure.
pub proof fn clean_bill_has_no_failed_line(lines: Seq<Line>)
    ensures
        problems(lines) == 0 <==> forall|i: int|
            0 <= i < lines.len() ==> !(#[trigger] lines[i] is Fail),
    decreases lines.len(),
{
    if lines.len() > 0 {
        let front = lines.drop_last();
        clean_bill_has_no_failed_line(front);
        assert(lines[lines.len() - 1] == lines.last());
        assert forall|i: int| 0 <= i < front.len() implies front[i] == lines[i] by {}
        if problems(lines) == 0 {
            assert forall|i: int| 0 <= i < lines.len() implies !(#[trigger] lines[i] is Fail) by {
                if i < front.len() {
                    assert(front[i] == lines[i]);
                }
            }
        }
    }
}

// ── The host ─────────────────────────────────────────────────────────────────

/// What is reported of Parallels.
pub open spec fn prlctl_check_says(listed: Result<usize, &Failure>, r: Line) -> bool {
    match listed {
        Ok(n) => r.passes("prlctl"@, text::decimal(n as nat) + " VMs registered"@),
        Err(e) => r.fails("prlctl"@, e.says()),
    }
}

/// Whether Parallels answers, and with how many VMs.
pub fn prlctl_check(listed: Result<usize, &Failure>) -> (r: Line)
    ensures
        prlctl_check_says(listed, r),
{
    match listed {
        Ok(n) => {
            let mut detail = text::to_decimal(n as u128);
            detail.append(" VMs registered");
            pass("prlctl", detail.as_str())
        },
        Err(e) => fail("prlctl", e.text()),
    }
}

/// Whether there is a configuration, and what it configures.
pub fn config_check(path: &str, loaded: Result<&[String], &Failure>) -> (r: Line)
    ensures
        match loaded {
            Ok(aliases) => r.passes(
                "config"@,
                path@ + " ("@ + text::joined(text::views(aliases@), ", "@) + ")"@,
            ),
            Err(e) => r.fails("config"@, e.says()),
        },
{
    match loaded {
        Ok(aliases) => {
            let mut detail = path.to_owned();
            detail.append(" (");
            detail.append(text::join(aliases, ", ").as_str());
            detail.append(")");
            pass("config", detail.as_str())
        },
        Err(e) => fail("config", e.text()),
    }
}

/// What is reported of the key to reach guests with.
pub open spec fn key_check_says(path: &str, there: bool, r: Line) -> bool {
    if there {
        r.passes("ssh key"@, path@)
    } else {
        r.fails("ssh key"@, "~/.ssh/id_ed25519 missing — `ssh-keygen -t ed25519`"@)
    }
}

/// Whether there is a key to reach guests with.
pub fn key_check(path: &str, there: bool) -> (r: Line)
    ensures
        key_check_says(path, there, r),
{
    if there {
        pass("ssh key", path)
    } else {
        fail("ssh key", "~/.ssh/id_ed25519 missing — `ssh-keygen -t ed25519`")
    }
}

/// What is reported of the timer that sweeps.
pub open spec fn timer_check_says(loaded: bool, stale: bool, r: Line) -> bool {
    if !loaded {
        r.skips("reap timer"@, "not installed — `vm reap --install` shuts down idle VMs"@)
    } else if stale {
        r.fails(
            "reap timer"@,
            "installed from a pre-journal vm — sweeps still go to an unrotated log; `vm reap --install` to move them to the journal"@,
        )
    } else {
        r.passes("reap timer"@, "com.akesson.vm.reap"@)
    }
}

/// Whether the timer that sweeps is installed, and current.
pub fn timer_check(loaded: bool, stale: bool) -> (r: Line)
    ensures
        timer_check_says(loaded, stale, r),
{
    if !loaded {
        skip("reap timer", "not installed — `vm reap --install` shuts down idle VMs")
    } else if stale {
        fail(
            "reap timer",
            "installed from a pre-journal vm — sweeps still go to an unrotated log; `vm reap --install` to move them to the journal",
        )
    } else {
        pass("reap timer", "com.akesson.vm.reap")
    }
}

/// `bytes` in kilobytes, rounded up.
pub open spec fn kilobytes(bytes: u64) -> nat {
    ((bytes + 1023) / 1024) as nat
}

/// What is reported of the journal.
pub open spec fn journal_check_says(path: Option<&str>, size: Option<u64>, r: Line) -> bool {
    match (path, size) {
        (Some(p), Some(n)) => r.passes(
            "journal"@,
            p@ + " — "@ + text::decimal(kilobytes(n)) + " KB"@,
        ),
        (Some(p), None) => r.skips("journal"@, p@ + " — written on the next run"@),
        (None, _) => r.skips("journal"@, "no HOME — nowhere to keep one"@),
    }
}

/// Where the journal is, and how big.
pub fn journal_check(path: Option<&str>, size: Option<u64>) -> (r: Line)
    ensures
        journal_check_says(path, size, r),
{
    match (path, size) {
        (Some(p), Some(n)) => {
            let mut detail = p.to_owned();
            detail.append(" — ");
            detail.append(text::to_decimal((n as u128 + 1023) / 1024).as_str());
            detail.append(" KB");
            pass("journal", detail.as_str())
        },
        (Some(p), None) => {
            let mut detail = p.to_owned();
            detail.append(" — written on the next run");
            skip("journal", detail.as_str())
        },
        (None, _) => skip("journal", "no HOME — nowhere to keep one"),
    }
}

/// The checks of the host, in the order in which they are made.
#[derive(Debug, Clone, Copy, PartialEq, Eq, Structural)]
pub enum HostStage {
    Prlctl,
    Config,
    Key,
    Timer,
    Journal,
    /// The host is done, and the guests follow.
    Guests,
    /// Without a configuration there are no guests to look at.
    Over,
}

/// What was observed for a check of the host.
#[derive(Debug)]
pub enum HostEvidence<'a> {
    /// How many VMs Parallels lists.
    Prlctl(Result<usize, &'a Failure>),
    /// The path of the configuration, what was read there, and the VM that the
    /// caller named.
    Config(&'a str, Result<&'a Config, &'a Failure>, Option<&'a str>),
    /// The path of the key, and whether it is there.
    Key(&'a str, bool),
    /// Whether the timer is loaded, and whether its description is out of date.
    Timer(bool, bool),
    /// The path of the journal, and its size.
    Journal(Option<&'a str>, Option<u64>),
}

/// Whether this is what an observation of the host is reported as, and what
/// follows.
pub open spec fn host_reports(
    evidence: HostEvidence,
    line: Line,
    next: Result<HostStage, Failure>,
) -> bool {
    match evidence {
        HostEvidence::Prlctl(listed) => prlctl_check_says(listed, line) && next == Ok::<
            HostStage,
            Failure,
        >(HostStage::Config),
        HostEvidence::Config(path, loaded, named) => match loaded {
            Err(e) => line.fails("config"@, e.says()) && next == Ok::<HostStage, Failure>(
                HostStage::Over,
            ),
            Ok(cfg) => {
                &&& line.passes(
                    "config"@,
                    path@ + " ("@ + text::joined(cfg.vm.keys(), ", "@) + ")"@,
                )
                &&& if named is Some && !cfg.vm@.contains_key(named->0@) {
                    next matches Err(e) && e is Usage && e.says() == config::unknown_alias(
                        cfg.vm.items(),
                        named->0@,
                        path@,
                    )
                } else {
                    next == Ok::<HostStage, Failure>(HostStage::Key)
                }
            },
        },
        HostEvidence::Key(path, there) => key_check_says(path, there, line) && next == Ok::<
            HostStage,
            Failure,
        >(HostStage::Timer),
        HostEvidence::Timer(loaded, stale) => timer_check_says(loaded, stale, line) && next == Ok::<
            HostStage,
            Failure,
        >(HostStage::Journal),
        HostEvidence::Journal(path, size) => journal_check_says(path, size, line) && next == Ok::<
            HostStage,
            Failure,
        >(HostStage::Guests),
    }
}

/// What an observation of the host is reported as, and the check that follows. A
/// mistyped alias is refused: checking nothing must not read as a clean bill.
pub fn host(evidence: HostEvidence) -> (r: (Line, Result<HostStage, Failure>))
    ensures
        host_reports(evidence, r.0, r.1),
{
    match evidence {
        HostEvidence::Prlctl(listed) => (prlctl_check(listed), Ok(HostStage::Config)),
        HostEvidence::Config(path, loaded, named) => match loaded {
            Err(e) => (config_check(path, Err(e)), Ok(HostStage::Over)),
            Ok(cfg) => {
                let aliases: Vec<String> = cfg.aliases();
                let line: Line = config_check(path, Ok(aliases.as_slice()));
                if let Some(alias) = named {
                    if let Err(e) = cfg.get(alias, path) {
                        return (line, Err(e));
                    }
                }
                (line, Ok(HostStage::Key))
            },
        },
        HostEvidence::Key(path, there) => (key_check(path, there), Ok(HostStage::Timer)),
        HostEvidence::Timer(loaded, stale) => (timer_check(loaded, stale), Ok(HostStage::Journal)),
        HostEvidence::Journal(path, size) => (journal_check(path, size), Ok(HostStage::Guests)),
    }
}

// ── A guest, from outside ────────────────────────────────────────────────────

/// What the checks of a guest are headed with.
pub fn guest_heading(alias: &str, vm: &VmConfig) -> (r: Line)
    ensures
        r matches Line::Heading(h) && h@ == alias@ + " ("@ + vm.parallels_name@ + ")"@,
{
    let mut out = alias.to_owned();
    out.append(" (");
    out.append(vm.parallels_name.as_str());
    out.append(")");
    Line::Heading(out)
}

/// What is reported of a VM that Parallels does not have.
pub open spec fn unregistered_says(r: Line) -> bool {
    r.fails("vm"@, "not registered in Parallels (`prlctl list -a`)"@)
}

/// The failure of a VM that Parallels does not have.
pub fn unregistered() -> (r: Line)
    ensures
        unregistered_says(r),
{
    fail("vm", "not registered in Parallels (`prlctl list -a`)")
}

/// What is said of snapshots that killed runs left behind.
pub open spec fn stale_text(alias: Seq<char>, names: Seq<Seq<char>>) -> Seq<char> {
    "stale from killed --with-snapshot runs, wasting disk: "@ + text::joined(names, ", "@)
        + " — the next `vm exec "@ + alias
        + " --with-snapshot` sweeps them, or delete via `prlctl snapshot-list`/`snapshot-delete`"@
}

/// What is reported of the snapshots that killed runs left behind.
pub open spec fn snapshot_check_says(
    alias: &str,
    listed: Result<&[(String, String)], &Failure>,
    r: Option<Line>,
) -> bool {
    match listed {
        Ok(snaps) => if commands::stale_names(snaps@).len() == 0 {
            r is None
        } else {
            r matches Some(line) && line.fails(
                "snapshots"@,
                stale_text(alias@, commands::stale_names(snaps@)),
            )
        },
        Err(e) => r matches Some(line) && line.fails("snapshots"@, e.says()),
    }
}

/// Whether killed runs left snapshots behind. Nothing is said where they did not.
pub fn snapshot_check(alias: &str, listed: Result<&[(String, String)], &Failure>) -> (r: Option<
    Line,
>)
    ensures
        snapshot_check_says(alias, listed, r),
{
    match listed {
        Ok(snaps) => {
            let names: Vec<String> = commands::sweep_stale_snapshots(snaps).1;
            assert(text::views(names@).len() == names@.len());
            if names.len() == 0 {
                return None;
            }
            let mut detail = "stale from killed --with-snapshot runs, wasting disk: ".to_owned();
            detail.append(text::join(&names, ", ").as_str());
            detail.append(" — the next `vm exec ");
            detail.append(alias);
            detail.append(
                " --with-snapshot` sweeps them, or delete via `prlctl snapshot-list`/`snapshot-delete`",
            );
            Some(fail("snapshots", detail.as_str()))
        },
        Err(e) => Some(fail("snapshots", e.text())),
    }
}

/// What is done to reach a guest.
#[derive(Debug, Clone, Copy, PartialEq, Eq, Structural)]
pub enum Reach {
    /// It runs: look its address up.
    Look,
    /// It does not run, but it was named: bring it up.
    BringUp,
    /// It does not run and was not named: leave it.
    Leave,
}

/// What is done to reach a guest. Only one that was named is brought up.
pub fn reach(status: &str, named: bool) -> (r: Reach)
    ensures
        r == (if status@ == "running"@ {
            Reach::Look
        } else if named {
            Reach::BringUp
        } else {
            Reach::Leave
        }),
{
    if text::same(status, "running") {
        Reach::Look
    } else if named {
        Reach::BringUp
    } else {
        Reach::Leave
    }
}

/// What is reported of bringing a guest up.
pub open spec fn brought_up_says(status: &str, failure: Option<&Failure>, r: Line) -> bool {
    match failure {
        None => r.passes("status"@, "brought up (was "@ + status@ + ")"@),
        Some(e) => r.fails("status"@, status@ + " — cannot bring it up: "@ + e.says()),
    }
}

/// What came of bringing a guest up.
pub fn brought_up(status: &str, failure: Option<&Failure>) -> (r: Line)
    ensures
        brought_up_says(status, failure, r),
{
    match failure {
        None => {
            let mut detail = "brought up (was ".to_owned();
            detail.append(status);
            detail.append(")");
            pass("status", detail.as_str())
        },
        Some(e) => {
            let mut detail = status.to_owned();
            detail.append(" — cannot bring it up: ");
            detail.append(e.text());
            fail("status", detail.as_str())
        },
    }
}

/// What is reported of a running guest without an address.
pub open spec fn no_address_says(failure: &Failure, r: Line) -> bool {
    r.fails("ip"@, failure.says())
}

/// The failure of a running guest without an address.
pub fn no_address(failure: &Failure) -> (r: Line)
    ensures
        no_address_says(failure, r),
{
    fail("ip", failure.text())
}

/// What is reported of a guest that answers ssh, or does not.
pub open spec fn ssh_check_says(target: &SshTarget, reachable: bool, r: Line) -> bool {
    if reachable {
        r.passes("ssh"@, target.at())
    } else {
        r.fails("ssh"@, target.at() + " not reachable (sshd? firewall? key?)"@)
    }
}

/// Whether a guest answers ssh.
pub fn ssh_check(target: &SshTarget, reachable: bool) -> (r: Line)
    ensures
        ssh_check_says(target, reachable, r),
{
    let mut at: String = target.destination();
    if reachable {
        pass("ssh", at.as_str())
    } else {
        at.append(" not reachable (sshd? firewall? key?)");
        fail("ssh", at.as_str())
    }
}

// ── A guest, from inside ─────────────────────────────────────────────────────

/// How the agent answered when it was asked for its version.
#[derive(Debug)]
pub enum AgentAnswer {
    /// With what it is.
    Version(VersionInfo),
    /// With something else: why that could not be read.
    Garbled(String),
    /// Not at all.
    Silent(Failure),
}

/// Whether this is the answer that a reply is.
pub open spec fn answers(reply: Seq<char>, answer: AgentAnswer) -> bool {
    match proto::version_trouble(reply) {
        Some(why) => answer matches AgentAnswer::Garbled(e) && e@ == why,
        None => answer matches AgentAnswer::Version(info) && proto::version_reads_as(reply, info),
    }
}

/// How the agent answered, from its reply or from why there is none.
pub fn agent_answer(reply: Result<String, Failure>) -> (r: AgentAnswer)
    ensures
        match reply {
            Ok(said) => answers(said@, r),
            Err(e) => r == AgentAnswer::Silent(e),
        },
{
    match reply {
        Ok(said) => match VersionInfo::read_from(said.as_str()) {
            Ok(info) => AgentAnswer::Version(info),
            Err(why) => AgentAnswer::Garbled(why),
        },
        Err(e) => AgentAnswer::Silent(e),
    }
}

/// How the agent answered, where a parse into a typed record was tried on its reply
/// too. Where that did not take it, its complaint stands: it says where in the reply
/// it is.
pub fn placed_answer(reply: Result<String, Failure>, typed: Result<(), String>) -> (r: AgentAnswer)
    ensures
        match (reply, typed) {
            (Ok(said), Ok(_)) => answers(said@, r),
            (Ok(_), Err(why)) => r == AgentAnswer::Garbled(why),
            (Err(e), _) => r == AgentAnswer::Silent(e),
        },
{
    match (reply, typed) {
        (Ok(_), Err(why)) => AgentAnswer::Garbled(why),
        (reply, _) => agent_answer(reply),
    }
}

/// What the agent said at a Windows guest's console, if it did.
pub fn console_said(out: Option<&Output>) -> (r: Result<String, Failure>)
    ensures
        match r {
            Ok(said) => ran_well(out) && said@ == text::trim(process::lossy_text(out->0.stdout@)),
            Err(e) => !ran_well(out) && e is Infra && e.says() == "no answer"@,
        },
{
    if let Some(o) = out {
        if o.success {
            return Ok(text::trimmed(process::lossy(&o.stdout).as_str()));
        }
    }
    Err(infra("no answer".to_owned()))
}

/// How the agent answered at a Windows guest's console.
pub fn console_answer(out: Option<&Output>) -> (r: AgentAnswer)
    ensures
        if ran_well(out) {
            answers(text::trim(process::lossy_text(out->0.stdout@)), r)
        } else {
            r is Silent
        },
{
    agent_answer(console_said(out))
}

/// What is reported of the agent.
pub open spec fn agent_check_says(alias: &str, answer: &AgentAnswer, r: Line) -> bool {
    match *answer {
        AgentAnswer::Version(v) => if v.proto == proto::PROTO_VERSION {
            r.passes(
                "agent"@,
                "v"@ + v.binary@ + " (proto v"@ + text::decimal(v.proto as nat) + ")"@,
            )
        } else {
            r.fails(
                "agent"@,
                "speaks proto v"@ + text::decimal(v.proto as nat)
                    + ", host needs v4 — `vm deploy "@ + alias@ + "`"@,
            )
        },
        AgentAnswer::Garbled(why) => r.fails("agent"@, "bad _version reply: "@ + why@),
        AgentAnswer::Silent(e) => r.fails(
            "agent"@,
            e.says() + " — `vm deploy "@ + alias@ + "`"@,
        ),
    }
}

/// Whether the agent answers, and speaks the protocol.
pub fn agent_check(alias: &str, answer: &AgentAnswer) -> (r: Line)
    ensures
        agent_check_says(alias, answer, r),
{
    match answer {
        AgentAnswer::Version(v) => {
            if v.proto == proto::PROTO_VERSION {
                let mut detail = "v".to_owned();
                detail.append(v.binary.as_str());
                detail.append(" (proto v");
                detail.append(text::to_decimal(v.proto as u128).as_str());
                detail.append(")");
                pass("agent", detail.as_str())
            } else {
                let mut detail = "speaks proto v".to_owned();
                detail.append(text::to_decimal(v.proto as u128).as_str());
                detail.append(", host needs v4 — `vm deploy ");
                detail.append(alias);
                detail.append("`");
                fail("agent", detail.as_str())
            }
        },
        AgentAnswer::Garbled(why) => {
            let mut detail = "bad _version reply: ".to_owned();
            detail.append(why.as_str());
            fail("agent", detail.as_str())
        },
        AgentAnswer::Silent(e) => {
            let mut detail = e.text().to_owned();
            detail.append(" — `vm deploy ");
            detail.append(alias);
            detail.append("`");
            fail("agent", detail.as_str())
        },
    }
}

/// Whether a remote command was run, and succeeded.
pub open spec fn ran_well(out: Option<&Output>) -> bool {
    out is Some && out->0.success
}

/// What is reported of git.
pub open spec fn git_check_says(out: Option<&Output>, r: Line) -> bool {
    if ran_well(out) {
        r.passes("git"@, text::trim(process::lossy_text(out->0.stdout@)))
    } else {
        r.fails("git"@, "not on the guest's ssh PATH (sync needs it)"@)
    }
}

/// Whether git is there.
pub fn git_check(out: Option<&Output>) -> (r: Line)
    ensures
        git_check_says(out, r),
{
    if let Some(o) = out {
        if o.success {
            return pass("git", text::trimmed(process::lossy(&o.stdout).as_str()).as_str());
        }
    }
    fail("git", "not on the guest's ssh PATH (sync needs it)")
}

/// The command that shows whether a guest's work root can be written.
pub open spec fn root_probe(work_root: Seq<char>) -> Seq<char> {
    "mkdir -p "@ + ssh::quoted(work_root) + " && test -w "@ + ssh::quoted(work_root)
}

/// The key that guests are reached with.
pub const KEY: &'static str = "~/.ssh/id_ed25519";

/// The remote command that asks for the guest's git.
pub fn git_command() -> (r: Vec<String>)
    ensures
        text::views(r@) == seq!["git"@, "--version"@],
{
    let args = owned(&["git", "--version"]);
    assert(text::views(args@) =~= seq!["git"@, "--version"@]);
    args
}

/// The remote command that shows whether the work root can be written.
pub fn work_root_command(vm: &VmConfig) -> (r: Vec<String>)
    ensures
        text::views(r@) == seq!["sh"@, "-c"@, ssh::quoted(root_probe(vm.work_root@))],
{
    let root: String = ssh::shell_quote(vm.work_root.as_str());
    let mut probe = "mkdir -p ".to_owned();
    probe.append(root.as_str());
    probe.append(" && test -w ");
    probe.append(root.as_str());
    shell_probe(probe.as_str())
}

fn shell_probe(script: &str) -> (r: Vec<String>)
    ensures
        text::views(r@) == seq!["sh"@, "-c"@, ssh::quoted(script@)],
{
    let mut out: Vec<String> = Vec::new();
    out.push("sh".to_owned());
    out.push("-c".to_owned());
    out.push(ssh::shell_quote(script));
    assert(text::views(out@) =~= seq!["sh"@, "-c"@, ssh::quoted(script@)]);
    out
}

/// What is reported of the work root.
pub open spec fn work_root_check_says(vm: &VmConfig, out: Option<&Output>, r: Line) -> bool {
    if ran_well(out) {
        r.passes("work_root"@, vm.work_root@)
    } else {
        r.fails("work_root"@, vm.work_root@ + " not writable"@)
    }
}

/// Whether the work root can be written.
pub fn work_root_check(vm: &VmConfig, out: Option<&Output>) -> (r: Line)
    ensures
        work_root_check_says(vm, out, r),
{
    if let Some(o) = out {
        if o.success {
            return pass("work_root", vm.work_root.as_str());
        }
    }
    let mut detail = vm.work_root.as_str().to_owned();
    detail.append(" not writable");
    fail("work_root", detail.as_str())
}

/// The per-user directories that a bare PATH misses.
pub open spec fn user_path() -> Seq<char> {
    "PATH=\"$HOME/bin:$HOME/.cargo/bin:$HOME/.local/bin:$HOME/.vm/bin:$PATH\""@
}

/// The remote commands that ask the coding agent for its version, and for a reply.
pub fn claude_commands(binary: &str) -> (r: (Vec<String>, Vec<String>))
    ensures
        text::views(r.0@) == seq![
            "sh"@,
            "-c"@,
            ssh::quoted(user_path() + " "@ + binary@ + " --version"@),
        ],
        text::views(r.1@) == seq![
            "sh"@,
            "-c"@,
            ssh::quoted(user_path() + " "@ + Agent::Claude.probe(binary@)),
        ],
{
    let mut version =
        "PATH=\"$HOME/bin:$HOME/.cargo/bin:$HOME/.local/bin:$HOME/.vm/bin:$PATH\"".to_owned();
    version.append(" ");
    version.append(binary);
    version.append(" --version");
    let mut auth =
        "PATH=\"$HOME/bin:$HOME/.cargo/bin:$HOME/.local/bin:$HOME/.vm/bin:$PATH\"".to_owned();
    auth.append(" ");
    auth.append(Agent::Claude.auth_probe(binary).as_str());
    (shell_probe(version.as_str()), shell_probe(auth.as_str()))
}

/// What is reported of the coding agent.
pub open spec fn claude_check_says(binary: &str, out: Option<&Output>, r: Line) -> bool {
    if ran_well(out) {
        r.passes(binary@, text::trim(process::lossy_text(out->0.stdout@)))
    } else {
        r.skips(binary@, "not installed — needed only for `vm "@ + binary@ + "`"@)
    }
}

/// Whether the coding agent is installed. It need not be: without it, nothing
/// failed.
pub fn claude_check(binary: &str, out: Option<&Output>) -> (r: Line)
    ensures
        claude_check_says(binary, out, r),
{
    if let Some(o) = out {
        if o.success {
            return pass(binary, text::trimmed(process::lossy(&o.stdout).as_str()).as_str());
        }
    }
    let mut detail = "not installed — needed only for `vm ".to_owned();
    detail.append(binary);
    detail.append("`");
    skip(binary, detail.as_str())
}

/// The first line of some output, without the white space around it.
pub open spec fn first_of(said: Seq<char>) -> Seq<char> {
    let lines = text::lines(text::trim(said));
    if lines.len() > 0 {
        lines[0]
    } else {
        "(no output)"@
    }
}

/// The first line of some output.
pub fn first_line(bytes: &[u8]) -> (r: String)
    ensures
        r@ == first_of(process::lossy_text(bytes@)),
{
    let said: String = text::trimmed(process::lossy(bytes).as_str());
    let lines: Vec<String> = text::lines_of(said.as_str());
    let ghost all = text::lines(said@);
    assert(all.len() == lines@.len());
    if lines.len() > 0 {
        assert(all[0] == lines@[0]@);
        lines[0].as_str().to_owned()
    } else {
        "(no output)".to_owned()
    }
}

/// What is reported of the coding agent's credentials.
pub open spec fn claude_checks_says(
    binary: &str,
    out: Result<&Output, &Failure>,
    r: Line,
) -> bool {
    let name = binary@ + " auth"@;
    match out {
        Ok(o) => if o.success {
            r.passes(name, "probe replied: "@ + first_of(process::lossy_text(o.stdout@)))
        } else {
            r.fails(
                name,
                "probe failed: "@ + (if o.stderr@.len() == 0 {
                    first_of(process::lossy_text(o.stdout@))
                } else {
                    first_of(process::lossy_text(o.stderr@))
                }) + " — log in inside the guest (run `"@ + binary@ + "`)"@,
            )
        },
        Err(e) => r.fails(name, "probe failed: "@ + e.says()),
    }
}

/// Whether the coding agent's credentials are live: a real call, because a stale
/// login looks authenticated on disk.
pub fn claude_checks(binary: &str, out: Result<&Output, &Failure>) -> (r: Line)
    ensures
        claude_checks_says(binary, out, r),
{
    let mut name = binary.to_owned();
    name.append(" auth");
    match out {
        Ok(o) => {
            if o.success {
                let mut detail = "probe replied: ".to_owned();
                detail.append(first_line(&o.stdout).as_str());
                return pass(name.as_str(), detail.as_str());
            }
            let said: String = if o.stderr.len() == 0 {
                first_line(&o.stdout)
            } else {
                first_line(&o.stderr)
            };
            let mut detail = "probe failed: ".to_owned();
            detail.append(said.as_str());
            detail.append(" — log in inside the guest (run `");
            detail.append(Agent::Claude.login_hint(binary));
            detail.append("`)");
            fail(name.as_str(), detail.as_str())
        },
        Err(e) => {
            let mut detail = "probe failed: ".to_owned();
            detail.append(e.text());
            fail(name.as_str(), detail.as_str())
        },
    }
}

/// What is reported of a guest's console input.
pub open spec fn idle_checks_says(alias: &str, idle: Result<u64, &Failure>, r: Line) -> bool {
    match idle {
        Ok(ms) => r.passes(
            "input idle"@,
            text::decimal((ms / 60_000) as nat)
                + "m — reap won't shut down while you're at the console"@,
        ),
        Err(e) => r.fails(
            "input idle"@,
            e.says() + " — reap will shut down regardless of console use (`vm deploy "@ + alias@
                + "`?)"@,
        ),
    }
}

/// Whether a guest's console can be asked for its last input, in milliseconds.
pub fn idle_checks(alias: &str, idle: Result<u64, &Failure>) -> (r: Line)
    ensures
        idle_checks_says(alias, idle, r),
{
    match idle {
        Ok(ms) => {
            let mut detail = text::to_decimal((ms / 60_000) as u128);
            detail.append("m — reap won't shut down while you're at the console");
            pass("input idle", detail.as_str())
        },
        Err(e) => {
            let mut detail = e.text().to_owned();
            detail.append(" — reap will shut down regardless of console use (`vm deploy ");
            detail.append(alias);
            detail.append("`?)");
            fail("input idle", detail.as_str())
        },
    }
}

/// What is said of a shutdown unit that is not as it should be.
pub open spec fn unit_trouble(state: prldnd::State, alias: Seq<char>) -> Seq<char> {
    let name = "vm-prldnd-shutdown.service"@;
    let advice = "`vm deploy "@ + alias + "` installs it"@;
    match state {
        prldnd::State::Good => Seq::empty(),
        prldnd::State::Missing => name
            + " not installed — this guest takes ~95s to shut down (prldnd jams gnome-session's logout) and Parallels force-kills it at 120s. "@
            + advice,
        prldnd::State::NotEnabled(s) => name + " is "@ + s@
            + ", so nothing pulls it in at boot and it cannot run at the next shutdown. "@ + advice,
        prldnd::State::Inactive(s) => name + " is enabled but "@ + s@
            + " — a oneshot runs its ExecStop only while active, so this one will not fire. "@
            + advice,
        prldnd::State::Stale => name
            + " differs from the one this vm installs — an older copy may be missing a detail it needs to work at all. "@
            + advice,
    }
}

/// What is reported of the shutdown unit.
pub open spec fn shutdown_checks_says(
    alias: &str,
    state: Result<&prldnd::State, &Failure>,
    r: Line,
) -> bool {
    match state {
        Ok(s) => if *s is Good {
            r.passes(
                "shutdown unit"@,
                "vm-prldnd-shutdown.service active — stops take seconds"@,
            )
        } else {
            r.fails("shutdown unit"@, unit_trouble(*s, alias@))
        },
        Err(e) => r.fails("shutdown unit"@, e.says()),
    }
}

/// Whether a Linux guest still has the unit that keeps its shutdown short.
pub fn shutdown_checks(alias: &str, state: Result<&prldnd::State, &Failure>) -> (r: Line)
    ensures
        shutdown_checks_says(alias, state, r),
{
    let mut advice = "`vm deploy ".to_owned();
    advice.append(alias);
    advice.append("` installs it");
    let mut detail = "vm-prldnd-shutdown.service".to_owned();
    match state {
        Ok(prldnd::State::Good) => {
            return pass("shutdown unit", "vm-prldnd-shutdown.service active — stops take seconds");
        },
        Ok(prldnd::State::Missing) => {
            detail.append(
                " not installed — this guest takes ~95s to shut down (prldnd jams gnome-session's logout) and Parallels force-kills it at 120s. ",
            );
        },
        Ok(prldnd::State::NotEnabled(s)) => {
            detail.append(" is ");
            detail.append(s.as_str());
            detail.append(
                ", so nothing pulls it in at boot and it cannot run at the next shutdown. ",
            );
        },
        Ok(prldnd::State::Inactive(s)) => {
            detail.append(" is enabled but ");
            detail.append(s.as_str());
            detail.append(
                " — a oneshot runs its ExecStop only while active, so this one will not fire. ",
            );
        },
        Ok(prldnd::State::Stale) => {
            detail.append(
                " differs from the one this vm installs — an older copy may be missing a detail it needs to work at all. ",
            );
        },
        Err(e) => {
            return fail("shutdown unit", e.text());
        },
    }
    detail.append(advice.as_str());
    fail("shutdown unit", detail.as_str())
}

/// The user in what `whoami` prints: what follows the last backslash.
pub open spec fn user_of(who: Seq<char>) -> Seq<char> {
    text::split(who, '\\').last()
}

/// Whether two names are the same but for the case of ASCII letters.
pub open spec fn same_user(a: Seq<char>, b: Seq<char>) -> bool {
    a.map_values(|c: char| text::ascii_lower(c)) == b.map_values(|c: char| text::ascii_lower(c))
}

/// What is reported of the user at the console.
pub open spec fn console_user_check_says(vm: &VmConfig, out: Option<&Output>, r: Line) -> bool {
    if !ran_well(out) {
        r.fails(
            "console user"@,
            "prlctl exec failed — is a user logged in at the VM console?"@,
        )
    } else {
        let who = text::trim(process::lossy_text(out->0.stdout@));
        if same_user(user_of(who), vm.user@) {
            r.passes("console user"@, who)
        } else {
            r.fails(
                "console user"@,
                "console session belongs to '"@ + who + "' but config user is '"@ + vm.user@
                    + "' — exec would run as (and see the checkout of) the wrong user"@,
            )
        }
    }
}

/// Whether the configured user is the one at a Windows guest's console, and
/// whether that leaves the agent there to be asked.
pub fn console_user_check(vm: &VmConfig, out: Option<&Output>) -> (r: Line)
    ensures
        console_user_check_says(vm, out, r),
{
    if let Some(o) = out {
        if o.success {
            let who: String = text::trimmed(process::lossy(&o.stdout).as_str());
            let parts: Vec<String> = text::split_on(who.as_str(), '\\');
            let ghost pieces = text::split(who@, '\\');
            assert(pieces.len() == parts@.len());
            assert(pieces.len() > 0);
            assert(pieces.last() == parts@[parts@.len() - 1]@);
            let user: &str = parts[parts.len() - 1].as_str();
            if text::same_ignoring_ascii_case(user, vm.user.as_str()) {
                return pass("console user", who.as_str());
            }
            let mut detail = "console session belongs to '".to_owned();
            detail.append(who.as_str());
            detail.append("' but config user is '");
            detail.append(vm.user.as_str());
            detail.append("' — exec would run as (and see the checkout of) the wrong user");
            return fail("console user", detail.as_str());
        }
    }
    fail("console user", "prlctl exec failed — is a user logged in at the VM console?")
}

/// The `prlctl` arguments that ask who is at a Windows guest's console.
pub fn whoami_command(vm: &VmConfig) -> (r: Result<Vec<String>, Failure>)
    ensures
        prl::carries(
            vm.parallels_name@,
            seq!["exec"@, vm.parallels_name@, "--current-user"@],
            seq!["cmd"@, "/c"@, "whoami"@],
            r,
        ),
{
    let args: [&str; 3] = ["cmd", "/c", "whoami"];
    assert(text::str_views(args@) =~= seq!["cmd"@, "/c"@, "whoami"@]);
    prl::exec_console(vm.parallels_name.as_str(), &args)
}

/// The `prlctl` arguments that ask the agent at a Windows guest's console.
pub fn console_agent_command(vm: &VmConfig) -> (r: Result<Vec<String>, Failure>)
    ensures
        prl::carries(
            vm.parallels_name@,
            seq!["exec"@, vm.parallels_name@, "--current-user"@],
            seq!["cmd"@, "/c"@, commands::agent_on_console(*vm) + " _version"@],
            r,
        ),
{
    let mut line = commands::agent_console_path(vm);
    line.append(" _version");
    let args: [&str; 3] = ["cmd", "/c", line.as_str()];
    assert(text::str_views(args@) =~= seq!["cmd"@, "/c"@, line@]);
    prl::exec_console(vm.parallels_name.as_str(), &args)
}

/// What is reported of the agent at the console.
pub open spec fn console_checks_says(answer: &AgentAnswer, r: Line) -> bool {
    match *answer {
        AgentAnswer::Version(v) => if v.proto == proto::PROTO_VERSION {
            r.passes("console agent"@, "v"@ + v.binary@ + " via prlctl exec"@)
        } else {
            r.fails(
                "console agent"@,
                "speaks proto v"@ + text::decimal(v.proto as nat) + ", host needs v4"@,
            )
        },
        AgentAnswer::Garbled(why) => r.fails("console agent"@, "bad _version reply: "@ + why@),
        AgentAnswer::Silent(_) => r.fails(
            "console agent"@,
            "agent did not answer via prlctl exec — `vm deploy` it?"@,
        ),
    }
}

/// Whether the agent answers at a Windows guest's console.
pub fn console_checks(answer: &AgentAnswer) -> (r: Line)
    ensures
        console_checks_says(answer, r),
{
    match answer {
        AgentAnswer::Version(v) => {
            if v.proto == proto::PROTO_VERSION {
                let mut detail = "v".to_owned();
                detail.append(v.binary.as_str());
                detail.append(" via prlctl exec");
                pass("console agent", detail.as_str())
            } else {
                let mut detail = "speaks proto v".to_owned();
                detail.append(text::to_decimal(v.proto as u128).as_str());
                detail.append(", host needs v4");
                fail("console agent", detail.as_str())
            }
        },
        AgentAnswer::Garbled(why) => {
            let mut detail = "bad _version reply: ".to_owned();
            detail.append(why.as_str());
            fail("console agent", detail.as_str())
        },
        AgentAnswer::Silent(_) => fail(
            "console agent",
            "agent did not answer via prlctl exec — `vm deploy` it?",
        ),
    }
}

// ── The order of the checks ──────────────────────────────────────────────────

/// The checks of a guest, in the order in which they are made.
#[derive(Debug, Clone, Copy, PartialEq, Eq, Structural)]
pub enum Stage {
    /// Whether Parallels has the VM.
    Registered,
    Snapshots,
    /// Whether it runs or could be brought up, and has an address.
    Status,
    Ssh,
    Agent,
    Git,
    WorkRoot,
    Claude,
    ClaudeAuth,
    Idle,
    /// The shutdown unit of a Linux guest.
    Shutdown,
    /// The user at the console of a Windows guest.
    ConsoleUser,
    /// The agent at the console of a Windows guest.
    ConsoleAgent,
    Over,
}

/// Whether nothing that comes after a check can be made where it did not pass.
pub open spec fn is_gate(stage: Stage) -> bool {
    stage == Stage::Registered || stage == Stage::Status || stage == Stage::Ssh || stage
        == Stage::ConsoleUser
}

/// The check that follows one that passed or did not.
pub open spec fn stage_after(stage: Stage, os: GuestOs, passed: bool) -> Stage {
    if is_gate(stage) && !passed {
        Stage::Over
    } else {
        match stage {
            Stage::Registered => Stage::Snapshots,
            Stage::Snapshots => Stage::Status,
            Stage::Status => Stage::Ssh,
            Stage::Ssh => Stage::Agent,
            Stage::Agent => Stage::Git,
            Stage::Git => Stage::WorkRoot,
            Stage::WorkRoot => Stage::Claude,
            Stage::Claude => if passed {
                Stage::ClaudeAuth
            } else {
                Stage::Idle
            },
            Stage::ClaudeAuth => Stage::Idle,
            Stage::Idle => match os {
                GuestOs::Windows => Stage::ConsoleUser,
                GuestOs::Linux => Stage::Shutdown,
                GuestOs::Macos => Stage::Over,
            },
            Stage::ConsoleUser => Stage::ConsoleAgent,
            _ => Stage::Over,
        }
    }
}

fn following(stage: Stage, os: GuestOs, passed: bool) -> (r: Stage)
    ensures
        r == stage_after(stage, os, passed),
{
    match stage {
        Stage::Registered => if passed {
            Stage::Snapshots
        } else {
            Stage::Over
        },
        Stage::Snapshots => Stage::Status,
        Stage::Status => if passed {
            Stage::Ssh
        } else {
            Stage::Over
        },
        Stage::Ssh => if passed {
            Stage::Agent
        } else {
            Stage::Over
        },
        Stage::Agent => Stage::Git,
        Stage::Git => Stage::WorkRoot,
        Stage::WorkRoot => Stage::Claude,
        Stage::Claude => if passed {
            Stage::ClaudeAuth
        } else {
            Stage::Idle
        },
        Stage::ClaudeAuth => Stage::Idle,
        Stage::Idle => match os {
            GuestOs::Windows => Stage::ConsoleUser,
            GuestOs::Linux => Stage::Shutdown,
            GuestOs::Macos => Stage::Over,
        },
        Stage::ConsoleUser => if passed {
            Stage::ConsoleAgent
        } else {
            Stage::Over
        },
        _ => Stage::Over,
    }
}

/// What was observed for a check.
#[derive(Debug)]
pub enum Evidence<'a> {
    /// Whether Parallels has the VM.
    Registered(bool),
    /// The snapshots of the VM.
    Snapshots(Result<&'a [(String, String)], &'a Failure>),
    /// It runs; why it has no address, if it has none.
    Running(Option<&'a Failure>),
    /// It had this status and was brought up; why it could not be.
    BroughtUp(&'a str, Option<&'a Failure>),
    /// It has this status and was left alone.
    Left(&'a str),
    /// Whether it answers ssh.
    Ssh(&'a SshTarget, bool),
    Agent(&'a AgentAnswer),
    Git(Option<&'a Output>),
    WorkRoot(Option<&'a Output>),
    Claude(Option<&'a Output>),
    ClaudeAuth(Result<&'a Output, &'a Failure>),
    Idle(Result<u64, &'a Failure>),
    Shutdown(Result<&'a prldnd::State, &'a Failure>),
    ConsoleUser(Option<&'a Output>),
    ConsoleAgent(&'a AgentAnswer),
}

/// The check that an observation is for.
pub open spec fn stage_for(evidence: Evidence) -> Stage {
    match evidence {
        Evidence::Registered(_) => Stage::Registered,
        Evidence::Snapshots(_) => Stage::Snapshots,
        Evidence::Running(_) => Stage::Status,
        Evidence::BroughtUp(_, _) => Stage::Status,
        Evidence::Left(_) => Stage::Status,
        Evidence::Ssh(_, _) => Stage::Ssh,
        Evidence::Agent(_) => Stage::Agent,
        Evidence::Git(_) => Stage::Git,
        Evidence::WorkRoot(_) => Stage::WorkRoot,
        Evidence::Claude(_) => Stage::Claude,
        Evidence::ClaudeAuth(_) => Stage::ClaudeAuth,
        Evidence::Idle(_) => Stage::Idle,
        Evidence::Shutdown(_) => Stage::Shutdown,
        Evidence::ConsoleUser(_) => Stage::ConsoleUser,
        Evidence::ConsoleAgent(_) => Stage::ConsoleAgent,
    }
}

/// Whether an observation lets the checks that build on it go on.
pub open spec fn lets_go_on(vm: VmConfig, evidence: Evidence) -> bool {
    match evidence {
        Evidence::Registered(there) => there,
        Evidence::Running(failure) => failure is None,
        Evidence::BroughtUp(_, failure) => failure is None,
        Evidence::Left(_) => false,
        Evidence::Ssh(_, reachable) => reachable,
        Evidence::Claude(out) => ran_well(out),
        Evidence::ConsoleUser(out) => ran_well(out) && same_user(
            user_of(text::trim(process::lossy_text(out->0.stdout@))),
            vm.user@,
        ),
        _ => true,
    }
}

/// Whether these are the lines that report an observation.
pub open spec fn reports(
    alias: &str,
    vm: &VmConfig,
    binary: &str,
    evidence: Evidence,
    lines: Seq<Line>,
) -> bool {
    match evidence {
        Evidence::Registered(there) => if there {
            lines.len() == 0
        } else {
            lines.len() == 1 && unregistered_says(lines[0])
        },
        Evidence::Snapshots(listed) => if lines.len() == 0 {
            snapshot_check_says(alias, listed, None)
        } else {
            lines.len() == 1 && snapshot_check_says(alias, listed, Some(lines[0]))
        },
        Evidence::Running(failure) => {
            &&& lines.len() == (match failure {
                None => 1int,
                Some(_) => 2int,
            })
            &&& lines[0].passes("status"@, "running"@)
            &&& failure matches Some(e) ==> no_address_says(e, lines[1])
        },
        Evidence::BroughtUp(status, failure) => lines.len() == 1 && brought_up_says(
            status,
            failure,
            lines[0],
        ),
        Evidence::Left(status) => lines.len() == 1 && lines[0].skips(
            "status"@,
            status@ + " — live checks skipped; `vm doctor "@ + alias@
                + "` brings it up and runs them"@,
        ),
        Evidence::Ssh(target, reachable) => lines.len() == 1 && ssh_check_says(
            target,
            reachable,
            lines[0],
        ),
        Evidence::Agent(answer) => lines.len() == 1 && agent_check_says(alias, answer, lines[0]),
        Evidence::Git(out) => lines.len() == 1 && git_check_says(out, lines[0]),
        Evidence::WorkRoot(out) => lines.len() == 1 && work_root_check_says(vm, out, lines[0]),
        Evidence::Claude(out) => lines.len() == 1 && claude_check_says(
            binary,
            out,
            lines[0],
        ),
        Evidence::ClaudeAuth(out) => lines.len() == 1 && claude_checks_says(
            binary,
            out,
            lines[0],
        ),
        Evidence::Idle(idle) => lines.len() == 1 && idle_checks_says(alias, idle, lines[0]),
        Evidence::Shutdown(state) => lines.len() == 1 && shutdown_checks_says(
            alias,
            state,
            lines[0],
        ),
        Evidence::ConsoleUser(out) => lines.len() == 1 && console_user_check_says(
            vm,
            out,
            lines[0],
        ),
        Evidence::ConsoleAgent(answer) => lines.len() == 1 && console_checks_says(
            answer,
            lines[0],
        ),
    }
}

fn one(line: Line) -> (r: Vec<Line>)
    ensures
        r@.len() == 1,
        r@[0] == line,
{
    let mut v: Vec<Line> = Vec::new();
    v.push(line);
    v
}

/// What an observation of a guest is reported as, and the check that follows. A
/// guest that cannot be reached is reported once, not once for each check that
/// would have needed it. `binary` is the coding agent's.
pub fn doctor(alias: &str, vm: &VmConfig, binary: &str, evidence: Evidence) -> (r: (
    Vec<Line>,
    Stage,
))
    ensures
        reports(alias, vm, binary, evidence, r.0@),
        r.1 == stage_after(stage_for(evidence), vm.os, lets_go_on(*vm, evidence)),
{
    let os: GuestOs = vm.os;
    match evidence {
        Evidence::Registered(there) => {
            let lines: Vec<Line> = if there {
                Vec::new()
            } else {
                one(unregistered())
            };
            (lines, following(Stage::Registered, os, there))
        },
        Evidence::Snapshots(listed) => {
            let lines: Vec<Line> = match snapshot_check(alias, listed) {
                Some(line) => one(line),
                None => Vec::new(),
            };
            (lines, following(Stage::Snapshots, os, true))
        },
        Evidence::Running(failure) => {
            let mut lines: Vec<Line> = one(pass("status", "running"));
            match failure {
                None => (lines, following(Stage::Status, os, true)),
                Some(e) => {
                    lines.push(no_address(e));
                    (lines, following(Stage::Status, os, false))
                },
            }
        },
        Evidence::BroughtUp(status, failure) => {
            let up: bool = match failure {
                None => true,
                Some(_) => false,
            };
            (one(brought_up(status, failure)), following(Stage::Status, os, up))
        },
        Evidence::Left(status) => {
            let mut detail = status.to_owned();
            detail.append(" — live checks skipped; `vm doctor ");
            detail.append(alias);
            detail.append("` brings it up and runs them");
            (one(skip("status", detail.as_str())), following(Stage::Status, os, false))
        },
        Evidence::Ssh(target, reachable) => (
            one(ssh_check(target, reachable)),
            following(Stage::Ssh, os, reachable),
        ),
        Evidence::Agent(answer) => (
            one(agent_check(alias, answer)),
            following(Stage::Agent, os, true),
        ),
        Evidence::Git(out) => (one(git_check(out)), following(Stage::Git, os, true)),
        Evidence::WorkRoot(out) => (
            one(work_root_check(vm, out)),
            following(Stage::WorkRoot, os, true),
        ),
        Evidence::Claude(out) => {
            let installed: bool = match out {
                Some(o) => o.success,
                None => false,
            };
            (one(claude_check(binary, out)), following(Stage::Claude, os, installed))
        },
        Evidence::ClaudeAuth(out) => (
            one(claude_checks(binary, out)),
            following(Stage::ClaudeAuth, os, true),
        ),
        Evidence::Idle(idle) => (one(idle_checks(alias, idle)), following(Stage::Idle, os, true)),
        Evidence::Shutdown(state) => (
            one(shutdown_checks(alias, state)),
            following(Stage::Shutdown, os, true),
        ),
        Evidence::ConsoleUser(out) => {
            let line: Line = console_user_check(vm, out);
            let right: bool = match &line {
                Line::Pass(_, _) => true,
                _ => false,
            };
            (one(line), following(Stage::ConsoleUser, os, right))
        },
        Evidence::ConsoleAgent(answer) => (
            one(console_checks(answer)),
            following(Stage::ConsoleAgent, os, true),
        ),
    }
}

/// The check that is due after some that passed or did not.
pub open spec fn stage_of(os: GuestOs, history: Seq<bool>) -> Stage
    decreases history.len(),
{
    if history.len() == 0 {
        Stage::Registered
    } else {
        stage_after(stage_of(os, history.drop_last()), os, history.last())
    }
}

/// Whether a check is made over ssh.
pub open spec fn rides_ssh(stage: Stage) -> bool {
    stage == Stage::Agent || stage == Stage::Git || stage == Stage::WorkRoot || stage
        == Stage::Claude || stage == Stage::ClaudeAuth || stage == Stage::Idle || stage
        == Stage::Shutdown || stage == Stage::ConsoleUser || stage == Stage::ConsoleAgent
}

/// No check that needs a reachable guest is ever made of one that did not answer:
/// the first four checks came in their order, and the ones that decide passed.
pub proof fn an_unreachable_guest_is_reported_once(os: GuestOs, history: Seq<bool>)
    requires
        rides_ssh(stage_of(os, history)),
    ensures
        history.len() >= 4,
        history[0],
        history[2],
        history[3],
        stage_of(os, history.take(3)) == Stage::Ssh,
    decreases history.len(),
{
    let front = history.drop_last();
    let before = stage_of(os, front);
    if rides_ssh(before) {
        an_unreachable_guest_is_reported_once(os, front);
        assert(front.take(3) =~= history.take(3));
    } else {
        assert(before == Stage::Ssh && history.last());
        let a = front;
        let b = a.drop_last();
        let c = b.drop_last();
        assert(stage_of(os, b) == Stage::Status && a.last());
        assert(stage_of(os, c) == Stage::Snapshots);
        assert(stage_of(os, c.drop_last()) == Stage::Registered && c.last());
        if c.drop_last().len() > 0 {
            assert(false) by {
                let d = c.drop_last();
                assert(stage_after(stage_of(os, d.drop_last()), os, d.last())
                    != Stage::Registered);
            }
        }
        assert(history.len() == 4);
        assert(history.take(3) =~= front);
        assert(c.last() == history[0]);
        assert(a.last() == history[2]);
        assert(history.last() == history[3]);
    }
}

/// A check passes exactly where what it looks for is in order, and is reported as a failure
/// or left out where it is not.
pub proof fn host_checks_fail_on_trouble(
    listed: Result<usize, &Failure>,
    path: &str,
    there: bool,
    loaded: bool,
    stale: bool,
    journal: Option<&str>,
    size: Option<u64>,
    prlctl: Line,
    key: Line,
    timer: Line,
    kept: Line,
)
    requires
        prlctl_check_says(listed, prlctl),
        key_check_says(path, there, key),
        timer_check_says(loaded, stale, timer),
        journal_check_says(journal, size, kept),
    ensures
        prlctl is Pass <==> listed is Ok,
        prlctl is Fail <==> listed is Err,
        key is Pass <==> there,
        key is Fail <==> !there,
        timer is Pass <==> loaded && !stale,
        timer is Fail <==> loaded && stale,
        timer is Skip <==> !loaded,
        kept is Pass <==> journal is Some && size is Some,
        kept is Skip <==> journal is None || size is None,
{
}

/// A check of a guest passes exactly where what it looks for is in order, and is reported
/// as a failure where it is not; only an agent that is not installed is no failure.
pub proof fn guest_checks_fail_on_trouble(
    alias: &str,
    vm: &VmConfig,
    binary: &str,
    status: &str,
    failure: Option<&Failure>,
    target: &SshTarget,
    reachable: bool,
    answer: &AgentAnswer,
    out: Option<&Output>,
    probe: Result<&Output, &Failure>,
    idle: Result<u64, &Failure>,
    unit: Result<&prldnd::State, &Failure>,
    up: Line,
    ssh: Line,
    agent: Line,
    git: Line,
    root: Line,
    coder: Line,
    auth: Line,
    input: Line,
    shutdown: Line,
    user: Line,
    console: Line,
)
    requires
        brought_up_says(status, failure, up),
        ssh_check_says(target, reachable, ssh),
        agent_check_says(alias, answer, agent),
        git_check_says(out, git),
        work_root_check_says(vm, out, root),
        claude_check_says(binary, out, coder),
        claude_checks_says(binary, probe, auth),
        idle_checks_says(alias, idle, input),
        shutdown_checks_says(alias, unit, shutdown),
        console_user_check_says(vm, out, user),
        console_checks_says(answer, console),
    ensures
        up is Pass <==> failure is None,
        up is Fail <==> failure is Some,
        ssh is Pass <==> reachable,
        ssh is Fail <==> !reachable,
        agent is Pass <==> (*answer matches AgentAnswer::Version(v) && v.proto == 4),
        agent is Pass || agent is Fail,
        console is Pass <==> agent is Pass,
        console is Fail <==> agent is Fail,
        git is Pass <==> (out is Some && out->0.success),
        git is Fail <==> !(out is Some && out->0.success),
        root is Pass <==> git is Pass,
        root is Fail <==> git is Fail,
        coder is Pass <==> git is Pass,
        coder is Skip <==> git is Fail,
        auth is Pass <==> (probe is Ok && probe->Ok_0.success),
        auth is Fail <==> !(probe is Ok && probe->Ok_0.success),
        input is Pass <==> idle is Ok,
        input is Fail <==> idle is Err,
        shutdown is Pass <==> (unit is Ok && *unit->Ok_0 is Good),
        shutdown is Fail <==> !(unit is Ok && *unit->Ok_0 is Good),
        user is Pass ==> out is Some && out->0.success,
        user is Pass || user is Fail,
{
}

/// Left-over snapshots are a failure, and so is not knowing of them; where there are none,
/// nothing is said.
pub proof fn left_over_snapshots_are_a_problem(
    alias: &str,
    listed: Result<&[(String, String)], &Failure>,
    r: Option<Line>,
)
    requires
        snapshot_check_says(alias, listed, r),
    ensures
        r is Some <==> listed is Err || commands::stale_names(listed->Ok_0@).len() > 0,
        r matches Some(line) ==> line is Fail,
{
}

/// A line shows what it checked and what it found behind its mark.
pub proof fn a_line_shows_its_mark(what: String, detail: String)
    ensures
        Line::Pass(what, detail).says() == "  ✓ "@ + what@ + ": "@ + detail@,
        Line::Fail(what, detail).says() == "  ✗ "@ + what@ + ": "@ + detail@,
        Line::Skip(what, detail).says() == "  - "@ + what@ + ": "@ + detail@,
{
}

/// Every failed line is a problem, and no other line is one.
pub proof fn every_failure_counts(lines: Seq<Line>, line: Line)
    ensures
        problems(Seq::empty()) == 0,
        line is Fail ==> problems(lines.push(line)) == problems(lines) + 1,
        line !is Fail ==> problems(lines.push(line)) == problems(lines),
{
    assert(lines.push(line).drop_last() =~= lines);
}

/// A size is shown in whole kilobytes, rounded up.
pub proof fn sizes_are_rounded_up(bytes: u64)
    ensures
        kilobytes(bytes) * 1024 >= bytes,
        bytes > 0 ==> (kilobytes(bytes) - 1) * 1024 < bytes,
        bytes == 0 ==> kilobytes(bytes) == 0,
{
}

/// The user at the console is what stands behind the last backslash, in whatever case.
pub proof fn a_user_is_named_behind_the_domain(domain: Seq<char>, user: Seq<char>)
    requires
        !user.contains('\\'),
    ensures
        user_of(domain + seq!['\\'] + user) == user,
        user_of(user) == user,
        same_user(user, user),
{
    text::split_parts(domain, '\\', user);
    text::split_of_one_piece(user, '\\');
    assert(text::split(domain + seq!['\\'] + user, '\\').last() == user);
}

/// The case of a user's name does not matter, and nothing else is overlooked in it.
pub proof fn only_the_case_of_a_user_is_overlooked(a: Seq<char>, b: Seq<char>, i: int)
    requires
        same_user(a, b),
    ensures
        a.len() == b.len(),
        0 <= i < a.len() ==> a[i] == b[i] || (65 <= a[i] as u32 <= 90 && b[i] as u32 == a[i] as u32
            + 32) || (65 <= b[i] as u32 <= 90 && a[i] as u32 == b[i] as u32 + 32),
{
    let low = |c: char| text::ascii_lower(c);
    assert(a.map_values(low).len() == a.len());
    assert(b.map_values(low).len() == b.len());
    if 0 <= i < a.len() {
        assert(a.map_values(low)[i] == b.map_values(low)[i]);
        text::lower_case_is_next_to_upper(a[i]);
        text::lower_case_is_next_to_upper(b[i]);
        vstd::utf8::char_u32_cast(a[i], a[i] as u32);
        vstd::utf8::char_u32_cast(b[i], b[i] as u32);
    }
}

/// A guest is checked in this order: whether it is there, what was left in it, whether it
/// runs and answers, its agent, its git and its checkouts, the coding agent, and its
/// console. What cannot be checked without the check before it is not.
pub proof fn a_guest_is_checked_in_order(os: GuestOs, passed: bool)
    ensures
        stage_of(os, Seq::empty()) == Stage::Registered,
        stage_after(Stage::Registered, os, true) == Stage::Snapshots,
        stage_after(Stage::Snapshots, os, passed) == Stage::Status,
        stage_after(Stage::Status, os, true) == Stage::Ssh,
        stage_after(Stage::Ssh, os, true) == Stage::Agent,
        stage_after(Stage::Agent, os, passed) == Stage::Git,
        stage_after(Stage::Git, os, passed) == Stage::WorkRoot,
        stage_after(Stage::WorkRoot, os, passed) == Stage::Claude,
        stage_after(Stage::Claude, os, true) == Stage::ClaudeAuth,
        stage_after(Stage::Claude, os, false) == Stage::Idle,
        stage_after(Stage::ClaudeAuth, os, passed) == Stage::Idle,
        stage_after(Stage::Idle, GuestOs::Windows, passed) == Stage::ConsoleUser,
        stage_after(Stage::Idle, GuestOs::Linux, passed) == Stage::Shutdown,
        stage_after(Stage::Idle, GuestOs::Macos, passed) == Stage::Over,
        stage_after(Stage::ConsoleUser, os, true) == Stage::ConsoleAgent,
        stage_after(Stage::Registered, os, false) == Stage::Over,
        stage_after(Stage::Status, os, false) == Stage::Over,
        stage_after(Stage::Ssh, os, false) == Stage::Over,
        stage_after(Stage::ConsoleUser, os, false) == Stage::Over,
        stage_after(Stage::ConsoleAgent, os, passed) == Stage::Over,
        stage_after(Stage::Shutdown, os, passed) == Stage::Over,
{
}

/// What a guest is asked next hangs on whether it is there, runs, answers and has the right
/// user, and on nothing else that was found.
pub proof fn only_what_is_needed_stops_the_checks(
    vm: VmConfig,
    failure: Option<&Failure>,
    status: &str,
    target: &SshTarget,
    reachable: bool,
    there: bool,
    answer: &AgentAnswer,
    out: Option<&Output>,
)
    ensures
        lets_go_on(vm, Evidence::Registered(there)) <==> there,
        lets_go_on(vm, Evidence::Running(failure)) <==> failure is None,
        lets_go_on(vm, Evidence::BroughtUp(status, failure)) <==> failure is None,
        !lets_go_on(vm, Evidence::Left(status)),
        lets_go_on(vm, Evidence::Ssh(target, reachable)) <==> reachable,
        lets_go_on(vm, Evidence::Agent(answer)),
        lets_go_on(vm, Evidence::Git(out)),
        lets_go_on(vm, Evidence::WorkRoot(out)),
        lets_go_on(vm, Evidence::Claude(out)) <==> (out is Some && out->0.success),
{
}

/// The host is checked in this order, and its guests follow. Without a configuration there
/// are none, and a VM that is named must be in it.
pub proof fn a_host_is_checked_in_order(
    evidence: HostEvidence,
    line: Line,
    next: Result<HostStage, Failure>,
)
    requires
        host_reports(evidence, line, next),
    ensures
        evidence is Prlctl ==> next == Ok::<HostStage, Failure>(HostStage::Config),
        evidence is Key ==> next == Ok::<HostStage, Failure>(HostStage::Timer),
        evidence is Timer ==> next == Ok::<HostStage, Failure>(HostStage::Journal),
        evidence is Journal ==> next == Ok::<HostStage, Failure>(HostStage::Guests),
        evidence matches HostEvidence::Config(path, loaded, named) ==> (match loaded {
            Err(_) => line is Fail && next == Ok::<HostStage, Failure>(HostStage::Over),
            Ok(cfg) => line is Pass && (if named is Some && !cfg.vm@.contains_key(named->0@) {
                next is Err && next->Err_0 is Usage
            } else {
                next == Ok::<HostStage, Failure>(HostStage::Key)
            }),
        }),
{
}

/// The probe of a work root is handed the root whole, twice.
pub proof fn the_work_root_is_probed_whole(work_root: Seq<char>)
    ensures
        root_probe(work_root) == "mkdir -p "@ + ssh::quoted(work_root) + " && test -w "@
            + ssh::quoted(work_root),
        ssh::shell_reads(ssh::quoted(work_root), false) == Some(work_root),
{
    ssh::quoting_reads_back(work_root);
}

/// Each piece of evidence belongs to its own check.
pub proof fn evidence_belongs_to_its_check(
    there: bool,
    failure: Option<&Failure>,
    status: &str,
    target: &SshTarget,
    answer: &AgentAnswer,
    out: Option<&Output>,
    probe: Result<&Output, &Failure>,
    idle: Result<u64, &Failure>,
    unit: Result<&prldnd::State, &Failure>,
    listed: Result<&[(String, String)], &Failure>,
)
    ensures
        stage_for(Evidence::Registered(there)) == Stage::Registered,
        stage_for(Evidence::Snapshots(listed)) == Stage::Snapshots,
        stage_for(Evidence::Running(failure)) == Stage::Status,
        stage_for(Evidence::BroughtUp(status, failure)) == Stage::Status,
        stage_for(Evidence::Left(status)) == Stage::Status,
        stage_for(Evidence::Ssh(target, there)) == Stage::Ssh,
        stage_for(Evidence::Agent(answer)) == Stage::Agent,
        stage_for(Evidence::Git(out)) == Stage::Git,
        stage_for(Evidence::WorkRoot(out)) == Stage::WorkRoot,
        stage_for(Evidence::Claude(out)) == Stage::Claude,
        stage_for(Evidence::ClaudeAuth(probe)) == Stage::ClaudeAuth,
        stage_for(Evidence::Idle(idle)) == Stage::Idle,
        stage_for(Evidence::Shutdown(unit)) == Stage::Shutdown,
        stage_for(Evidence::ConsoleUser(out)) == Stage::ConsoleUser,
        stage_for(Evidence::ConsoleAgent(answer)) == Stage::ConsoleAgent,
{
}

/// Every check is reported in one line that says how it went. A VM that is there and one
/// without left-over snapshots need no line, a VM that runs without an address has two, and
/// one that was left alone is never a failure.
pub proof fn a_check_is_reported_in_a_line(
    alias: &str,
    vm: &VmConfig,
    binary: &str,
    evidence: Evidence,
    lines: Seq<Line>,
)
    requires
        reports(alias, vm, binary, evidence, lines),
    ensures
        evidence matches Evidence::Registered(there) ==> lines.len() == (if there {
            0int
        } else {
            1
        }) && (!there ==> lines[0] is Fail),
        evidence is Snapshots ==> lines.len() <= 1,
        evidence matches Evidence::Running(failure) ==> lines[0] is Pass && lines.len() == (
        if failure is None {
            1int
        } else {
            2
        }) && (failure is Some ==> lines[1] is Fail),
        evidence matches Evidence::Left(_) ==> lines.len() == 1 && lines[0] is Skip,
        !(evidence is Registered) && !(evidence is Snapshots) && !(evidence is Running)
            ==> lines.len() == 1,
        evidence matches Evidence::Ssh(_, reachable) ==> lines[0] is Pass == reachable,
        evidence matches Evidence::Agent(answer) ==> (lines[0] is Pass <==> (*answer matches
            AgentAnswer::Version(v) && v.proto == 4)),
        evidence matches Evidence::ConsoleAgent(answer) ==> (lines[0] is Pass <==> (*answer matches
            AgentAnswer::Version(v) && v.proto == 4)),
        evidence matches Evidence::Git(out) ==> lines[0] is Pass == (out is Some && out->0.success),
        evidence matches Evidence::WorkRoot(out) ==> lines[0] is Pass == (out is Some
            && out->0.success),
        evidence matches Evidence::Claude(out) ==> lines[0] is Pass == (out is Some
            && out->0.success) && lines[0] !is Fail,
        evidence matches Evidence::Idle(idle) ==> lines[0] is Pass == idle is Ok,
        evidence matches Evidence::BroughtUp(_, failure) ==> lines[0] is Pass == failure is None,
        evidence matches Evidence::Shutdown(state) ==> lines[0] is Pass == (state is Ok
            && *state->Ok_0 is Good),
        evidence matches Evidence::ClaudeAuth(out) ==> lines[0] is Pass == (out is Ok
            && out->Ok_0.success),
{
}

/// An agent answers with its version where its reply is one, and else its reply is called
/// garbled, with what is wrong with it.
pub proof fn an_answer_is_a_version_or_garbled(reply: Seq<char>, answer: AgentAnswer)
    requires
        answers(reply, answer),
    ensures
        answer is Version <==> proto::version_trouble(reply) is None,
        answer is Garbled <==> proto::version_trouble(reply) is Some,
        answer matches AgentAnswer::Garbled(e) ==> proto::version_trouble(reply) == Some(e@),
        answer matches AgentAnswer::Version(info) ==> proto::version_reads_as(reply, info),
{
}

/// Of what a probe prints the first line is shown.
pub proof fn the_first_line_is_shown(line: Seq<char>, rest: Seq<char>)
    requires
        text::is_word(line),
        text::is_trimmed(line + seq!['\n'] + rest),
    ensures
        first_of(line + seq!['\n'] + rest) == line,
        first_of(line) == line,
        first_of(Seq::empty()) == "(no output)"@,
{
    let none = Seq::<char>::empty();
    let all = line + seq!['\n'] + rest;
    assert forall|i: int| 0 <= i < line.len() implies line[i] != '\n' && line[i] != '\r' by {
        assert(!text::is_space(line[i]));
        text::blanks_and_line_ends_are_space(line[i]);
    }
    assert(!line.contains('\n'));
    text::trimming_takes_only_space(none, all, none);
    text::trimming_takes_only_space(none, line, none);
    text::trimming_takes_only_space(none, none, none);
    assert(none + all + none =~= all);
    assert(none + line + none =~= line);
    assert(none + none + none =~= none);
    text::a_newline_ends_a_line(line, rest);
    text::a_newline_ends_a_line(none, rest);
}

/// What is wrong with a guest's shutdown unit is said of the unit by name, with the state
/// that systemd gave and the verb that mends it.
pub proof fn a_units_trouble_is_named(state: prldnd::State, alias: Seq<char>)
    ensures
        state !is Good ==> text::starts_with(
            unit_trouble(state, alias),
            "vm-prldnd-shutdown.service"@,
        ),
        state !is Good ==> text::contains(
            unit_trouble(state, alias),
            "`vm deploy "@ + alias + "` installs it"@,
        ),
        state matches prldnd::State::NotEnabled(s) ==> text::contains(
            unit_trouble(state, alias),
            s@,
        ),
        state matches prldnd::State::Inactive(s) ==> text::contains(
            unit_trouble(state, alias),
            s@,
        ),
        state is Good ==> unit_trouble(state, alias).len() == 0,
{
    let none = Seq::<char>::empty();
    let name = "vm-prldnd-shutdown.service"@;
    let advice = "`vm deploy "@ + alias + "` installs it"@;
    let said = unit_trouble(state, alias);
    if state !is Good {
        assert(said.take(name.len() as int) =~= name);
        let front = said.take(said.len() - advice.len());
        assert(said =~= front + advice + none);
        text::what_is_contained_is_there(front, advice, none);
    }
    match state {
        prldnd::State::NotEnabled(s) => {
            let tail = ", so nothing pulls it in at boot and it cannot run at the next shutdown. "@
                + advice;
            assert(said =~= (name + " is "@) + s@ + tail);
            text::what_is_contained_is_there(name + " is "@, s@, tail);
        },
        prldnd::State::Inactive(s) => {
            let tail = " — a oneshot runs its ExecStop only while active, so this one will not fire. "@
                + advice;
            assert(said =~= (name + " is enabled but "@) + s@ + tail);
            text::what_is_contained_is_there(name + " is enabled but "@, s@, tail);
        },
        _ => {},
    }
}

/// A check that passed says what was found: how many VMs there are, how long ago the console
/// was touched in whole minutes, and what a tool printed.
pub proof fn a_check_says_what_it_found(
    alias: &str,
    vm: &VmConfig,
    n: usize,
    ms: u64,
    m: nat,
    out: &Output,
    v: VersionInfo,
    target: &SshTarget,
    listed: Line,
    idle: Line,
    git: Line,
    agent: Line,
    ssh: Line,
    user: Line,
)
    requires
        prlctl_check_says(Ok(n), listed),
        idle_checks_says(alias, Ok(ms), idle),
        m * 60_000 <= ms < (m + 1) * 60_000,
        out.success,
        git_check_says(Some(out), git),
        v.proto == 4,
        agent_check_says(alias, &AgentAnswer::Version(v), agent),
        ssh_check_says(target, true, ssh),
        console_user_check_says(vm, Some(out), user),
    ensures
        listed.passes("prlctl"@, text::decimal(n as nat) + " VMs registered"@),
        idle.passes(
            "input idle"@,
            text::decimal(m) + "m — reap won't shut down while you're at the console"@,
        ),
        git.passes("git"@, text::trim(process::lossy_text(out.stdout@))),
        agent.passes("agent"@, "v"@ + v.binary@ + " (proto v"@ + text::decimal(4) + ")"@),
        ssh.passes("ssh"@, target.user@ + seq!['@'] + target.host@),
        ({
            let who = text::trim(process::lossy_text(out.stdout@));
            &&& user is Pass <==> same_user(user_of(who), vm.user@)
            &&& user is Pass <==> lets_go_on(*vm, Evidence::ConsoleUser(Some(out)))
            &&& user is Pass ==> user.passes("console user"@, who)
        }),
{
    assert(ms / 60_000 == m);
    ssh::a_guest_is_its_user_at_its_host(*target);
}

} // verus!
