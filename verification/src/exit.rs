//! Exit codes `vm` reserves for its *own* failures, kept distinct from a guest
//! command's exit status, which passes through untouched.
//!
//! A caller can tell "vm itself failed" from "the command I asked for failed",
//! and retry only the former. Every failure in this crate is a [`Failure`]: the
//! user's setup is wrong ([`USAGE`]), or an operation did not work ([`INFRA`]).

use vstd::prelude::*;

verus! {

/// Operational failure: sync, agent, transport, VM lifecycle, locks. Often
/// transient, so a caller may retry.
pub const INFRA: i32 = 125;

/// Usage or configuration error: retrying will not help.
pub const USAGE: i32 = 2;

/// What is wrong with the invocation or the machine's configuration.
#[derive(Debug)]
pub struct UsageError(pub String);

/// Why `vm` itself failed.
#[derive(Debug)]
pub enum Failure {
    /// The user's setup is at fault.
    Usage(UsageError),
    /// Something `vm` relies on did not work.
    Infra(String),
}

impl Failure {
    /// What the failure says.
    pub open spec fn says(self) -> Seq<char> {
        match self {
            Failure::Usage(e) => e.0@,
            Failure::Infra(text) => text@,
        }
    }

    /// What the failure says.
    pub fn text(&self) -> (r: &str)
        ensures
            r@ == self.says(),
    {
        match self {
            Failure::Usage(e) => e.0.as_str(),
            Failure::Infra(text) => text.as_str(),
        }
    }

    /// Whether the user's setup is at fault.
    pub fn is_usage(&self) -> (r: bool)
        ensures
            r == (self is Usage),
    {
        match self {
            Failure::Usage(_) => true,
            Failure::Infra(_) => false,
        }
    }

    /// The same failure with what was being done put in front of it. The kind
    /// of the failure survives every such layer.
    pub fn context(self, doing: &str) -> (r: Failure)
        ensures
            r is Usage == self is Usage,
            r.says() == doing@ + ": "@ + self.says(),
    {
        let mut text = doing.to_owned();
        text.append(": ");
        text.append(self.text());
        match self {
            Failure::Usage(_) => Failure::Usage(UsageError(text)),
            Failure::Infra(_) => Failure::Infra(text),
        }
    }
}

/// A usage error that says `msg`.
pub fn usage(msg: String) -> (r: Failure)
    ensures
        r is Usage,
        r.says() == msg@,
{
    Failure::Usage(UsageError(msg))
}

/// An operational failure that says `msg`.
pub fn infra(msg: String) -> (r: Failure)
    ensures
        r is Infra,
        r.says() == msg@,
{
    Failure::Infra(msg)
}

/// The exit code that a run ends with.
pub open spec fn code_of(result: Result<i32, Failure>) -> i32 {
    match result {
        Ok(code) => code,
        Err(Failure::Usage(_)) => USAGE,
        Err(Failure::Infra(_)) => INFRA,
    }
}

/// The line that a failed run ends with.
pub open spec fn verdict_of(failure: Failure) -> Seq<char> {
    match failure {
        Failure::Usage(_) => "vm: config error: "@ + failure.says(),
        Failure::Infra(_) => "vm: error: "@ + failure.says(),
    }
}

/// How a run ends: the exit code, and the line that explains a failure. A guest
/// command's own code is passed through, and nothing is said about it.
pub fn conclude(result: Result<i32, Failure>) -> (r: (i32, Option<String>))
    ensures
        r.0 == code_of(result),
        match result {
            Ok(_) => r.1 is None,
            Err(failure) => r.1 matches Some(line) && line@ == verdict_of(failure),
        },
{
    match result {
        Ok(code) => (code, None),
        Err(failure) => {
            if failure.is_usage() {
                let mut line = "vm: config error: ".to_owned();
                line.append(failure.text());
                (USAGE, Some(line))
            } else {
                let mut line = "vm: error: ".to_owned();
                line.append(failure.text());
                (INFRA, Some(line))
            }
        },
    }
}

/// Putting context around a failure never changes the code the run ends with.
pub proof fn context_keeps_the_code(inner: Failure, outer: Failure)
    requires
        outer is Usage == inner is Usage,
    ensures
        code_of(Err(outer)) == code_of(Err(inner)),
{
}

/// The code that a run ends with tells whose fault it was: a guest command's own code
/// comes back untouched, a usage error is 2 and an operational failure is 125, and
/// the line about it ends with what the failure says.
pub proof fn codes_tell_whose_fault_it_was(code: i32, e: Failure)
    ensures
        code_of(Ok(code)) == code,
        e is Usage ==> code_of(Err(e)) == 2,
        e is Infra ==> code_of(Err(e)) == 125,
        e is Usage ==> verdict_of(e) == "vm: config error: "@ + e.says(),
        e is Infra ==> verdict_of(e) == "vm: error: "@ + e.says(),
{
}

} // verus!
