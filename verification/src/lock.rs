//! Per-VM advisory locks: a use count that the kernel keeps.
//!
//! Every command that uses a VM holds its lock shared; one that takes the VM
//! away holds it exclusively, and gets it exactly where no use is in flight. The
//! time of the lock file is the end of the last use, so only uses touch it.

use crate::config;
use crate::exit::{infra, Failure};
use vstd::prelude::*;

verus! {

/// How a lock is held.
#[derive(Debug, Clone, Copy, PartialEq, Eq, Structural)]
pub enum Hold {
    /// As one of any number of uses.
    Shared,
    /// As the only holder.
    Exclusive,
}

/// Whether a holder sets the time of the lock file, when it gets the lock and
/// when it lets go of it. A sweep must not reset the clock that it reads.
pub fn touches(hold: Hold) -> (r: bool)
    ensures
        r == (hold == Hold::Shared),
{
    match hold {
        Hold::Shared => true,
        Hold::Exclusive => false,
    }
}

/// The directory of the lock files, beside the configuration.
pub fn locks_dir(config_dir: Option<&str>) -> (r: Result<String, Failure>)
    ensures
        match config_dir {
            Some(d) => r matches Ok(p) && p@ == config::path_below(d@, "locks"@),
            None => r matches Err(e) && e is Infra && e.says()
                == "config path has no parent directory"@,
        },
{
    match config_dir {
        Some(d) => Ok(config::below(d, "locks")),
        None => Err(infra("config path has no parent directory".to_owned())),
    }
}

/// The lock file that counts the uses of a VM.
pub fn lock_path(dir: &str, alias: &str) -> (r: String)
    ensures
        r@ == config::path_below(dir@, alias@),
{
    config::below(dir, alias)
}

/// The lock file that keeps two processes from starting one VM at once. It is
/// another file than the one that counts uses, so that a use can hold both.
pub fn bringup(dir: &str, alias: &str) -> (r: String)
    ensures
        r@ == config::path_below(dir@, alias@ + ".bringup"@),
{
    let mut name = alias.to_owned();
    name.append(".bringup");
    config::below(dir, name.as_str())
}

/// The file that bring-up waits on is never the one that a use of the same VM
/// holds.
pub proof fn bringup_is_another_file(alias: Seq<char>)
    ensures
        alias + ".bringup"@ != alias,
{
    reveal_strlit(".bringup");
    assert((alias + ".bringup"@).len() != alias.len());
}

/// Why the kernel did not grant a lock.
#[derive(Debug, Clone, Copy, PartialEq, Eq, Structural)]
pub enum Refusal {
    /// Another holder is in the way.
    WouldBlock,
    /// A signal came in between.
    Interrupted,
    Other,
}

/// What the failure of a lock says.
pub open spec fn flock_failed(why: Seq<char>) -> Seq<char> {
    "flock failed: "@ + why
}

fn failed(why: &str) -> (r: Failure)
    ensures
        r is Infra,
        r.says() == flock_failed(why@),
{
    let mut msg = "flock failed: ".to_owned();
    msg.append(why);
    infra(msg)
}

/// What comes of asking for a shared lock, which waits.
pub fn shared(answer: Result<(), (Refusal, String)>) -> (r: Result<(), Failure>)
    ensures
        match answer {
            Ok(_) => r is Ok,
            Err((_, why)) => r matches Err(e) && e is Infra && e.says() == flock_failed(why@),
        },
{
    match answer {
        Ok(_) => Ok(()),
        Err((_, why)) => Err(failed(why.as_str())),
    }
}

/// What comes of asking for an exclusive lock without waiting: whether it is
/// held. Not to get it because of another holder is no failure.
pub fn try_exclusive(answer: Result<(), (Refusal, String)>) -> (r: Result<bool, Failure>)
    ensures
        match answer {
            Ok(_) => r == Ok::<bool, Failure>(true),
            Err((Refusal::WouldBlock, _)) => r == Ok::<bool, Failure>(false),
            Err((_, why)) => r matches Err(e) && e is Infra && e.says() == flock_failed(why@),
        },
{
    match answer {
        Ok(_) => Ok(true),
        Err((Refusal::WouldBlock, _)) => Ok(false),
        Err((_, why)) => Err(failed(why.as_str())),
    }
}

/// What is done next to get an exclusive lock.
#[derive(Debug)]
pub enum Wait {
    /// It is held.
    Held,
    /// Say that another holder is in the way, then wait for it.
    Announce,
    /// Wait again.
    Again,
    Fail(Failure),
}

/// What is done next to get an exclusive lock on a path: the first attempt does
/// not wait, so that waiting can be announced, once and only where there is
/// something to wait for. A signal does not end the waiting.
pub fn exclusive_path(waiting: bool, answer: Result<(), (Refusal, String)>) -> (r: Wait)
    ensures
        match answer {
            Ok(_) => r is Held,
            Err((refusal, why)) => if !waiting && refusal == Refusal::WouldBlock {
                r is Announce
            } else if waiting && refusal == Refusal::Interrupted {
                r is Again
            } else {
                r matches Wait::Fail(e) && e is Infra && e.says() == flock_failed(why@)
            },
        },
{
    match answer {
        Ok(_) => Wait::Held,
        Err((refusal, why)) => {
            if !waiting && refusal == Refusal::WouldBlock {
                Wait::Announce
            } else if waiting && refusal == Refusal::Interrupted {
                Wait::Again
            } else {
                Wait::Fail(failed(why.as_str()))
            }
        },
    }
}

/// A lock that could not be had is told with what the system says.
pub proof fn a_failed_lock_says_why(why: Seq<char>)
    ensures
        flock_failed(why) == "flock failed: "@ + why,
{
}

} // verus!
