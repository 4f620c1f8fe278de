//! The first agent's own verb: one run of it, headless in a guest checkout.
//! `binary` is the binary that it runs, which is also the verb.

use crate::agent::{self, compose, copied, refuse_misplaced, Agent};
use crate::exec::host::ExecOptions;
use crate::exit::Failure;
use crate::guest_env::GuestEnv;
use crate::text;
use vstd::prelude::*;

verus! {

/// The choices of a run.
#[derive(Debug)]
pub struct ClaudeOptions {
    pub prompt: String,
    /// Extra arguments, passed to the agent verbatim before the prompt.
    pub claude_args: Vec<String>,
    pub with_snapshot: bool,
    pub no_writeback: bool,
    /// Variables for the agent, as `NAME=value` or a bare `NAME`.
    pub env: Vec<String>,
    /// Gitignored files to sync into the checkout that the agent works in.
    pub with_file: Vec<String>,
    pub guest_env: Option<GuestEnv>,
}

/// Refuses a flag of `vm` among the arguments for the agent, whose own flags
/// pass.
pub fn reject_misplaced_vm_flags(binary: &str, claude_args: &[String]) -> (r: Result<(), Failure>)
    ensures
        agent::checked(binary@, text::views(claude_args@), r),
{
    refuse_misplaced(binary, claude_args)
}

/// The command line of a run.
pub fn argv(opts: &ClaudeOptions, binary: &str) -> (r: Vec<String>)
    ensures
        text::views(r@) == agent::headless_argv(
            Agent::Claude,
            binary@,
            text::views(opts.claude_args@),
            opts.prompt@,
        ),
{
    compose(Agent::Claude, binary, &opts.claude_args, opts.prompt.as_str())
}

/// The exec that a run is, or the refusal of a misplaced flag.
pub fn run(opts: &ClaudeOptions, binary: &str) -> (r: Result<ExecOptions, Failure>)
    ensures
        match r {
            Ok(exec) => {
                &&& agent::checked(binary@, text::views(opts.claude_args@), Ok(()))
                &&& agent::contained(exec, opts.no_writeback, opts.with_snapshot, opts.guest_env)
                &&& text::views(exec.env@) == text::views(opts.env@)
                &&& text::views(exec.with_file@) == text::views(opts.with_file@)
                &&& text::views(exec.cmd@) == agent::headless_argv(
                    Agent::Claude,
                    binary@,
                    text::views(opts.claude_args@),
                    opts.prompt@,
                )
            },
            Err(e) => agent::checked(binary@, text::views(opts.claude_args@), Err(e)),
        },
{
    match reject_misplaced_vm_flags(binary, &opts.claude_args) {
        Err(e) => Err(e),
        Ok(_) => Ok(
            ExecOptions {
                no_sync: false,
                writeback: !opts.no_writeback,
                with_snapshot: opts.with_snapshot,
                or_native: false,
                guest_env: opts.guest_env,
                env: copied(&opts.env),
                with_file: copied(&opts.with_file),
                cmd: argv(opts, binary),
            },
        ),
    }
}

} // verus!
