//! The command line, once it is parsed.

use crate::claude::ClaudeOptions;
use crate::exec::host::ExecOptions;
use crate::exec::run::RunOptions;
use crate::guest_env::GuestEnv;
use vstd::prelude::*;

verus! {

/// A parsed command line.
#[derive(Debug)]
pub struct Cli {
    /// Whether narration is left out.
    pub quiet: bool,
    pub command: Command,
}

/// What was asked for.
#[derive(Debug)]
pub enum Command {
    /// List the configured VMs.
    Ls,
    /// Sync the repo, then run a command in the guest checkout.
    Exec(ExecArgs),
    /// Run a command in a guest, with no repo and no sync.
    Run(RunArgs),
    /// Sync the repo without running anything.
    Sync { alias: String, guest_env: Option<GuestEnv>, with_file: Vec<String> },
    /// Build and install the agent inside a guest.
    Deploy { alias: String },
    /// Save a screenshot.
    Shot { alias: String, file: Option<String> },
    /// Run a coding agent headless in the guest checkout.
    Claude(ClaudeArgs),
    /// Shut down the VMs that nobody uses, or only this one.
    Reap { only: Option<String>, idle_minutes: u64, install: bool, uninstall: bool },
    /// Diagnose host and guests, or only this one.
    Doctor { only: Option<String> },
    /// Remove the guest checkout.
    Clean { alias: String },
    /// In the guest: run a request.
    GuestExec,
    /// In the guest: make the checkout's repository.
    GuestSyncInit { repo: String },
    /// In the guest: apply a synced commit.
    GuestSyncApply { repo: String, sha: String },
    /// In the guest: snapshot the checkout.
    GuestTree { repo: String },
    /// In the guest: set a fresh checkout up.
    GuestFirstSync { repo: String, cmd: String },
    /// In the guest: print the versions.
    GuestVersion,
    /// In the guest: print how long ago the last input was.
    GuestIdle,
}

/// The arguments of an exec.
#[derive(Debug)]
pub struct ExecArgs {
    pub target: String,
    pub opts: ExecOpts,
}

/// The flags and the command of an exec.
#[derive(Debug)]
pub struct ExecOpts {
    pub with_snapshot: bool,
    pub no_sync: bool,
    pub writeback: bool,
    pub or_native: bool,
    pub env: Vec<String>,
    pub with_file: Vec<String>,
    pub guest_env: Option<GuestEnv>,
    pub cmd: Vec<String>,
}

/// The arguments of a run.
#[derive(Debug)]
pub struct RunArgs {
    pub target: String,
    pub elevated: bool,
    pub env: Vec<String>,
    pub cmd: Vec<String>,
}

/// The arguments of a run of a coding agent.
#[derive(Debug)]
pub struct ClaudeArgs {
    pub target: String,
    pub prompt: String,
    pub with_snapshot: bool,
    pub no_writeback: bool,
    pub env: Vec<String>,
    pub with_file: Vec<String>,
    pub guest_env: Option<GuestEnv>,
    pub claude_args: Vec<String>,
}

impl ExecOpts {
    /// The choices that the flags make.
    pub fn options(self) -> (r: ExecOptions)
        ensures
            r == (ExecOptions {
                no_sync: self.no_sync,
                writeback: self.writeback,
                with_snapshot: self.with_snapshot,
                or_native: self.or_native,
                guest_env: self.guest_env,
                env: self.env,
                with_file: self.with_file,
                cmd: self.cmd,
            }),
    {
        ExecOptions {
            no_sync: self.no_sync,
            writeback: self.writeback,
            with_snapshot: self.with_snapshot,
            or_native: self.or_native,
            guest_env: self.guest_env,
            env: self.env,
            with_file: self.with_file,
            cmd: self.cmd,
        }
    }
}

impl RunArgs {
    /// The choices that the arguments make.
    pub fn options(self) -> (r: RunOptions)
        ensures
            r == (RunOptions { elevated: self.elevated, env: self.env, cmd: self.cmd }),
    {
        RunOptions { elevated: self.elevated, env: self.env, cmd: self.cmd }
    }
}

impl ClaudeArgs {
    /// The choices that the arguments make.
    pub fn options(self) -> (r: ClaudeOptions)
        ensures
            r == (ClaudeOptions {
                prompt: self.prompt,
                claude_args: self.claude_args,
                with_snapshot: self.with_snapshot,
                no_writeback: self.no_writeback,
                env: self.env,
                with_file: self.with_file,
                guest_env: self.guest_env,
            }),
    {
        ClaudeOptions {
            prompt: self.prompt,
            claude_args: self.claude_args,
            with_snapshot: self.with_snapshot,
            no_writeback: self.no_writeback,
            env: self.env,
            with_file: self.with_file,
            guest_env: self.guest_env,
        }
    }
}

impl Command {
    /// Whether the verb is one of the agent's, which a host invokes inside a
    /// guest. Its stdout is a wire protocol, and it keeps no journal.
    pub open spec fn is_agents(self) -> bool {
        ||| self is GuestExec
        ||| self is GuestSyncInit
        ||| self is GuestSyncApply
        ||| self is GuestTree
        ||| self is GuestFirstSync
        ||| self is GuestVersion
        ||| self is GuestIdle
    }

    /// Whether the verb is one of the agent's.
    pub fn is_guest_verb(&self) -> (r: bool)
        ensures
            r == self.is_agents(),
    {
        match self {
            Command::GuestExec => true,
            Command::GuestSyncInit { .. } => true,
            Command::GuestSyncApply { .. } => true,
            Command::GuestTree { .. } => true,
            Command::GuestFirstSync { .. } => true,
            Command::GuestVersion => true,
            Command::GuestIdle => true,
            _ => false,
        }
    }
}

/// What a reap was asked to do.
#[derive(Debug, Clone, Copy, PartialEq, Eq, Structural)]
pub enum ReapMode {
    Install,
    Uninstall,
    Sweep,
}

/// What a reap was asked to do: an install goes before everything else.
pub fn reap_mode(install: bool, uninstall: bool) -> (r: ReapMode)
    ensures
        r == (if install {
            ReapMode::Install
        } else if uninstall {
            ReapMode::Uninstall
        } else {
            ReapMode::Sweep
        }),
{
    if install {
        ReapMode::Install
    } else if uninstall {
        ReapMode::Uninstall
    } else {
        ReapMode::Sweep
    }
}

/// The verbs that an agent runs in a guest are those that no caller types, and no others.
pub proof fn agents_have_their_own_verbs(command: Command)
    ensures
        command is GuestExec || command is GuestSyncInit || command is GuestSyncApply
            || command is GuestTree || command is GuestFirstSync || command is GuestVersion
            || command is GuestIdle ==> command.is_agents(),
        command is Ls || command is Exec || command is Run || command is Sync || command is Deploy
            || command is Shot || command is Claude || command is Reap || command is Doctor
            || command is Clean ==> !command.is_agents(),
{
}

} // verus!
