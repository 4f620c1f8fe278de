//! A coding agent, headless in a guest checkout.
//!
//! The VM is the permission boundary. The agent runs with every confirmation
//! turned off, and the host tree only ever receives the writeback diff.
//!
//! An agent's verb is also the binary that it runs. That of the first agent is
//! not written down here: callers hand it in, as `binary`.

use crate::exec::host::ExecOptions;
use crate::exec::run;
use crate::exit::{usage, Failure};
use crate::guest_env::GuestEnv;
use crate::text;
use vstd::prelude::*;

verus! {

/// A coding agent that can be driven headless in a guest.
#[derive(Clone, Copy, Debug, PartialEq, Eq, Structural)]
pub enum Agent {
    Claude,
    Codex,
}

impl Agent {
    /// The verb that selects this agent, which is also the binary it runs.
    pub open spec fn verb(self, binary: Seq<char>) -> Seq<char> {
        match self {
            Agent::Claude => binary,
            Agent::Codex => "codex"@,
        }
    }

    /// What makes the agent run without a terminal and without asking.
    pub open spec fn unattended(self) -> Seq<Seq<char>> {
        match self {
            Agent::Claude => seq!["-p"@, "--dangerously-skip-permissions"@],
            Agent::Codex => seq!["exec"@, "--dangerously-bypass-approvals-and-sandbox"@],
        }
    }

    /// The verb that selects this agent, which is also the binary it runs.
    pub fn name<'a>(self, binary: &'a str) -> (r: &'a str)
        ensures
            r@ == self.verb(binary@),
    {
        match self {
            Agent::Claude => binary,
            Agent::Codex => "codex",
        }
    }

    /// The arguments between the binary and the caller's own.
    pub fn headless(self) -> (r: Vec<String>)
        ensures
            text::views(r@) == self.unattended(),
    {
        let mut out: Vec<String> = Vec::new();
        match self {
            Agent::Claude => {
                out.push("-p".to_owned());
                out.push("--dangerously-skip-permissions".to_owned());
            },
            Agent::Codex => {
                out.push("exec".to_owned());
                out.push("--dangerously-bypass-approvals-and-sandbox".to_owned());
            },
        }
        assert(text::views(out@) =~= self.unattended());
        out
    }

    /// A call that proves the guest's credentials are live.
    pub open spec fn probe(self, binary: Seq<char>) -> Seq<char> {
        match self {
            Agent::Claude => binary + " -p --model haiku \"say hi\""@,
            Agent::Codex => "codex exec --skip-git-repo-check \"say hi\""@,
        }
    }

    /// A call that proves the guest's credentials are live.
    pub fn auth_probe(self, binary: &str) -> (r: String)
        ensures
            r@ == self.probe(binary@),
    {
        match self {
            Agent::Claude => {
                let mut call = binary.to_owned();
                call.append(" -p --model haiku \"say hi\"");
                call
            },
            Agent::Codex => "codex exec --skip-git-repo-check \"say hi\"".to_owned(),
        }
    }

    /// What to run in the guest where the credentials are stale.
    pub fn login_hint<'a>(self, binary: &'a str) -> (r: &'a str)
        ensures
            r@ == (match self {
                Agent::Claude => binary@,
                Agent::Codex => "codex login"@,
            }),
    {
        match self {
            Agent::Claude => binary,
            Agent::Codex => "codex login",
        }
    }
}

/// The choices of a run of an agent.
#[derive(Debug)]
pub struct AgentOptions {
    pub agent: Agent,
    pub prompt: String,
    /// Extra arguments, passed to the agent verbatim before the prompt.
    pub agent_args: Vec<String>,
    pub with_snapshot: bool,
    pub no_writeback: bool,
    /// Variables for the agent, as `NAME=value` or a bare `NAME`.
    pub env: Vec<String>,
    /// Gitignored files to sync into the checkout that the agent works in.
    pub with_file: Vec<String>,
    pub guest_env: Option<GuestEnv>,
}

// ── Misplaced flags ──────────────────────────────────────────────────────────

/// The flags of `vm` itself on an agent's verb.
pub open spec fn vm_flags() -> Seq<Seq<char>> {
    seq![
        "--with-snapshot"@,
        "--no-writeback"@,
        "--guest-env"@,
        "--with-file"@,
        "--quiet"@,
        "-q"@,
    ]
}

fn is_vm_flag(name: &str) -> (r: bool)
    ensures
        r == vm_flags().contains(name@),
{
    let found = text::same(name, "--with-snapshot") || text::same(name, "--no-writeback")
        || text::same(name, "--guest-env") || text::same(name, "--with-file") || text::same(
        name,
        "--quiet",
    ) || text::same(name, "-q");
    proof {
        let flags = vm_flags();
        if found {
            if name@ == "--with-snapshot"@ {
                assert(flags[0] == name@);
            } else if name@ == "--no-writeback"@ {
                assert(flags[1] == name@);
            } else if name@ == "--guest-env"@ {
                assert(flags[2] == name@);
            } else if name@ == "--with-file"@ {
                assert(flags[3] == name@);
            } else if name@ == "--quiet"@ {
                assert(flags[4] == name@);
            } else {
                assert(flags[5] == name@);
            }
        }
    }
    found
}

/// Whether an argument is a flag of `vm` itself, with a value or without.
pub open spec fn is_misplaced(arg: Seq<char>) -> bool {
    vm_flags().contains(run::flag_name(arg))
}

/// The refusal of a flag that would reach the agent in place of `vm`.
pub open spec fn misplaced_text(tool: Seq<char>, name: Seq<char>) -> Seq<char> {
    "`"@ + name
        + "` is a vm flag, but here it sits after an argument vm does not know, so it would be passed to "@
        + tool
        + " verbatim and have no effect.\n  Put vm's own flags before the prompt: `vm "@ + tool
        + " <alias> "@ + name + " … \"<prompt>\" ["@ + tool + " flags…]`"@
}

/// Whether this is what comes of looking for misplaced flags: the first one is
/// the one refused.
pub open spec fn checked(tool: Seq<char>, args: Seq<Seq<char>>, r: Result<(), Failure>) -> bool {
    match r {
        Ok(_) => forall|i: int| 0 <= i < args.len() ==> !is_misplaced(#[trigger] args[i]),
        Err(e) => e is Usage && exists|i: int|
            {
                &&& 0 <= i < args.len()
                &&& is_misplaced(#[trigger] args[i])
                &&& forall|j: int| 0 <= j < i ==> !is_misplaced(#[trigger] args[j])
                &&& e.says() == misplaced_text(tool, run::flag_name(args[i]))
            },
    }
}

/// Refuses a flag of `vm` among the arguments for an agent: it would have no
/// effect there, and it may be the one that keeps `vm` from touching the host
/// tree.
pub(crate) fn refuse_misplaced(tool: &str, args: &[String]) -> (r: Result<(), Failure>)
    ensures
        checked(tool@, text::views(args@), r),
{
    let ghost all = text::views(args@);
    let mut i: usize = 0;
    while i < args.len()
        invariant
            i <= args@.len(),
            all == text::views(args@),
            forall|j: int| 0 <= j < i ==> !is_misplaced(#[trigger] all[j]),
        decreases args@.len() - i,
    {
        let v: Vec<char> = text::chars_of(args[i].as_str());
        let eq: usize = text::index_from(&v, 0, '=');
        let name: String = text::slice(&v, 0, eq);
        proof {
            assert(v@.skip(0) =~= v@);
            assert(all[i as int] == v@);
            assert(name@ =~= run::flag_name(all[i as int]));
        }
        if is_vm_flag(name.as_str()) {
            let mut msg = "`".to_owned();
            msg.append(name.as_str());
            msg.append(
                "` is a vm flag, but here it sits after an argument vm does not know, so it would be passed to ",
            );
            msg.append(tool);
            msg.append(
                " verbatim and have no effect.\n  Put vm's own flags before the prompt: `vm ",
            );
            msg.append(tool);
            msg.append(" <alias> ");
            msg.append(name.as_str());
            msg.append(" … \"<prompt>\" [");
            msg.append(tool);
            msg.append(" flags…]`");
            return Err(usage(msg));
        }
        i = i + 1;
    }
    Ok(())
}

/// Refuses a flag of `vm` among the arguments for an agent. The agent's own flags
/// pass.
pub fn reject_misplaced_vm_flags(agent: Agent, binary: &str, agent_args: &[String]) -> (r: Result<
    (),
    Failure,
>)
    ensures
        checked(agent.verb(binary@), text::views(agent_args@), r),
{
    refuse_misplaced(agent.name(binary), agent_args)
}

// ── The command ──────────────────────────────────────────────────────────────

/// The command line of a headless run: what makes it headless, the caller's
/// arguments, and last the prompt, as one argument.
pub open spec fn headless_argv(
    agent: Agent,
    binary: Seq<char>,
    args: Seq<Seq<char>>,
    prompt: Seq<char>,
) -> Seq<Seq<char>> {
    seq![agent.verb(binary)] + agent.unattended() + args + seq![prompt]
}

pub(crate) fn compose(agent: Agent, binary: &str, args: &[String], prompt: &str) -> (r: Vec<
    String,
>)
    ensures
        text::views(r@) == headless_argv(agent, binary@, text::views(args@), prompt@),
{
    let ghost all = text::views(args@);
    let ghost head = seq![agent.verb(binary@)] + agent.unattended();
    let mut out: Vec<String> = Vec::new();
    out.push(agent.name(binary).to_owned());
    let fixed: Vec<String> = agent.headless();
    let ghost f = text::views(fixed@);
    assert(f.len() == 2);
    out.push(fixed[0].as_str().to_owned());
    out.push(fixed[1].as_str().to_owned());
    let mut i: usize = 0;
    assert(f[0] == fixed@[0]@ && f[1] == fixed@[1]@);
    assert(text::views(out@) =~= head + all.take(0));
    while i < args.len()
        invariant
            i <= args@.len(),
            all == text::views(args@),
            text::views(out@) == head + all.take(i as int),
        decreases args@.len() - i,
    {
        let ghost before = out@;
        let arg = args[i].as_str().to_owned();
        out.push(arg);
        assert(text::views(out@) =~= text::views(before).push(arg@));
        assert(all.take(i + 1) =~= all.take(i as int).push(all[i as int]));
        i = i + 1;
    }
    assert(all.take(i as int) =~= all);
    let ghost before = out@;
    let last = prompt.to_owned();
    out.push(last);
    assert(text::views(out@) =~= text::views(before).push(last@));
    assert(text::views(out@) =~= headless_argv(agent, binary@, all, prompt@));
    out
}

/// A copy of a list of strings.
pub(crate) fn copied(v: &[String]) -> (r: Vec<String>)
    ensures
        text::views(r@) == text::views(v@),
{
    let mut out: Vec<String> = Vec::new();
    let ghost all = text::views(v@);
    let mut i: usize = 0;
    assert(text::views(out@) =~= all.take(0));
    while i < v.len()
        invariant
            i <= v@.len(),
            all == text::views(v@),
            text::views(out@) == all.take(i as int),
        decreases v@.len() - i,
    {
        let ghost before = out@;
        let s = v[i].as_str().to_owned();
        out.push(s);
        assert(text::views(out@) =~= text::views(before).push(s@));
        assert(all.take(i + 1) =~= all.take(i as int).push(all[i as int]));
        i = i + 1;
    }
    assert(all.take(i as int) =~= all);
    out
}

/// The command line of a run of an agent.
pub fn argv(opts: &AgentOptions, binary: &str) -> (r: Vec<String>)
    ensures
        text::views(r@) == headless_argv(
            opts.agent,
            binary@,
            text::views(opts.agent_args@),
            opts.prompt@,
        ),
{
    compose(opts.agent, binary, &opts.agent_args, opts.prompt.as_str())
}

/// Whether an exec is one of an agent that is contained: it syncs, it never runs
/// on the host, and its changes come back unless that was declined.
pub open spec fn contained(
    exec: ExecOptions,
    no_writeback: bool,
    with_snapshot: bool,
    guest_env: Option<GuestEnv>,
) -> bool {
    &&& !exec.no_sync
    &&& !exec.or_native
    &&& exec.writeback == !no_writeback
    &&& exec.with_snapshot == with_snapshot
    &&& exec.guest_env == guest_env
}

/// The exec that a run of an agent is, or the refusal of a misplaced flag.
pub fn run(opts: &AgentOptions, binary: &str) -> (r: Result<ExecOptions, Failure>)
    ensures
        match r {
            Ok(exec) => {
                &&& checked(opts.agent.verb(binary@), text::views(opts.agent_args@), Ok(()))
                &&& contained(exec, opts.no_writeback, opts.with_snapshot, opts.guest_env)
                &&& text::views(exec.env@) == text::views(opts.env@)
                &&& text::views(exec.with_file@) == text::views(opts.with_file@)
                &&& text::views(exec.cmd@) == headless_argv(
                    opts.agent,
                    binary@,
                    text::views(opts.agent_args@),
                    opts.prompt@,
                )
            },
            Err(e) => checked(opts.agent.verb(binary@), text::views(opts.agent_args@), Err(e)),
        },
{
    match reject_misplaced_vm_flags(opts.agent, binary, &opts.agent_args) {
        Err(e) => Err(e),
        Ok(_) => Ok(
            ExecOptions {
                no_sync: false,
                writeback: !opts.no_writeback,
                with_snapshot: opts.with_snapshot,
                or_native: false,
                guest_env: opts.guest_env,
                env: copied(&opts.env),
                with_file: copied(&opts.with_file),
                cmd: argv(opts, binary),
            },
        ),
    }
}

/// A prompt is the last argument and one argument, whatever it looks like; the
/// caller's arguments stand before it untouched.
pub proof fn prompt_is_one_trailing_argument(
    agent: Agent,
    binary: Seq<char>,
    args: Seq<Seq<char>>,
    prompt: Seq<char>,
    i: int,
)
    requires
        0 <= i < args.len(),
    ensures
        headless_argv(agent, binary, args, prompt).last() == prompt,
        headless_argv(agent, binary, args, prompt).len() == args.len() + 4,
        headless_argv(agent, binary, args, prompt)[3 + i] == args[i],
        headless_argv(agent, binary, args, prompt)[0] == agent.verb(binary),
{
}

/// An agent runs in the guest, in a synced checkout, and never on the host. Its changes
/// come back unless that was declined, and it runs inside a snapshot exactly where that was
/// asked for.
pub proof fn an_agent_works_in_the_guest(
    exec: ExecOptions,
    no_writeback: bool,
    with_snapshot: bool,
    guest_env: Option<GuestEnv>,
)
    requires
        contained(exec, no_writeback, with_snapshot, guest_env),
    ensures
        !exec.no_sync,
        !exec.or_native,
        exec.writeback <==> !no_writeback,
        exec.with_snapshot <==> with_snapshot,
        exec.guest_env == guest_env,
{
}

/// A flag of vm's own is refused among the agent's arguments, with a value or without, and
/// the first is named; arguments that hold none are let through.
pub proof fn vms_own_flags_are_not_the_agents(
    tool: Seq<char>,
    args: Seq<Seq<char>>,
    i: int,
    value: Seq<char>,
    r: Result<(), Failure>,
)
    requires
        checked(tool, args, r),
    ensures
        0 <= i < args.len() && (args[i] == "--with-snapshot"@ || args[i] == "--no-writeback"@
            || args[i] == "--guest-env"@ || args[i] == "--with-file"@ || args[i] == "--quiet"@
            || args[i] == "-q"@ || args[i] == "--guest-env"@ + seq!['='] + value || args[i]
            == "--with-file"@ + seq!['='] + value) ==> r is Err,
        r matches Err(e) ==> e is Usage && exists|j: int|
            0 <= j < args.len() && vm_flags().contains(run::flag_name(#[trigger] args[j]))
                && text::contains(e.says(), run::flag_name(args[j])),
        (forall|j: int|
            0 <= j < args.len() ==> (#[trigger] args[j]).len() == 0 || args[j][0] != '-')
            ==> r is Ok,
{
    let all = vm_flags();
    reveal_strlit("--with-snapshot");
    reveal_strlit("--no-writeback");
    reveal_strlit("--guest-env");
    reveal_strlit("--with-file");
    reveal_strlit("--quiet");
    reveal_strlit("-q");
    assert(all[0] == "--with-snapshot"@ && all[1] == "--no-writeback"@ && all[2] == "--guest-env"@
        && all[3] == "--with-file"@ && all[4] == "--quiet"@ && all[5] == "-q"@);
    run::a_flag_ends_at_its_value("--with-snapshot"@, value);
    run::a_flag_ends_at_its_value("--no-writeback"@, value);
    run::a_flag_ends_at_its_value("--guest-env"@, value);
    run::a_flag_ends_at_its_value("--with-file"@, value);
    run::a_flag_ends_at_its_value("--quiet"@, value);
    run::a_flag_ends_at_its_value("-q"@, value);
    assert forall|k: int| 0 <= k < all.len() implies (#[trigger] all[k]).len() > 0 && all[k][0]
        == '-' by {}
    if r is Err {
        let e = r->Err_0;
        let j = choose|j: int|
            {
                &&& 0 <= j < args.len()
                &&& is_misplaced(#[trigger] args[j])
                &&& forall|k: int| 0 <= k < j ==> !is_misplaced(#[trigger] args[k])
                &&& e.says() == misplaced_text(tool, run::flag_name(args[j]))
            };
        let name = run::flag_name(args[j]);
        let tail = "` is a vm flag, but here it sits after an argument vm does not know, so it would be passed to "@
            + tool
            + " verbatim and have no effect.\n  Put vm's own flags before the prompt: `vm "@ + tool
            + " <alias> "@ + name + " … \"<prompt>\" ["@ + tool + " flags…]`"@;
        assert(e.says() =~= "`"@ + name + tail);
        text::what_is_contained_is_there("`"@, name, tail);
        assert(vm_flags().contains(name));
        if forall|k: int|
            0 <= k < args.len() ==> (#[trigger] args[k]).len() == 0 || args[k][0] != '-' {
            let k = choose|k: int| 0 <= k < all.len() && all[k] == name;
            assert(name[0] == '-' && name.len() > 0);
            text::first_index_is_first(args[j], '=');
            assert(args[j][0] == name[0]);
        }
    }
}

/// An agent is started so that it asks nothing: both agents are told so by their own flags,
/// in front of everything else.
pub proof fn an_agent_asks_nothing(
    binary: Seq<char>,
    args: Seq<Seq<char>>,
    prompt: Seq<char>,
)
    ensures
        headless_argv(Agent::Claude, binary, args, prompt) == seq![
            binary,
            "-p"@,
            "--dangerously-skip-permissions"@,
        ] + args + seq![prompt],
        headless_argv(Agent::Codex, binary, args, prompt) == seq![
            "codex"@,
            "exec"@,
            "--dangerously-bypass-approvals-and-sandbox"@,
        ] + args + seq![prompt],
{
}

/// These flags are vm's own, and no others.
pub proof fn vm_has_these_flags(arg: Seq<char>, binary: Seq<char>)
    ensures
        is_misplaced(arg) <==> {
            let name = run::flag_name(arg);
            ||| name == "--with-snapshot"@
            ||| name == "--no-writeback"@
            ||| name == "--guest-env"@
            ||| name == "--with-file"@
            ||| name == "--quiet"@
            ||| name == "-q"@
        },
        Agent::Claude.probe(binary) == binary + " -p --model haiku \"say hi\""@,
        Agent::Codex.probe(binary) == "codex exec --skip-git-repo-check \"say hi\""@,
{
    let all = vm_flags();
    assert(all[0] == "--with-snapshot"@ && all[1] == "--no-writeback"@ && all[2] == "--guest-env"@
        && all[3] == "--with-file"@ && all[4] == "--quiet"@ && all[5] == "-q"@);
}

} // verus!
