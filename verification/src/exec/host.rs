//! `vm exec` on the host: what the guest is asked to run, and what is made of
//! the way it ended.

use super::advise::{self, StdinSource};
use super::{path_override, spawn_failure, SpawnError, Unspawned};
use crate::commands;
use crate::config::{self, Config, GuestOs, VmConfig};
use crate::exec;
use crate::exit::{infra, usage, Failure};
use crate::guest_env::{ActiveEnv, GuestEnv};
use crate::journal::Say;
use crate::json;
use crate::mapping::{self, RepoLocation};
use crate::ordmap::OrdMap;
use crate::prl;
use crate::proto::{self, ExecRequest};
use crate::ssh::{self, SshTarget};
use crate::sync::git::owned;
use crate::text;
use vstd::prelude::*;

verus! {

/// The choices of an exec.
#[derive(Debug)]
pub struct ExecOptions {
    /// Run against the guest checkout as it is.
    pub no_sync: bool,
    /// Apply the source changes made in the guest to the host tree.
    pub writeback: bool,
    /// Snapshot the VM, run, then roll it back.
    pub with_snapshot: bool,
    /// Run natively where the host already is the target's system.
    pub or_native: bool,
    /// An explicit guest environment; without one, the repo decides.
    pub guest_env: Option<GuestEnv>,
    /// Variables for the command, as `NAME=value` or a bare `NAME`.
    pub env: Vec<String>,
    /// Gitignored files to sync anyway.
    pub with_file: Vec<String>,
    pub cmd: Vec<String>,
}

// ── The pulse ────────────────────────────────────────────────────────────────

/// How often to beat, in nanoseconds: four times in the silence budget, so that
/// a beat or two can be lost without the agent taking the host for dead.
pub fn beat_interval(req: &ExecRequest) -> (r: u128)
    ensures
        r * 4 == proto::budget(*req),
{
    match req.heartbeat_timeout_ms {
        Some(ms) => ms as u128 * 250_000,
        None => proto::HEARTBEAT_INTERVAL,
    }
}

// ── The command ──────────────────────────────────────────────────────────────

/// The shell that runs a script on a system, and the flag that takes it.
pub open spec fn shell(os: GuestOs) -> Seq<Seq<char>> {
    match os {
        GuestOs::Windows => seq!["cmd"@, "/C"@],
        GuestOs::Linux => seq!["sh"@, "-c"@],
        GuestOs::Macos => seq!["sh"@, "-c"@],
    }
}

/// The argv of a command: several arguments are an argv as they stand, and
/// exactly one is a script for the guest's shell. What wraps it goes in front of
/// either. The rule counts arguments; it never reads them.
pub open spec fn composed(
    cmd: Seq<Seq<char>>,
    prefix: Seq<Seq<char>>,
    os: GuestOs,
) -> Seq<Seq<char>> {
    prefix + (if cmd.len() == 1 {
        shell(os) + cmd
    } else {
        cmd
    })
}

/// The exact argv that the guest execs.
pub fn build_argv(cmd: &[String], genv: &ActiveEnv, guest_os: GuestOs) -> (r: Vec<String>)
    ensures
        text::views(r@) == composed(text::views(cmd@), genv.prefix(), guest_os),
{
    let mut argv: Vec<String> = genv.wrap();
    let ghost all = text::views(cmd@);
    if cmd.len() == 1 {
        let (bin, flag): (&str, &str) = match guest_os {
            GuestOs::Windows => ("cmd", "/C"),
            GuestOs::Linux => ("sh", "-c"),
            GuestOs::Macos => ("sh", "-c"),
        };
        argv.push(bin.to_owned());
        argv.push(flag.to_owned());
        argv.push(cmd[0].as_str().to_owned());
        assert(text::views(argv@) =~= genv.prefix() + (shell(guest_os) + all));
        argv
    } else {
        let ghost head = genv.prefix();
        let mut i: usize = 0;
        assert(head + all.take(0) =~= head);
        while i < cmd.len()
            invariant
                i <= cmd@.len(),
                all == text::views(cmd@),
                text::views(argv@) == head + all.take(i as int),
            decreases cmd@.len() - i,
        {
            let ghost before = argv@;
            let arg = cmd[i].as_str().to_owned();
            argv.push(arg);
            assert(text::views(argv@) =~= text::views(before).push(arg@));
            assert(all.take(i + 1) =~= all.take(i as int).push(all[i as int]));
            i = i + 1;
        }
        assert(all.take(i as int) =~= all);
        argv
    }
}

/// Several arguments reach the guest as they were given, behind the wrap and with
/// no shell in between.
pub proof fn several_arguments_are_untouched(
    cmd: Seq<Seq<char>>,
    prefix: Seq<Seq<char>>,
    os: GuestOs,
    i: int,
)
    requires
        cmd.len() > 1,
        0 <= i < cmd.len(),
    ensures
        composed(cmd, prefix, os).len() == prefix.len() + cmd.len(),
        composed(cmd, prefix, os)[prefix.len() + i] == cmd[i],
{
}

/// One argument is a script: it reaches the guest's shell whole, as the last
/// argument, and the wrap stands around the shell.
pub proof fn one_argument_is_a_script(cmd: Seq<Seq<char>>, prefix: Seq<Seq<char>>, os: GuestOs)
    requires
        cmd.len() == 1,
    ensures
        composed(cmd, prefix, os) == prefix + shell(os) + cmd,
        composed(cmd, prefix, os).last() == cmd[0],
        composed(cmd, prefix, os).len() == prefix.len() + 3,
{
    assert(prefix + (shell(os) + cmd) =~= prefix + shell(os) + cmd);
}

/// A script goes to the shell of the guest's system, behind what wraps it; several
/// arguments go as they are, behind the same; and nothing but the wrap is there
/// where there is no command.
pub proof fn each_system_has_its_shell(
    script: Seq<char>,
    prefix: Seq<Seq<char>>,
    first: Seq<char>,
    rest: Seq<Seq<char>>,
    os: GuestOs,
)
    requires
        rest.len() > 0,
    ensures
        composed(seq![script], prefix, GuestOs::Windows) == prefix + seq!["cmd"@, "/C"@, script],
        composed(seq![script], prefix, GuestOs::Linux) == prefix + seq!["sh"@, "-c"@, script],
        composed(seq![script], prefix, GuestOs::Macos) == prefix + seq!["sh"@, "-c"@, script],
        composed(seq![first] + rest, prefix, os) == prefix + seq![first] + rest,
        composed(Seq::empty(), prefix, os) == prefix,
{
    assert(seq!["cmd"@, "/C"@] + seq![script] =~= seq!["cmd"@, "/C"@, script]);
    assert(seq!["sh"@, "-c"@] + seq![script] =~= seq!["sh"@, "-c"@, script]);
    assert(prefix + (seq![first] + rest) =~= prefix + seq![first] + rest);
    assert(prefix + Seq::<Seq<char>>::empty() =~= prefix);
}

/// A character that makes an argument show in quotes: white space, or one that a
/// shell gives a meaning.
pub open spec fn needs_quotes(c: char) -> bool {
    text::is_space(c) || c == '"' || c == '\'' || c == '`' || c == '$' || c == '&' || c == '|'
        || c == ';' || c == '<' || c == '>' || c == '(' || c == ')' || c == '*' || c == '?'
}

/// An argument as it is shown.
pub open spec fn shown(arg: Seq<char>) -> Seq<char> {
    if arg.len() == 0 || exists|i: int| 0 <= i < arg.len() && needs_quotes(#[trigger] arg[i]) {
        ssh::quoted(arg)
    } else {
        arg
    }
}

/// A command line as it is shown.
pub open spec fn rendered(argv: Seq<Seq<char>>) -> Seq<char> {
    text::joined(argv.map_values(|a: Seq<char>| shown(a)), " "@)
}

fn show(arg: &str) -> (r: String)
    ensures
        r@ == shown(arg@),
{
    let v: Vec<char> = text::chars_of(arg);
    if v.len() == 0 {
        return ssh::shell_quote(arg);
    }
    let mut i: usize = 0;
    while i < v.len()
        invariant
            i <= v@.len(),
            v@ == arg@,
            forall|j: int| 0 <= j < i ==> !needs_quotes(#[trigger] arg@[j]),
        decreases v@.len() - i,
    {
        let c: char = v[i];
        if text::space(c) || c == '"' || c == '\'' || c == '`' || c == '$' || c == '&' || c == '|'
            || c == ';' || c == '<' || c == '>' || c == '(' || c == ')' || c == '*' || c == '?' {
            assert(needs_quotes(arg@[i as int]));
            return ssh::shell_quote(arg);
        }
        i = i + 1;
    }
    arg.to_owned()
}

/// Whatever an argument holds, it is shown as it is, or as the word that a shell
/// reads as that argument; and an argument that is empty, or holds white space or a
/// character that a shell gives a meaning, is shown as such a word.
pub proof fn what_is_shown_reads_back(arg: Seq<char>, i: int)
    ensures
        shown(arg) == arg || ssh::shell_reads(shown(arg), false) == Some(arg),
        arg.len() == 0 ==> ssh::shell_reads(shown(arg), false) == Some(arg) && shown(arg).len() > 0,
        0 <= i < arg.len() && (arg[i] == ' ' || arg[i] == '|' || arg[i] == '&' || arg[i] == ';'
            || arg[i] == '<' || arg[i] == '>' || arg[i] == '$' || arg[i] == '`' || arg[i] == '"'
            || arg[i] == '\'' || arg[i] == '(' || arg[i] == ')' || arg[i] == '*' || arg[i] == '?')
            ==> ssh::shell_reads(shown(arg), false) == Some(arg),
        arg.len() > 0 && (forall|j: int| 0 <= j < arg.len() ==> ssh::is_plain(#[trigger] arg[j]))
            ==> shown(arg) == arg,
{
    ssh::quoting_reads_back(arg);
    reveal_strlit("'");
    if 0 <= i < arg.len() && needs_quotes(arg[i]) {
        assert(shown(arg) == ssh::quoted(arg));
    }
    if arg.len() > 0 && (forall|j: int| 0 <= j < arg.len() ==> ssh::is_plain(#[trigger] arg[j])) {
        assert forall|j: int| 0 <= j < arg.len() implies !needs_quotes(#[trigger] arg[j]) by {
            assert(ssh::is_plain(arg[j]));
        }
    }
}

/// The arguments of a command line are shown one after the other, each as if it
/// were alone, with a blank in between.
pub proof fn arguments_are_shown_in_turn(a: Seq<Seq<char>>, arg: Seq<char>)
    requires
        a.len() > 0,
    ensures
        rendered(a.push(arg)) == rendered(a) + " "@ + rendered(seq![arg]),
        rendered(seq![arg]) == shown(arg),
{
    let f = |s: Seq<char>| shown(s);
    assert(a.push(arg).map_values(f) =~= a.map_values(f) + seq![arg].map_values(f));
    text::join_parts(a.map_values(f), seq![arg].map_values(f), " "@);
    text::join_parts(seq![arg].map_values(f), Seq::empty(), " "@);
}

/// The command line for the breadcrumb, which always shows the literal command
/// that runs. An argument that holds shell syntax is one argument still, and
/// shows as one.
pub fn render_argv(argv: &[String]) -> (r: String)
    ensures
        r@ == rendered(text::views(argv@)),
{
    let mut parts: Vec<String> = Vec::new();
    let ghost f = |a: Seq<char>| shown(a);
    let ghost all = text::views(argv@);
    let mut i: usize = 0;
    assert(text::views(parts@) =~= all.take(0).map_values(f));
    while i < argv.len()
        invariant
            i <= argv@.len(),
            all == text::views(argv@),
            f == (|a: Seq<char>| shown(a)),
            text::views(parts@) == all.take(i as int).map_values(f),
        decreases argv@.len() - i,
    {
        let ghost before = parts@;
        let part = show(argv[i].as_str());
        parts.push(part);
        assert(text::views(parts@) =~= text::views(before).push(part@));
        assert(all.take(i + 1).map_values(f) =~= all.take(i as int).map_values(f).push(
            f(all[i as int]),
        ));
        i = i + 1;
    }
    assert(all.take(i as int) =~= all);
    text::join(&parts, " ")
}

// ── The removed flag ─────────────────────────────────────────────────────────

/// `args` without the separators it begins with.
pub open spec fn past_separators(args: Seq<Seq<char>>) -> Seq<Seq<char>>
    decreases args.len(),
{
    if args.len() > 0 && args[0] == "--"@ {
        past_separators(args.skip(1))
    } else {
        args
    }
}

/// The refusal of a command that begins with the removed flag.
pub open spec fn removed_flag(cmd: Seq<Seq<char>>) -> Seq<char> {
    "`--shell` no longer exists — a command's *form* now says whether it is a script.\n  Pass the script as ONE argument and the guest's shell runs it: vm exec <alias> -- '"@
        + text::joined(past_separators(cmd.skip(1)), " "@)
        + "'\n  Several arguments still run exactly as given, with no shell involved."@
}

/// Refuses a command that begins with the removed `--shell` flag, and says what
/// replaced it. Further along, the word is an argument like any other.
pub fn reject_removed_flags(cmd: &[String]) -> (r: Result<(), Failure>)
    ensures
        match r {
            Ok(_) => cmd@.len() == 0 || cmd@[0]@ != "--shell"@,
            Err(e) => cmd@.len() > 0 && cmd@[0]@ == "--shell"@ && e is Usage && e.says()
                == removed_flag(text::views(cmd@)),
        },
{
    if cmd.len() == 0 || !text::same(cmd[0].as_str(), "--shell") {
        return Ok(());
    }
    let ghost all = text::views(cmd@);
    let mut from: usize = 1;
    while from < cmd.len() && text::same(cmd[from].as_str(), "--")
        invariant
            1 <= from <= cmd@.len(),
            all == text::views(cmd@),
            past_separators(all.skip(1)) == past_separators(all.skip(from as int)),
        decreases cmd@.len() - from,
    {
        assert(all.skip(from as int)[0] == cmd@[from as int]@);
        assert(all.skip(from as int).skip(1) =~= all.skip(from + 1));
        from = from + 1;
    }
    let mut rest: Vec<String> = Vec::new();
    let mut i: usize = from;
    assert(all.subrange(from as int, from as int) =~= text::views(rest@));
    while i < cmd.len()
        invariant
            from <= i <= cmd@.len(),
            all == text::views(cmd@),
            text::views(rest@) == all.subrange(from as int, i as int),
        decreases cmd@.len() - i,
    {
        let ghost before = rest@;
        let arg = cmd[i].as_str().to_owned();
        rest.push(arg);
        assert(text::views(rest@) =~= text::views(before).push(arg@));
        assert(all.subrange(from as int, i + 1) =~= all.subrange(from as int, i as int).push(
            all[i as int],
        ));
        i = i + 1;
    }
    proof {
        assert(all.subrange(from as int, i as int) =~= all.skip(from as int));
        if from < cmd@.len() {
            assert(all.skip(from as int)[0] == cmd@[from as int]@);
        }
        assert(past_separators(all.skip(from as int)) == all.skip(from as int));
    }
    let mut msg =
        "`--shell` no longer exists — a command's *form* now says whether it is a script.\n  Pass the script as ONE argument and the guest's shell runs it: vm exec <alias> -- '".to_owned();
    msg.append(text::join(&rest, " ").as_str());
    msg.append("'\n  Several arguments still run exactly as given, with no shell involved.");
    Err(usage(msg))
}

// ── Variables for the command ────────────────────────────────────────────────

/// The name that a spec is about: what stands before its first equals sign, or
/// all of it.
pub open spec fn spec_name(spec: Seq<char>) -> Seq<char> {
    spec.take(text::first_index(spec, '='))
}

/// Whether a spec gives the value itself.
pub open spec fn spec_assigns(spec: Seq<char>) -> bool {
    text::first_index(spec, '=') < spec.len()
}

/// Whether the host can answer `value` for a variable of this name.
pub open spec fn host_has<F: Fn(&str) -> Option<String>>(
    lookup: F,
    name: Seq<char>,
    value: Option<Seq<char>>,
) -> bool {
    exists|p: &str, o: Option<String>|
        p@ == name && text::opt_string(o) == value && #[trigger] call_ensures(lookup, (p,), o)
}

/// Whether a spec comes to this value: the one it gives, or for a bare name the
/// host's own.
pub open spec fn spec_gives<F: Fn(&str) -> Option<String>>(
    lookup: F,
    spec: Seq<char>,
    value: Seq<char>,
) -> bool {
    if spec_assigns(spec) {
        spec_name(spec).len() > 0 && value == spec.skip(spec_name(spec).len() as int + 1)
    } else {
        host_has(lookup, spec, Some(value))
    }
}

/// What a spec that cannot be resolved is refused with.
pub open spec fn spec_refusal(spec: Seq<char>) -> Seq<char> {
    if spec_assigns(spec) {
        "-e "@ + spec + ": empty variable name"@
    } else {
        "-e "@ + spec + ": not set on host (use -e "@ + spec + "=value to set it explicitly)"@
    }
}

/// Whether a spec cannot be resolved: it names nothing, or the host can answer
/// that the variable is not set.
pub open spec fn spec_fails<F: Fn(&str) -> Option<String>>(lookup: F, spec: Seq<char>) -> bool {
    if spec_assigns(spec) {
        spec_name(spec).len() == 0
    } else {
        host_has(lookup, spec, None)
    }
}

/// The variables that some specs set, given what each comes to. On a name that
/// occurs twice, the last one wins.
pub open spec fn variables(specs: Seq<Seq<char>>, values: Seq<Seq<char>>) -> Map<
    Seq<char>,
    Seq<char>,
>
    decreases specs.len(),
{
    if specs.len() == 0 || values.len() == 0 {
        Map::empty()
    } else {
        variables(specs.drop_last(), values.drop_last()).insert(
            spec_name(specs.last()),
            values.last(),
        )
    }
}

/// Whether `values` are what the specs come to, one for each.
pub open spec fn all_given<F: Fn(&str) -> Option<String>>(
    lookup: F,
    specs: Seq<Seq<char>>,
    values: Seq<Seq<char>>,
) -> bool {
    values.len() == specs.len() && forall|i: int|
        0 <= i < specs.len() ==> spec_gives(lookup, specs[i], #[trigger] values[i])
}

/// Resolves specs into an explicit map. A bad spec is the caller's own doing, so
/// it is a usage error: the first one that fails is the one reported.
pub fn resolve_env<F: Fn(&str) -> Option<String>>(specs: &[String], lookup: F) -> (r: Result<
    OrdMap<String>,
    Failure,
>)
    requires
        forall|p: &str| call_requires(lookup, (p,)),
    ensures
        match r {
            Ok(env) => exists|values: Seq<Seq<char>>|
                #[trigger] all_given(lookup, text::views(specs@), values) && json::texts(env)
                    == variables(text::views(specs@), values),
            Err(e) => exists|i: int, values: Seq<Seq<char>>|
                {
                    &&& 0 <= i < specs@.len()
                    &&& #[trigger] all_given(lookup, text::views(specs@).take(i), values)
                    &&& spec_fails(lookup, specs@[i]@)
                    &&& e is Usage
                    &&& e.says() == spec_refusal(specs@[i]@)
                },
        },
{
    let mut env: OrdMap<String> = OrdMap::new();
    let ghost all = text::views(specs@);
    let ghost mut values: Seq<Seq<char>> = Seq::empty();
    let ghost f = |s: String| s@;
    let mut i: usize = 0;
    assert(json::texts(env) =~= Map::<Seq<char>, Seq<char>>::empty());
    while i < specs.len()
        invariant
            i <= specs@.len(),
            all == text::views(specs@),
            f == (|s: String| s@),
            forall|p: &str| call_requires(lookup, (p,)),
            all_given(lookup, all.take(i as int), values),
            json::texts(env) == variables(all.take(i as int), values),
        decreases specs@.len() - i,
    {
        let spec: &str = specs[i].as_str();
        let v: Vec<char> = text::chars_of(spec);
        let eq: usize = text::index_from(&v, 0, '=');
        assert(spec@.skip(0) =~= spec@);
        assert(all[i as int] == spec@);
        let (name, value): (String, String) = if eq < v.len() {
            if eq == 0 {
                assert(spec_name(spec@).len() == 0);
                assert(all_given(lookup, all.take(i as int), values));
                let mut msg = "-e ".to_owned();
                msg.append(spec);
                msg.append(": empty variable name");
                return Err(usage(msg));
            }
            let name = text::slice(&v, 0, eq);
            let value = text::slice(&v, eq + 1, v.len());
            assert(name@ =~= spec_name(spec@));
            assert(value@ =~= spec@.skip(spec_name(spec@).len() as int + 1));
            (name, value)
        } else {
            let answer: Option<String> = lookup(spec);
            assert(host_has(lookup, spec@, text::opt_string(answer)));
            match answer {
                Some(value) => {
                    let name = spec.to_owned();
                    assert(spec@.take(spec@.len() as int) =~= spec@);
                    assert(name@ == spec_name(spec@));
                    (name, value)
                },
                None => {
                    assert(all_given(lookup, all.take(i as int), values));
                    let mut msg = "-e ".to_owned();
                    msg.append(spec);
                    msg.append(": not set on host (use -e ");
                    msg.append(spec);
                    msg.append("=value to set it explicitly)");
                    return Err(usage(msg));
                },
            }
        };
        let ghost given = value@;
        let ghost before = env@;
        proof {
            assert(spec_gives(lookup, spec@, given));
            assert(all.take(i + 1).drop_last() =~= all.take(i as int));
            assert(values.push(given).drop_last() =~= values);
            assert(before.insert(name@, value).map_values(f) =~= before.map_values(f).insert(
                name@,
                given,
            ));
        }
        env.insert(name, value);
        proof {
            let old_values = values;
            values = values.push(given);
            assert forall|j: int| 0 <= j < all.take(i + 1).len() implies spec_gives(
                lookup,
                all.take(i + 1)[j],
                #[trigger] values[j],
            ) by {
                if j < i {
                    assert(all.take(i as int)[j] == all.take(i + 1)[j]);
                    assert(old_values[j] == values[j]);
                }
            }
        }
        i = i + 1;
    }
    assert(all.take(i as int) =~= all);
    assert(all_given(lookup, all, values));
    Ok(env)
}

/// What is said of specs that resolve: the values, one for each spec, are known.
pub open spec fn resolves<F: Fn(&str) -> Option<String>>(
    lookup: F,
    specs: Seq<Seq<char>>,
) -> bool {
    exists|values: Seq<Seq<char>>| #[trigger] all_given(lookup, specs, values)
}

/// Whether this is the refusal of the first spec that does not resolve.
pub open spec fn refuses<F: Fn(&str) -> Option<String>>(
    lookup: F,
    specs: Seq<Seq<char>>,
    e: Failure,
) -> bool {
    exists|i: int|
        {
            &&& 0 <= i < specs.len()
            &&& resolves(lookup, #[trigger] specs.take(i))
            &&& spec_fails(lookup, specs[i])
            &&& e is Usage
            &&& e.says() == spec_refusal(specs[i])
        }
}

/// The last spec of a name is the one that counts.
pub proof fn last_spec_wins(specs: Seq<Seq<char>>, values: Seq<Seq<char>>, i: int)
    requires
        specs.len() == values.len(),
        0 <= i < specs.len(),
        forall|j: int| i < j < specs.len() ==> spec_name(#[trigger] specs[j]) != spec_name(specs[i]),
    ensures
        variables(specs, values).contains_key(spec_name(specs[i])),
        variables(specs, values)[spec_name(specs[i])] == values[i],
    decreases specs.len(),
{
    if i < specs.len() - 1 {
        let front = specs.drop_last();
        let v = values.drop_last();
        assert(specs[specs.len() - 1] == specs.last());
        assert forall|j: int| i < j < front.len() implies spec_name(#[trigger] front[j])
            != spec_name(front[i]) by {
            assert(front[j] == specs[j]);
        }
        last_spec_wins(front, v, i);
    }
}

proof fn name_before_equals(name: Seq<char>, value: Seq<char>)
    requires
        !name.contains('='),
    ensures
        spec_name(name + seq!['='] + value) == name,
        spec_assigns(name + seq!['='] + value),
        spec_name(name) == name,
        !spec_assigns(name),
{
    let spec = name + seq!['='] + value;
    text::first_index_is_first(spec, '=');
    text::first_index_is_first(name, '=');
    let i = text::first_index(spec, '=');
    assert(spec[name.len() as int] == '=');
    if i < name.len() {
        assert(spec[i] == name[i]);
        assert(name.contains(name[i]));
    }
    assert(i == name.len());
    assert(spec.take(i) =~= name);
    if text::first_index(name, '=') < name.len() {
        assert(name.contains(name[text::first_index(name, '=')]));
    }
    assert(name.take(name.len() as int) =~= name);
}

/// A value arrives whole, whatever it holds: the spec `name=value` resolves, to the
/// one variable of that name with exactly that value, and it is never refused.
pub proof fn a_value_arrives_whole<F: Fn(&str) -> Option<String>>(
    lookup: F,
    name: Seq<char>,
    value: Seq<char>,
    values: Seq<Seq<char>>,
    e: Failure,
)
    requires
        name.len() > 0,
        !name.contains('='),
    ensures
        ({
            let specs = seq![name + seq!['='] + value];
            &&& all_given(lookup, specs, seq![value])
            &&& all_given(lookup, specs, values) ==> variables(specs, values) == Map::<
                Seq<char>,
                Seq<char>,
            >::empty().insert(name, value)
            &&& resolves(lookup, specs)
            &&& !refuses(lookup, specs, e)
        }),
{
    let spec = name + seq!['='] + value;
    let specs = seq![spec];
    name_before_equals(name, value);
    assert(spec.skip(name.len() as int + 1) =~= value);
    assert(all_given(lookup, specs, seq![value]));
    if all_given(lookup, specs, values) {
        assert(spec_gives(lookup, specs[0], values[0]));
        assert(specs.drop_last() =~= Seq::<Seq<char>>::empty());
        assert(variables(specs.drop_last(), values.drop_last()) =~= Map::empty());
        assert(values.last() == values[0]);
    }
    assert forall|i: int| 0 <= i < specs.len() implies !spec_fails(lookup, #[trigger] specs[i]) by {
        assert(specs[i] == spec);
    }
}

/// A name alone resolves to what the host answers for that name, and to nothing
/// else; a spec without a name resolves to nothing.
pub proof fn a_bare_name_forwards_the_hosts<F: Fn(&str) -> Option<String>>(
    lookup: F,
    name: Seq<char>,
    values: Seq<Seq<char>>,
)
    requires
        !name.contains('='),
    ensures
        all_given(lookup, seq![name], values) ==> {
            &&& variables(seq![name], values) == Map::<Seq<char>, Seq<char>>::empty().insert(
                name,
                values[0],
            )
            &&& exists|p: &str, o: Option<String>|
                p@ == name && o is Some && o->0@ == values[0] && #[trigger] call_ensures(
                    lookup,
                    (p,),
                    o,
                )
        },
        !all_given(lookup, seq![seq!['='] + name], values),
        spec_fails(lookup, seq!['='] + name),
{
    name_before_equals(name, Seq::empty());
    name_before_equals(Seq::empty(), name);
    assert(Seq::<char>::empty() + seq!['='] + name =~= seq!['='] + name);
    let specs = seq![name];
    if all_given(lookup, specs, values) {
        assert(spec_gives(lookup, specs[0], values[0]));
        assert(host_has(lookup, name, Some(values[0])));
        assert(specs.drop_last() =~= Seq::<Seq<char>>::empty());
        assert(variables(specs.drop_last(), values.drop_last()) =~= Map::empty());
        assert(values.last() == values[0]);
        let (p, o) = choose|p: &str, o: Option<String>|
            p@ == name && text::opt_string(o) == Some(values[0]) && #[trigger] call_ensures(
                lookup,
                (p,),
                o,
            );
        assert(p@ == name && o is Some && o->0@ == values[0]);
    }
    let nameless = seq![seq!['='] + name];
    if all_given(lookup, nameless, values) {
        assert(spec_gives(lookup, nameless[0], values[0]));
    }
}

/// Among several specs, each name has the value of its last one, and no variable is
/// set that no spec names.
pub proof fn each_name_has_its_last_value<F: Fn(&str) -> Option<String>>(
    lookup: F,
    specs: Seq<Seq<char>>,
    values: Seq<Seq<char>>,
    i: int,
    name: Seq<char>,
    value: Seq<char>,
    key: Seq<char>,
)
    requires
        all_given(lookup, specs, values),
        0 <= i < specs.len(),
        name.len() > 0,
        !name.contains('='),
        specs[i] == name + seq!['='] + value,
        forall|j: int|
            i < j < specs.len() ==> #[trigger] specs[j] != name && !text::starts_with(
                specs[j],
                name + seq!['='],
            ),
    ensures
        variables(specs, values).contains_key(name),
        variables(specs, values)[name] == value,
        variables(specs, values).contains_key(key) ==> exists|j: int|
            0 <= j < specs.len() && (#[trigger] specs[j] == key || text::starts_with(
                specs[j],
                key + seq!['='],
            )),
{
    name_before_equals(name, value);
    assert(spec_gives(lookup, specs[i], values[i]));
    assert(specs[i].skip(name.len() as int + 1) =~= value);
    assert forall|j: int| i < j < specs.len() implies spec_name(#[trigger] specs[j]) != spec_name(
        specs[i],
    ) by {
        named_specs_begin_with_their_name(specs[j]);
    }
    last_spec_wins(specs, values, i);
    if variables(specs, values).contains_key(key) {
        every_variable_is_named(specs, values, key);
        let j = choose|j: int| 0 <= j < specs.len() && spec_name(#[trigger] specs[j]) == key;
        named_specs_begin_with_their_name(specs[j]);
    }
}

proof fn named_specs_begin_with_their_name(spec: Seq<char>)
    ensures
        spec == spec_name(spec) || text::starts_with(spec, spec_name(spec) + seq!['=']),
{
    text::first_index_is_first(spec, '=');
    let i = text::first_index(spec, '=');
    if i < spec.len() {
        assert(spec.take(i + 1) =~= spec_name(spec) + seq!['=']);
    } else {
        assert(spec.take(i) =~= spec);
    }
}

proof fn every_variable_is_named(specs: Seq<Seq<char>>, values: Seq<Seq<char>>, key: Seq<char>)
    requires
        variables(specs, values).contains_key(key),
    ensures
        exists|j: int| 0 <= j < specs.len() && spec_name(#[trigger] specs[j]) == key,
    decreases specs.len(),
{
    if specs.len() > 0 && values.len() > 0 {
        if spec_name(specs.last()) == key {
            assert(specs[specs.len() - 1] == specs.last());
        } else {
            every_variable_is_named(specs.drop_last(), values.drop_last(), key);
            let j = choose|j: int|
                0 <= j < specs.drop_last().len() && spec_name(#[trigger] specs.drop_last()[j])
                    == key;
            assert(specs[j] == specs.drop_last()[j]);
        }
    }
}

// ── Where a command goes ─────────────────────────────────────────────────────

/// What is known when an exec moves on.
#[derive(Debug)]
pub enum ExecEvent<'a> {
    /// Nothing yet.
    Begin,
    /// Whether the files to force into the sync could be resolved.
    FilesResolved(Result<(), Failure>),
    /// The configuration, or why there is none.
    ConfigLoaded(Result<&'a Config, Failure>),
}

/// What an exec does next.
#[derive(Debug)]
pub enum ExecAction {
    /// Resolve the files to force into the sync.
    ResolveFiles,
    /// Load the configuration.
    LoadConfig,
    /// Run the command here: the host is the target's system.
    RunNative,
    /// Run the command in the VM, inside a snapshot or not, after saying this.
    RunInGuest(bool, Option<String>),
    Fail(Failure),
}

/// Whether a target is literally named for the host's own system.
pub open spec fn names_host(target: Seq<char>, host: GuestOs) -> bool {
    GuestOs::named(target) == Some(host)
}

/// What follows once the files to force are known to resolve.
pub open spec fn after_files(
    target: Seq<char>,
    opts: ExecOptions,
    host: GuestOs,
    action: ExecAction,
) -> bool {
    if opts.cmd@.len() > 0 && opts.cmd@[0]@ == "--shell"@ {
        action matches ExecAction::Fail(e) && e is Usage && e.says() == removed_flag(
            text::views(opts.cmd@),
        )
    } else if opts.or_native && names_host(target, host) {
        action is RunNative
    } else {
        action is LoadConfig
    }
}

/// What follows what is known.
pub open spec fn exec_follows<F: Fn(&str) -> Option<String>>(
    target: Seq<char>,
    opts: ExecOptions,
    lookup: F,
    host: GuestOs,
    stdin: Option<StdinSource>,
    config_path: Seq<char>,
    event: ExecEvent,
    action: ExecAction,
) -> bool {
    match event {
        ExecEvent::Begin => {
            ||| action matches ExecAction::Fail(e) && refuses(lookup, text::views(opts.env@), e)
            ||| {
                &&& resolves(lookup, text::views(opts.env@))
                &&& if opts.with_file@.len() > 0 {
                    action is ResolveFiles
                } else {
                    after_files(target, opts, host, action)
                }
            }
        },
        ExecEvent::FilesResolved(Err(e)) => action == ExecAction::Fail(e),
        ExecEvent::FilesResolved(Ok(_)) => after_files(target, opts, host, action),
        ExecEvent::ConfigLoaded(Err(e)) => action == ExecAction::Fail(e),
        ExecEvent::ConfigLoaded(Ok(cfg)) => if !cfg.vm@.contains_key(target) {
            action matches ExecAction::Fail(e) && e is Usage && e.says() == config::unknown_alias(
                cfg.vm.items(),
                target,
                config_path,
            )
        } else if opts.or_native && cfg.vm@[target].os == host {
            action is RunNative
        } else {
            action matches ExecAction::RunInGuest(snapshot, note) && snapshot == opts.with_snapshot
                && text::opt_string(note) == (match stdin {
                Some(s) => Some("vm ▸ note: "@ + advise::stdin_text(s)),
                None => None,
            })
        },
    }
}

fn route_by_name(target: &str, opts: &ExecOptions, host: GuestOs) -> (r: ExecAction)
    ensures
        after_files(target@, *opts, host, r),
{
    if let Err(e) = reject_removed_flags(&opts.cmd) {
        return ExecAction::Fail(e);
    }
    if opts.or_native {
        if let Some(os) = GuestOs::parse(target) {
            if os == host {
                return ExecAction::RunNative;
            }
        }
    }
    ExecAction::LoadConfig
}

/// What an exec does next. The invocation is checked before anything is
/// touched: a bad spec must not first cost a boot and a sync. A target named for
/// the host's own system goes native without a configuration; any other target
/// needs one to learn its system.
pub fn exec<F: Fn(&str) -> Option<String>>(
    target: &str,
    opts: &ExecOptions,
    lookup: F,
    host: GuestOs,
    stdin: Option<StdinSource>,
    config_path: &str,
    event: ExecEvent,
) -> (r: ExecAction)
    requires
        forall|p: &str| call_requires(lookup, (p,)),
    ensures
        exec_follows(target@, *opts, lookup, host, stdin, config_path@, event, r),
{
    match event {
        ExecEvent::Begin => {
            match resolve_env(&opts.env, lookup) {
                Ok(_) => {
                    assert(resolves(lookup, text::views(opts.env@)));
                    if opts.with_file.len() > 0 {
                        ExecAction::ResolveFiles
                    } else {
                        route_by_name(target, opts, host)
                    }
                },
                Err(e) => {
                    proof {
                        let specs = text::views(opts.env@);
                        let (i, values) = choose|i: int, values: Seq<Seq<char>>|
                            {
                                &&& 0 <= i < opts.env@.len()
                                &&& #[trigger] all_given(lookup, specs.take(i), values)
                                &&& spec_fails(lookup, opts.env@[i]@)
                                &&& e is Usage
                                &&& e.says() == spec_refusal(opts.env@[i]@)
                            };
                        assert(resolves(lookup, specs.take(i)));
                        assert(specs[i] == opts.env@[i]@);
                        assert(refuses(lookup, specs, e));
                    }
                    ExecAction::Fail(e)
                },
            }
        },
        ExecEvent::FilesResolved(Err(e)) => ExecAction::Fail(e),
        ExecEvent::FilesResolved(Ok(_)) => route_by_name(target, opts, host),
        ExecEvent::ConfigLoaded(Err(e)) => ExecAction::Fail(e),
        ExecEvent::ConfigLoaded(Ok(cfg)) => {
            match cfg.get(target, config_path) {
                Err(e) => ExecAction::Fail(e),
                Ok(vm) => {
                    if opts.or_native && vm.os == host {
                        return ExecAction::RunNative;
                    }
                    let note: Option<String> = match advise::stdin_note(stdin) {
                        Some(text) => {
                            let mut line = "vm ▸ note: ".to_owned();
                            line.append(text.as_str());
                            Some(line)
                        },
                        None => None,
                    };
                    ExecAction::RunInGuest(opts.with_snapshot, note)
                },
            }
        },
    }
}

/// Without `--or-native` a command never runs on the host.
pub proof fn only_or_native_runs_natively<F: Fn(&str) -> Option<String>>(
    target: Seq<char>,
    opts: ExecOptions,
    lookup: F,
    host: GuestOs,
    stdin: Option<StdinSource>,
    config_path: Seq<char>,
    event: ExecEvent,
    action: ExecAction,
)
    requires
        exec_follows(target, opts, lookup, host, stdin, config_path, event, action),
        action is RunNative,
    ensures
        opts.or_native,
{
}

/// A target named for the host's own system never needs a configuration to go
/// native: with `--or-native` it is never asked for one.
pub proof fn os_named_target_needs_no_config<F: Fn(&str) -> Option<String>>(
    target: Seq<char>,
    opts: ExecOptions,
    lookup: F,
    host: GuestOs,
    stdin: Option<StdinSource>,
    config_path: Seq<char>,
    event: ExecEvent,
    action: ExecAction,
)
    requires
        opts.or_native,
        names_host(target, host),
        event !is ConfigLoaded,
        exec_follows(target, opts, lookup, host, stdin, config_path, event, action),
    ensures
        action !is LoadConfig,
{
}

/// Whenever an exec goes on to run in the guest, its target is configured, it runs
/// inside a snapshot if and only if that was asked for, and a note comes with it if
/// and only if input was wired into it.
pub proof fn a_guest_run_is_as_asked<F: Fn(&str) -> Option<String>>(
    target: Seq<char>,
    opts: ExecOptions,
    lookup: F,
    host: GuestOs,
    stdin: Option<StdinSource>,
    config_path: Seq<char>,
    event: ExecEvent,
    action: ExecAction,
)
    requires
        exec_follows(target, opts, lookup, host, stdin, config_path, event, action),
        action is RunInGuest,
    ensures
        action->RunInGuest_0 == opts.with_snapshot,
        action->RunInGuest_1 is Some == stdin is Some,
        event matches ExecEvent::ConfigLoaded(Ok(cfg)) && cfg.vm@.contains_key(target) && !(
        opts.or_native && cfg.vm@[target].os == host),
{
}

/// A target that is configured is run: on the host where it was allowed to be and
/// the host is of its system, and in the guest everywhere else. One that is not
/// configured is the caller's mistake, and a configuration that could not be loaded
/// is the failure it was.
pub proof fn a_configured_target_is_run<F: Fn(&str) -> Option<String>>(
    target: Seq<char>,
    opts: ExecOptions,
    lookup: F,
    host: GuestOs,
    stdin: Option<StdinSource>,
    config_path: Seq<char>,
    cfg: &Config,
    e: Failure,
    action: ExecAction,
    failed: ExecAction,
)
    requires
        exec_follows(
            target,
            opts,
            lookup,
            host,
            stdin,
            config_path,
            ExecEvent::ConfigLoaded(Ok(cfg)),
            action,
        ),
        exec_follows(
            target,
            opts,
            lookup,
            host,
            stdin,
            config_path,
            ExecEvent::ConfigLoaded(Err(e)),
            failed,
        ),
    ensures
        cfg.vm@.contains_key(target) && !opts.or_native ==> action is RunInGuest,
        cfg.vm@.contains_key(target) && opts.or_native && cfg.vm@[target].os == host
            ==> action is RunNative,
        cfg.vm@.contains_key(target) && opts.or_native && cfg.vm@[target].os != host
            ==> action is RunInGuest,
        !cfg.vm@.contains_key(target) ==> (action matches ExecAction::Fail(f) && f is Usage),
        failed == ExecAction::Fail(e),
{
}

/// What is checked before a configuration is asked for. Without files to force, an
/// exec whose variables resolve goes on to the configuration, unless it may go
/// native on a host that the target is named for, or it begins with the removed
/// flag, which is refused. With files to force, those are looked for first, and one
/// that is missing ends the exec.
pub proof fn an_invocation_is_checked_first<F: Fn(&str) -> Option<String>>(
    target: Seq<char>,
    opts: ExecOptions,
    lookup: F,
    host: GuestOs,
    stdin: Option<StdinSource>,
    config_path: Seq<char>,
    e: Failure,
    begun: ExecAction,
    resolved: ExecAction,
    missing: ExecAction,
)
    requires
        exec_follows(target, opts, lookup, host, stdin, config_path, ExecEvent::Begin, begun),
        exec_follows(
            target,
            opts,
            lookup,
            host,
            stdin,
            config_path,
            ExecEvent::FilesResolved(Ok(())),
            resolved,
        ),
        exec_follows(
            target,
            opts,
            lookup,
            host,
            stdin,
            config_path,
            ExecEvent::FilesResolved(Err(e)),
            missing,
        ),
    ensures
        missing == ExecAction::Fail(e),
        begun matches ExecAction::Fail(f) ==> f is Usage,
        begun !is Fail && opts.with_file@.len() > 0 ==> begun is ResolveFiles,
        begun !is Fail && opts.with_file@.len() == 0 ==> begun is LoadConfig || begun is RunNative,
        opts.env@.len() == 0 && opts.with_file@.len() > 0 ==> begun is ResolveFiles,
        opts.env@.len() == 0 && opts.with_file@.len() == 0 ==> (begun is Fail == resolved is Fail)
            && (begun is LoadConfig == resolved is LoadConfig),
        opts.cmd@.len() > 0 && opts.cmd@[0]@ == "--shell"@ ==> (resolved matches ExecAction::Fail(
            f,
        ) && f is Usage),
        opts.cmd@.len() == 0 || opts.cmd@[0]@ != "--shell"@ ==> resolved is LoadConfig
            || resolved is RunNative,
        resolved is RunNative ==> opts.or_native && target == host.name(),
        opts.or_native && target == host.name() && (opts.cmd@.len() == 0 || opts.cmd@[0]@
            != "--shell"@) ==> resolved is RunNative,
{
    config::parse_reads_back_the_name(host);
    if resolved is RunNative {
        config::only_names_are_parsed(target, host);
    }
    let specs = text::views(opts.env@);
    if begun is Fail && refuses(lookup, specs, begun->Fail_0) {
        let i = choose|i: int|
            {
                &&& 0 <= i < specs.len()
                &&& resolves(lookup, #[trigger] specs.take(i))
                &&& spec_fails(lookup, specs[i])
                &&& begun->Fail_0 is Usage
                &&& begun->Fail_0.says() == spec_refusal(specs[i])
            };
    }
}

// ── Inside the guest ─────────────────────────────────────────────────────────

/// Where an exec in a guest stands.
#[derive(Debug, Clone, Copy, PartialEq, Eq, Structural)]
pub enum Stage {
    /// The VM is being brought up.
    BringUp,
    /// The repo is being looked for.
    Discover,
    /// The repo is being synced.
    Sync,
    /// The checkout is being set up.
    FirstSync,
    /// The command is running.
    Run,
    /// The host is looked at for files that stayed behind.
    Unsynced,
    /// The guest's changes are being brought back.
    Writeback,
    /// Nothing is left to do.
    Over,
}

/// An exec in a guest: where it stands, whether it synced, and how the command
/// ended, once it did.
#[derive(Debug, Clone, Copy, PartialEq, Eq, Structural)]
pub struct Progress {
    pub stage: Stage,
    pub synced: bool,
    pub code: i32,
}

/// How a stage ended.
#[derive(Debug)]
pub enum Ended {
    /// It went through.
    Done,
    /// The command exited with this code.
    Exited(i32),
    /// It did not go through.
    Failed(Failure),
}

/// What an exec in a guest does next.
#[derive(Debug)]
pub enum Todo {
    /// Carry out the stage that was moved to.
    Carry,
    /// The command is over: return its code.
    Finish(i32),
    /// The command is over and its changes are not brought back: say so, and
    /// return its code.
    SkipWriteback(i32),
    Fail(Failure),
}

/// The line for changes that are not brought back.
pub open spec fn skipped_writeback(alias: Seq<char>) -> Seq<char> {
    "vm ▸ "@ + alias
        + " ▸ writeback skipped — exit 255 may be a dropped connection rather than the command's own status, so the guest tree is not trusted"@
}

/// Whether a stage can end like this.
pub open spec fn can_end(stage: Stage, ended: Ended) -> bool {
    match ended {
        Ended::Done => stage != Stage::Run && stage != Stage::Over,
        Ended::Exited(_) => stage == Stage::Run,
        Ended::Failed(_) => stage != Stage::Over,
    }
}

/// The stage once the command is over and its failure explained.
pub open spec fn closing(writeback: bool, synced: bool, code: i32) -> Stage {
    if writeback && synced && code != 255 {
        Stage::Writeback
    } else {
        Stage::Over
    }
}

/// Where an exec in a guest stands after a stage ended.
pub open spec fn progress_after(
    no_sync: bool,
    writeback: bool,
    p: Progress,
    ended: Ended,
) -> Progress {
    match ended {
        Ended::Failed(_) => Progress { stage: Stage::Over, ..p },
        Ended::Exited(code) => Progress {
            stage: if code != 0 && p.synced {
                Stage::Unsynced
            } else {
                closing(writeback, p.synced, code)
            },
            synced: p.synced,
            code,
        },
        Ended::Done => match p.stage {
            Stage::BringUp => Progress { stage: Stage::Discover, ..p },
            Stage::Discover => Progress {
                stage: if no_sync {
                    Stage::FirstSync
                } else {
                    Stage::Sync
                },
                ..p
            },
            Stage::Sync => Progress { stage: Stage::FirstSync, synced: true, ..p },
            Stage::FirstSync => Progress { stage: Stage::Run, ..p },
            Stage::Unsynced => Progress { stage: closing(writeback, p.synced, p.code), ..p },
            _ => Progress { stage: Stage::Over, ..p },
        },
    }
}

/// What is done after a stage ended, given where that leads.
pub open spec fn todo_after(
    writeback: bool,
    stage: Stage,
    next: Progress,
    ended: Ended,
    todo: Todo,
) -> bool {
    match ended {
        Ended::Failed(e) => todo == Todo::Fail(e),
        _ => if next.stage == Stage::Over {
            if writeback && next.synced && next.code == 255 && stage != Stage::Writeback {
                todo == Todo::SkipWriteback(next.code)
            } else {
                todo == Todo::Finish(next.code)
            }
        } else {
            todo is Carry
        },
    }
}

/// Where an exec in a guest stands after a stage ended, and what is done next:
/// bring the VM up, find the repo, sync it, set the checkout up, run, explain a
/// failure, bring changes back. The code that the command ended with is the one
/// returned. On 255 the guest tree is not trusted, and nothing is brought back.
pub fn exec_in(no_sync: bool, writeback: bool, p: Progress, ended: Ended) -> (r: (Progress, Todo))
    requires
        can_end(p.stage, ended),
    ensures
        r.0 == progress_after(no_sync, writeback, p, ended),
        todo_after(writeback, p.stage, r.0, ended, r.1),
{
    let stage: Stage = match &ended {
        Ended::Failed(_) => Stage::Over,
        Ended::Exited(code) => {
            if *code != 0 && p.synced {
                Stage::Unsynced
            } else if writeback && p.synced && *code != 255 {
                Stage::Writeback
            } else {
                Stage::Over
            }
        },
        Ended::Done => match p.stage {
            Stage::BringUp => Stage::Discover,
            Stage::Discover => if no_sync {
                Stage::FirstSync
            } else {
                Stage::Sync
            },
            Stage::Sync => Stage::FirstSync,
            Stage::FirstSync => Stage::Run,
            Stage::Unsynced => if writeback && p.synced && p.code != 255 {
                Stage::Writeback
            } else {
                Stage::Over
            },
            _ => Stage::Over,
        },
    };
    let synced: bool = p.synced || match (&ended, p.stage) {
        (Ended::Done, Stage::Sync) => true,
        _ => false,
    };
    let code: i32 = match &ended {
        Ended::Exited(code) => *code,
        _ => p.code,
    };
    let next = Progress { stage, synced, code };
    let todo: Todo = match ended {
        Ended::Failed(e) => Todo::Fail(e),
        _ => {
            if stage == Stage::Over {
                if writeback && synced && code == 255 && p.stage != Stage::Writeback {
                    Todo::SkipWriteback(code)
                } else {
                    Todo::Finish(code)
                }
            } else {
                Todo::Carry
            }
        },
    };
    (next, todo)
}

/// The line for changes that are not brought back.
pub fn writeback_skipped_line(alias: &str) -> (r: String)
    ensures
        r@ == skipped_writeback(alias@),
{
    let mut line = "vm ▸ ".to_owned();
    line.append(alias);
    line.append(
        " ▸ writeback skipped — exit 255 may be a dropped connection rather than the command's own status, so the guest tree is not trusted",
    );
    line
}

/// Where an exec in a guest stands after its stages ended like this.
pub open spec fn progress_of(no_sync: bool, writeback: bool, history: Seq<Ended>) -> Progress
    decreases history.len(),
{
    if history.len() == 0 {
        Progress { stage: Stage::BringUp, synced: false, code: 0 }
    } else {
        progress_after(
            no_sync,
            writeback,
            progress_of(no_sync, writeback, history.drop_last()),
            history.last(),
        )
    }
}

/// Whether each stage of a history can end as it did.
pub open spec fn possible(no_sync: bool, writeback: bool, history: Seq<Ended>) -> bool
    decreases history.len(),
{
    history.len() == 0 || {
        &&& possible(no_sync, writeback, history.drop_last())
        &&& can_end(progress_of(no_sync, writeback, history.drop_last()).stage, history.last())
    }
}

/// A command runs in a synced checkout unless the sync was declined: from the
/// setup of the checkout on, an exec has synced exactly where it was asked to.
pub proof fn commands_run_in_a_synced_checkout(
    no_sync: bool,
    writeback: bool,
    history: Seq<Ended>,
)
    requires
        possible(no_sync, writeback, history),
    ensures
        ({
            let p = progress_of(no_sync, writeback, history);
            &&& p.stage == Stage::BringUp || p.stage == Stage::Discover || p.stage == Stage::Sync
                ==> !p.synced
            &&& p.stage == Stage::Sync ==> !no_sync
            &&& p.stage == Stage::FirstSync || p.stage == Stage::Run ==> p.synced == !no_sync
            &&& p.stage == Stage::Unsynced ==> p.synced && p.code != 0
        }),
    decreases history.len(),
{
    if history.len() > 0 {
        commands_run_in_a_synced_checkout(no_sync, writeback, history.drop_last());
    }
}

/// Changes are brought back only where that was asked for, a sync gave them a
/// base, and the command's code is one that can be trusted.
pub proof fn writeback_is_asked_for_and_trusted(
    no_sync: bool,
    writeback: bool,
    history: Seq<Ended>,
)
    requires
        possible(no_sync, writeback, history),
    ensures
        ({
            let p = progress_of(no_sync, writeback, history);
            p.stage == Stage::Writeback ==> writeback && p.synced && p.code != 255
        }),
    decreases history.len(),
{
    if history.len() > 0 {
        writeback_is_asked_for_and_trusted(no_sync, writeback, history.drop_last());
    }
}

/// The code an exec ends with is the one its command exited with: nothing after
/// the run changes it.
pub proof fn exit_code_is_the_commands(
    no_sync: bool,
    writeback: bool,
    p: Progress,
    ended: Ended,
)
    requires
        can_end(p.stage, ended),
    ensures
        match ended {
            Ended::Exited(code) => progress_after(no_sync, writeback, p, ended).code == code,
            _ => progress_after(no_sync, writeback, p, ended).code == p.code,
        },
{
}

/// The stages of an exec that no stage fails in, up to its end.
spec fn course(no_sync: bool, writeback: bool, code: i32) -> Seq<Stage> {
    seq![Stage::BringUp, Stage::Discover] + (if no_sync {
        Seq::empty()
    } else {
        seq![Stage::Sync]
    }) + seq![Stage::FirstSync, Stage::Run] + (if !no_sync && code != 0 {
        seq![Stage::Unsynced]
    } else {
        Seq::empty()
    }) + (if writeback && !no_sync && code != 255 {
        seq![Stage::Writeback]
    } else {
        Seq::empty()
    }) + seq![Stage::Over]
}

/// Whether no stage of a history failed, and its command, where it ran, exited with
/// this code.
pub open spec fn went_through(history: Seq<Ended>, code: i32) -> bool {
    forall|i: int|
        0 <= i < history.len() ==> match #[trigger] history[i] {
            Ended::Failed(_) => false,
            Ended::Exited(c) => c == code,
            Ended::Done => true,
        }
}

proof fn keeps_its_course(no_sync: bool, writeback: bool, history: Seq<Ended>, code: i32)
    requires
        possible(no_sync, writeback, history),
        went_through(history, code),
    ensures
        ({
            let p = progress_of(no_sync, writeback, history);
            let all = course(no_sync, writeback, code);
            let n = history.len() as int;
            let run: int = if no_sync {
                3
            } else {
                4
            };
            &&& n < all.len()
            &&& p.stage == all[n]
            &&& p.synced == (!no_sync && n > 2)
            &&& n > run ==> p.code == code
        }),
    decreases history.len(),
{
    let n = history.len() as int;
    if n > 0 {
        let front = history.drop_last();
        assert forall|i: int| 0 <= i < front.len() implies match #[trigger] front[i] {
            Ended::Failed(_) => false,
            Ended::Exited(c) => c == code,
            Ended::Done => true,
        } by {
            assert(front[i] == history[i]);
        }
        keeps_its_course(no_sync, writeback, front, code);
        assert(history[n - 1] == history.last());
        let p = progress_of(no_sync, writeback, front);
        assert(can_end(p.stage, history.last()));
        let all = course(no_sync, writeback, code);
        assert(p.stage == all[n - 1]);
    }
}

proof fn prefixes_are_possible(no_sync: bool, writeback: bool, history: Seq<Ended>, i: int)
    requires
        possible(no_sync, writeback, history),
        0 <= i <= history.len(),
    ensures
        possible(no_sync, writeback, history.take(i)),
    decreases history.len(),
{
    if i == history.len() {
        assert(history.take(i) =~= history);
    } else {
        prefixes_are_possible(no_sync, writeback, history.drop_last(), i);
        assert(history.drop_last().take(i) =~= history.take(i));
    }
}

proof fn is_on_course(no_sync: bool, writeback: bool, history: Seq<Ended>, code: i32, i: int)
    requires
        possible(no_sync, writeback, history),
        went_through(history, code),
        0 <= i <= history.len(),
    ensures
        i < course(no_sync, writeback, code).len(),
        progress_of(no_sync, writeback, history.take(i)).stage == course(
            no_sync,
            writeback,
            code,
        )[i],
{
    prefixes_are_possible(no_sync, writeback, history, i);
    assert forall|j: int| 0 <= j < i implies match #[trigger] history.take(i)[j] {
        Ended::Failed(_) => false,
        Ended::Exited(c) => c == code,
        Ended::Done => true,
    } by {
        assert(history.take(i)[j] == history[j]);
    }
    keeps_its_course(no_sync, writeback, history.take(i), code);
}

/// The command is run in a VM that was brought up, for a repo that was found, in a
/// checkout that was synced unless that was declined and then set up: each of these
/// stages comes in its turn, and went through, before the command runs.
pub proof fn a_command_runs_last(no_sync: bool, writeback: bool, history: Seq<Ended>)
    requires
        possible(no_sync, writeback, history),
        went_through(history, 0),
        progress_of(no_sync, writeback, history).stage == Stage::Run,
    ensures
        history.len() == (if no_sync {
            3int
        } else {
            4
        }),
        progress_of(no_sync, writeback, history.take(0)).stage == Stage::BringUp,
        progress_of(no_sync, writeback, history.take(1)).stage == Stage::Discover,
        !no_sync ==> progress_of(no_sync, writeback, history.take(2)).stage == Stage::Sync,
        progress_of(no_sync, writeback, history.take(history.len() - 1)).stage == Stage::FirstSync,
        forall|i: int| 0 <= i < history.len() ==> #[trigger] history[i] is Done,
{
    let all = course(no_sync, writeback, 0);
    let n = history.len() as int;
    is_on_course(no_sync, writeback, history, 0, n);
    assert(history.take(n) =~= history);
    is_on_course(no_sync, writeback, history, 0, 0);
    is_on_course(no_sync, writeback, history, 0, 1);
    is_on_course(no_sync, writeback, history, 0, 2);
    is_on_course(no_sync, writeback, history, 0, n - 1);
    assert forall|i: int| 0 <= i < n implies #[trigger] history[i] is Done by {
        is_on_course(no_sync, writeback, history, 0, i);
        prefixes_are_possible(no_sync, writeback, history, i + 1);
        assert(history.take(i + 1).drop_last() =~= history.take(i));
        assert(history.take(i + 1).last() == history[i]);
        assert(can_end(progress_of(no_sync, writeback, history.take(i)).stage, history[i]));
    }
}

/// Where bringing changes back was asked for and the run synced, it happens for
/// every code but 255: once the command exited and every later stage went through,
/// the exec has passed through the writeback before it is over.
pub proof fn a_trusted_run_is_written_back(
    no_sync: bool,
    writeback: bool,
    history: Seq<Ended>,
    k: int,
    code: i32,
)
    requires
        possible(no_sync, writeback, history),
        writeback,
        !no_sync,
        0 <= k < history.len(),
        history[k] == Ended::Exited(code),
        code != 255,
        went_through(history, code),
        progress_of(no_sync, writeback, history).stage == Stage::Over,
    ensures
        exists|j: int|
            k < j < history.len() && (#[trigger] progress_of(
                no_sync,
                writeback,
                history.take(j),
            )).stage == Stage::Writeback,
{
    let all = course(no_sync, writeback, code);
    let n = history.len() as int;
    is_on_course(no_sync, writeback, history, code, n);
    assert(history.take(n) =~= history);
    assert(n == all.len() - 1);
    is_on_course(no_sync, writeback, history, code, n - 1);
    is_on_course(no_sync, writeback, history, code, k);
    prefixes_are_possible(no_sync, writeback, history, k + 1);
    assert(history.take(k + 1).drop_last() =~= history.take(k));
    assert(history.take(k + 1).last() == history[k]);
    assert(can_end(progress_of(no_sync, writeback, history.take(k)).stage, history[k]));
    assert(progress_of(no_sync, writeback, history.take(n - 1)).stage == Stage::Writeback);
}

/// A command that failed in a synced checkout is explained, whatever is to be
/// brought back, and one that succeeded, or ran without a sync, is not: the host is
/// looked at for files that stayed behind right after the run, exactly there.
pub proof fn a_failure_is_explained(no_sync: bool, writeback: bool, history: Seq<Ended>, code: i32)
    requires
        possible(no_sync, writeback, history.push(Ended::Exited(code))),
        went_through(history, code),
    ensures
        ({
            let p = progress_of(no_sync, writeback, history.push(Ended::Exited(code)));
            &&& p.stage == Stage::Unsynced <==> !no_sync && code != 0
            &&& p.stage == Stage::Writeback <==> !no_sync && code == 0 && writeback
            &&& p.stage == Stage::Over <==> no_sync || (code == 0 && !writeback)
        }),
{
    let longer = history.push(Ended::Exited(code));
    assert(longer.drop_last() =~= history);
    assert forall|i: int| 0 <= i < longer.len() implies match #[trigger] longer[i] {
        Ended::Failed(_) => false,
        Ended::Exited(c) => c == code,
        Ended::Done => true,
    } by {
        if i < history.len() {
            assert(longer[i] == history[i]);
        }
    }
    keeps_its_course(no_sync, writeback, history, code);
    keeps_its_course(no_sync, writeback, longer, code);
}

/// What an exec does once a stage ended: a failure ends it as the failure it was, a
/// stage that follows is carried out, and at the end the command's own code is
/// returned, with a word about the changes exactly where they were asked for and 255
/// kept them from being brought back.
pub proof fn an_exec_ends_with_its_commands_code(
    no_sync: bool,
    writeback: bool,
    p: Progress,
    ended: Ended,
    todo: Todo,
)
    requires
        can_end(p.stage, ended),
        todo_after(writeback, p.stage, progress_after(no_sync, writeback, p, ended), ended, todo),
    ensures
        ({
            let next = progress_after(no_sync, writeback, p, ended);
            let code = match ended {
                Ended::Exited(c) => c,
                _ => p.code,
            };
            &&& ended matches Ended::Failed(e) ==> todo == Todo::Fail(e) && next.stage
                == Stage::Over
            &&& ended !is Failed && next.stage != Stage::Over ==> todo is Carry
            &&& ended !is Failed && next.stage == Stage::Over ==> todo == Todo::Finish(code) || todo
                == Todo::SkipWriteback(code)
            &&& todo is SkipWriteback ==> writeback && code == 255
            &&& ended is Exited && writeback && p.synced && code == 255
                ==> next.stage == Stage::Unsynced
            &&& ended is Done && p.stage == Stage::Unsynced && writeback && p.synced && code == 255
                ==> todo == Todo::SkipWriteback(255)
        }),
{
}

// ── The request and the transport ────────────────────────────────────────────

/// The request that an exec sends: the composed command in the guest directory
/// for where the call stands, with the variables given and no input.
pub open spec fn is_exec_request(
    req: ExecRequest,
    vm: VmConfig,
    opts: ExecOptions,
    repo: RepoLocation,
    genv: ActiveEnv,
) -> bool {
    &&& req.version == proto::PROTO_VERSION
    &&& text::views(req.argv@) == composed(text::views(opts.cmd@), genv.prefix(), vm.os)
    &&& req.cwd@ == mapping::descended(
        mapping::checkout(vm.work_root@, repo.name@),
        text::split(repo.rel@, '/'),
    )
    &&& req.stdin is None
    &&& req.heartbeat_timeout_ms is None
}

/// The request for the guest, or why there is none: the call stands outside the
/// repo.
pub fn request(
    vm: &VmConfig,
    opts: &ExecOptions,
    repo: &RepoLocation,
    genv: &ActiveEnv,
    env: OrdMap<String>,
) -> (r: Result<ExecRequest, Failure>)
    ensures
        match r {
            Ok(req) => {
                &&& is_exec_request(req, *vm, *opts, *repo, *genv)
                &&& req.env == env
                &&& !(repo.rel@.len() > 0 && repo.rel@[0] == '/')
                &&& !text::split(repo.rel@, '/').contains(".."@)
            },
            Err(e) => e is Infra && (if repo.rel@.len() > 0 && repo.rel@[0] == '/' {
                e.says() == mapping::stray("RootDir"@, repo.rel@)
            } else {
                text::split(repo.rel@, '/').contains(".."@) && e.says() == mapping::stray(
                    "ParentDir"@,
                    repo.rel@,
                )
            }),
        },
{
    match mapping::guest_cwd(vm.work_root.as_str(), repo.name.as_str(), repo.rel.as_str()) {
        Ok(cwd) => Ok(
            ExecRequest {
                version: proto::PROTO_VERSION,
                argv: build_argv(&opts.cmd, genv, vm.os),
                env,
                cwd,
                stdin: None,
                heartbeat_timeout_ms: None,
            },
        ),
        Err(e) => Err(e),
    }
}

/// The line that shows where and what a guest runs.
pub open spec fn running_line(
    alias: Seq<char>,
    name: Seq<char>,
    cwd: Seq<char>,
    who: Seq<char>,
    argv: Seq<Seq<char>>,
) -> Seq<char> {
    "vm ▸ "@ + alias + " ("@ + name + ") ▸ "@ + cwd + who + " ▸ $ "@ + rendered(argv)
}

/// The line that shows where, as whom and what a guest runs: the literal command
/// of the request.
pub fn running(alias: &str, vm: &VmConfig, who: &str, req: &ExecRequest) -> (r: String)
    ensures
        r@ == running_line(
            alias@,
            vm.parallels_name@,
            req.cwd@,
            who@,
            text::views(req.argv@),
        ),
{
    let mut line = "vm ▸ ".to_owned();
    line.append(alias);
    line.append(" (");
    line.append(vm.parallels_name.as_str());
    line.append(") ▸ ");
    line.append(req.cwd.as_str());
    line.append(who);
    line.append(" ▸ $ ");
    line.append(render_argv(&req.argv).as_str());
    line
}

/// The line that a run ends with.
pub fn exit_line(alias: &str, code: i32, took: &str) -> (r: String)
    ensures
        r@ == "vm ▸ "@ + alias@ + " ▸ exit "@ + text::signed_decimal(code as int) + " ▸ "@ + took@
            + "s"@,
{
    let mut line = "vm ▸ ".to_owned();
    line.append(alias);
    line.append(" ▸ exit ");
    line.append(text::to_signed_decimal(code as i128).as_str());
    line.append(" ▸ ");
    line.append(took);
    line.append("s");
    line
}

/// The line for changes that were brought back.
pub fn writeback_line(alias: &str, applied: bool) -> (r: Option<String>)
    ensures
        if applied {
            r matches Some(line) && line@ == "vm ▸ "@ + alias@
                + " ▸ writeback applied to host tree"@
        } else {
            r is None
        },
{
    if applied {
        let mut line = "vm ▸ ".to_owned();
        line.append(alias);
        line.append(" ▸ writeback applied to host tree");
        Some(line)
    } else {
        None
    }
}

/// How the transport to a guest ended: the guest command's code as it is, or the
/// failure of a transport that was killed. A 127 is explained, for it can also
/// mean that the agent is missing.
pub fn drive_agent(alias: &str, code: Option<i32>) -> (r: Result<(i32, Option<String>), Failure>)
    ensures
        match code {
            Some(c) => {
                &&& r is Ok
                &&& r->Ok_0.0 == c
                &&& text::opt_string(r->Ok_0.1) == (if c == 127 {
                    Some(
                        "vm ▸ "@ + alias@
                            + " ▸ exit 127 — command not found in the guest (or the agent is missing — try `vm deploy "@
                            + alias@ + "`)"@,
                    )
                } else {
                    None
                })
            },
            None => r matches Err(e) && e is Infra && e.says() == "the exec transport to "@ + alias@
                + " was killed before the guest reported an exit status — the connection dropped, or ssh/prlctl was signalled"@,
        },
{
    match code {
        Some(c) => {
            if c == 127 {
                let mut line = "vm ▸ ".to_owned();
                line.append(alias);
                line.append(
                    " ▸ exit 127 — command not found in the guest (or the agent is missing — try `vm deploy ",
                );
                line.append(alias);
                line.append("`)");
                Ok((c, Some(line)))
            } else {
                Ok((c, None))
            }
        },
        None => {
            let mut msg = "the exec transport to ".to_owned();
            msg.append(alias);
            msg.append(
                " was killed before the guest reported an exit status — the connection dropped, or ssh/prlctl was signalled",
            );
            Err(infra(msg))
        },
    }
}

/// The process that carries a request to the guest agent.
#[derive(Debug)]
pub enum Transport {
    /// `prlctl` with these arguments.
    Prlctl(Vec<String>),
    /// `ssh` with these arguments.
    Ssh(Vec<String>),
}

/// Whether this is the transport that `prlctl` offers for a guest command, or the
/// refusal of one that is too long for it.
pub open spec fn over_prlctl(
    name: Seq<char>,
    head: Seq<Seq<char>>,
    args: Seq<Seq<char>>,
    r: Result<Transport, Failure>,
) -> bool {
    match r {
        Ok(t) => t matches Transport::Prlctl(v) && prl::carries(name, head, args, Ok(v)),
        Err(e) => prl::carries(name, head, args, Err(e)),
    }
}

/// The process that carries a request to the guest agent. Unix guests are
/// reached over ssh; on Windows the command has to land in the console session,
/// or no window is visible to it.
pub fn agent_exec_command(vm: &VmConfig, target: &SshTarget) -> (r: Result<Transport, Failure>)
    ensures
        match vm.os {
            GuestOs::Windows => {
                let line = commands::agent_on_console(*vm) + " _exec"@;
                over_prlctl(
                    vm.parallels_name@,
                    seq!["exec"@, vm.parallels_name@, "--current-user"@],
                    seq!["cmd"@, "/c"@, line],
                    r,
                )
            },
            _ => r matches Ok(t) && t matches Transport::Ssh(args) && text::views(args@)
                == ssh::ssh_options().push(target.at()).push(commands::agent_at(*vm)).push("_exec"@),
        },
{
    match vm.os {
        GuestOs::Windows => {
            let mut line = commands::agent_console_path(vm);
            line.append(" _exec");
            let args: [&str; 3] = ["cmd", "/c", line.as_str()];
            assert(text::str_views(args@) =~= seq!["cmd"@, "/c"@, line@]);
            let carried: Result<Vec<String>, Failure> = prl::exec_console(
                vm.parallels_name.as_str(),
                &args,
            );
            match carried {
                Ok(v) => {
                    assert(carried == Ok::<Vec<String>, Failure>(v));
                    Ok(Transport::Prlctl(v))
                },
                Err(e) => Err(e),
            }
        },
        _ => {
            let mut args: Vec<String> = ssh::ssh_command(target);
            let ghost before = args@;
            let agent: String = commands::agent_path(vm);
            args.push(agent);
            args.push("_exec".to_owned());
            assert(text::views(args@) =~= text::views(before).push(agent@).push("_exec"@));
            Ok(Transport::Ssh(args))
        },
    }
}

// ── Running natively ─────────────────────────────────────────────────────────

/// What a native run execs, and the banner that says where it runs.
pub fn run_native(opts: &ExecOptions, host: GuestOs) -> (r: (Vec<String>, String))
    ensures
        text::views(r.0@) == composed(text::views(opts.cmd@), Seq::empty(), host),
        r.1@ == "vm ▸ native ("@ + host.name() + ") ▸ $ "@ + rendered(text::views(r.0@)),
{
    let no_wrap = ActiveEnv { env: GuestEnv::Off, detected_from: None };
    let argv: Vec<String> = build_argv(&opts.cmd, &no_wrap, host);
    let mut line = "vm ▸ native (".to_owned();
    line.append(host.as_str());
    line.append(") ▸ $ ");
    line.append(render_argv(&argv).as_str());
    (argv, line)
}

/// What comes of a native run: the process's own code, or 1 where a signal ended
/// it. A command that could not be started is classified as a guest classifies
/// it, so that running in place changes nothing but the place.
pub fn native_outcome(
    program: &str,
    path: Option<&str>,
    ran: Result<Option<i32>, (SpawnError, String)>,
    windows: bool,
) -> (r: Result<(i32, Vec<Say>), Failure>)
    ensures
        match ran {
            Ok(code) => r matches Ok(done) && done.1@.len() == 0 && done.0 == (match code {
                Some(c) => c,
                None => 1,
            }),
            Err((error, why)) => match r {
                Ok(done) => exec::unspawned(
                    error,
                    program@,
                    advise::given(path),
                    windows,
                    Some(Unspawned { code: done.0, lines: done.1 }),
                ),
                Err(e) => error == SpawnError::Other && e is Infra && e.says() == "failed to run "@
                    + text::debug_text(program@) + " natively: "@ + why@,
            },
        },
{
    match ran {
        Ok(Some(code)) => Ok((code, Vec::new())),
        Ok(None) => Ok((1, Vec::new())),
        Err((error, why)) => match spawn_failure(error, program, path, windows) {
            Some(un) => Ok((un.code, un.lines)),
            None => {
                let mut msg = "failed to run ".to_owned();
                msg.append(text::debug(program).as_str());
                msg.append(" natively: ");
                msg.append(why.as_str());
                Err(infra(msg))
            },
        },
    }
}

/// The PATH that a native command is searched on: the one the caller set, else
/// the inherited one.
pub fn native_path(env: &OrdMap<String>, inherited: Option<String>, windows: bool) -> (r: Option<
    String,
>)
    ensures
        text::opt_string(r) == (match exec::path_among(env.items(), windows) {
            Some(path) => Some(path),
            None => text::opt_string(inherited),
        }),
{
    match path_override(env, windows) {
        Some(p) => Some(p),
        None => inherited,
    }
}

// ── Files that stayed behind ─────────────────────────────────────────────────

/// A file in the repo root, and what git says of it.
#[derive(Debug)]
pub struct RootFile {
    pub name: String,
    pub ignored: bool,
    pub untracked: bool,
}

/// The git arguments that succeed where a file is ignored.
pub fn ignored_args(name: &str) -> (r: Vec<String>)
    ensures
        text::views(r@) == seq!["check-ignore"@, "--quiet"@, "--"@, name@],
{
    let args = owned(&["check-ignore", "--quiet", "--", name]);
    assert(text::views(args@) =~= seq!["check-ignore"@, "--quiet"@, "--"@, name@]);
    args
}

/// The git arguments that succeed where a file is checked in.
pub fn listed_args(name: &str) -> (r: Vec<String>)
    ensures
        text::views(r@) == seq!["ls-files"@, "--error-unmatch"@, "--"@, name@],
{
    let args = owned(&["ls-files", "--error-unmatch", "--", name]);
    assert(text::views(args@) =~= seq!["ls-files"@, "--error-unmatch"@, "--"@, name@]);
    args
}

/// Whether a file is one whose absence is worth a look: an environment file that
/// was not forced into the sync.
pub open spec fn is_candidate(name: Seq<char>, with_file: Seq<Seq<char>>) -> bool {
    text::starts_with(name, ".env"@) && !with_file.contains(name)
}

/// Whether a file is one whose absence is worth a look.
pub fn env_candidate(name: &str, with_file: &[String]) -> (r: bool)
    ensures
        r == is_candidate(name@, text::views(with_file@)),
{
    if !text::has_prefix(name, ".env") {
        return false;
    }
    let ghost all = text::views(with_file@);
    let mut i: usize = 0;
    while i < with_file.len()
        invariant
            i <= with_file@.len(),
            all == text::views(with_file@),
            text::starts_with(name@, ".env"@),
            forall|j: int| 0 <= j < i ==> all[j] != name@,
        decreases with_file@.len() - i,
    {
        if text::same(with_file[i].as_str(), name) {
            assert(all[i as int] == name@);
            return false;
        }
        i = i + 1;
    }
    true
}

/// The names of the files that never left the host: ignored and untracked, so
/// neither half of the sync carried them.
pub open spec fn left_behind(files: Seq<RootFile>, with_file: Seq<Seq<char>>) -> Seq<Seq<char>>
    decreases files.len(),
{
    if files.len() == 0 {
        Seq::empty()
    } else {
        let earlier = left_behind(files.drop_last(), with_file);
        let f = files.last();
        if is_candidate(f.name@, with_file) && f.ignored && f.untracked {
            earlier.push(f.name@)
        } else {
            earlier
        }
    }
}

/// Whether no text of `s` comes before the one ahead of it.
pub open spec fn in_order(s: Seq<Seq<char>>) -> bool {
    forall|i: int, j: int| 0 <= i < j < s.len() ==> !text::less(#[trigger] s[j], #[trigger] s[i])
}

proof fn insert_adds_one(s: Seq<Seq<char>>, i: int, x: Seq<char>)
    requires
        0 <= i <= s.len(),
    ensures
        s.insert(i, x).to_multiset() == s.to_multiset().insert(x),
{
    broadcast use vstd::seq_lib::group_to_multiset_ensures;

    assert(s.insert(i, x) =~= s.take(i).push(x) + s.skip(i));
    assert(s =~= s.take(i) + s.skip(i));
    vstd::seq_lib::lemma_multiset_commutative(s.take(i).push(x), s.skip(i));
    vstd::seq_lib::lemma_multiset_commutative(s.take(i), s.skip(i));
    assert(s.take(i).push(x).to_multiset().add(s.skip(i).to_multiset()) =~= s.take(
        i,
    ).to_multiset().add(s.skip(i).to_multiset()).insert(x));
}

fn insert_in_order(out: &mut Vec<String>, name: String)
    requires
        in_order(text::views(old(out)@)),
    ensures
        in_order(text::views(final(out)@)),
        text::views(final(out)@).to_multiset() == text::views(old(out)@).to_multiset().insert(
            name@,
        ),
{
    let ghost s = text::views(out@);
    let ghost key = name@;
    let mut i: usize = 0;
    while i < out.len() && !text::precedes(name.as_str(), out[i].as_str())
        invariant
            i <= out@.len(),
            s == text::views(out@),
            key == name@,
            forall|j: int| 0 <= j < i ==> !text::less(key, #[trigger] s[j]),
        decreases out@.len() - i,
    {
        i = i + 1;
    }
    proof {
        let t = s.insert(i as int, key);
        insert_adds_one(s, i as int, key);
        assert forall|a: int, b: int| 0 <= a < b < t.len() implies !text::less(
            #[trigger] t[b],
            #[trigger] t[a],
        ) by {
            if a < i && b < i {
                assert(t[a] == s[a] && t[b] == s[b]);
            } else if a < i && b == i {
                assert(t[a] == s[a] && t[b] == key);
            } else if a < i {
                assert(t[a] == s[a] && t[b] == s[b - 1]);
            } else if a == i {
                assert(t[a] == key && t[b] == s[b - 1]);
                assert(text::less(key, s[i as int]));
                if text::less(s[b - 1], key) {
                    text::less_is_transitive(s[b - 1], key, s[i as int]);
                    if b - 1 == i {
                        text::less_is_irreflexive(s[i as int]);
                    }
                }
            } else {
                assert(t[a] == s[a - 1] && t[b] == s[b - 1]);
            }
        }
        assert(text::views(out@.insert(i as int, name)) =~= t);
    }
    out.insert(i, name);
}

/// The environment files in the repo root that the sync left behind, in order,
/// so that a note about them reads the same on every run.
pub fn unsynced_env_files(files: &[RootFile], with_file: &[String]) -> (r: Vec<String>)
    ensures
        in_order(text::views(r@)),
        text::views(r@).to_multiset() == left_behind(
            files@,
            text::views(with_file@),
        ).to_multiset(),
{
    let mut out: Vec<String> = Vec::new();
    let ghost forced = text::views(with_file@);
    let mut i: usize = 0;
    proof {
        assert(files@.take(0) =~= Seq::<RootFile>::empty());
        assert(text::views(out@) =~= Seq::<Seq<char>>::empty());
    }
    while i < files.len()
        invariant
            i <= files@.len(),
            forced == text::views(with_file@),
            in_order(text::views(out@)),
            text::views(out@).to_multiset() == left_behind(
                files@.take(i as int),
                forced,
            ).to_multiset(),
        decreases files@.len() - i,
    {
        proof {
            assert(files@.take(i + 1).drop_last() =~= files@.take(i as int));
        }
        let f: &RootFile = &files[i];
        if env_candidate(f.name.as_str(), with_file) && f.ignored && f.untracked {
            let name: String = f.name.as_str().to_owned();
            insert_in_order(&mut out, name);
            proof {
                broadcast use vstd::seq_lib::group_to_multiset_ensures;

            }
        }
        i = i + 1;
    }
    assert(files@.take(i as int) =~= files@);
    out
}

/// What stdin is, where it is worth a note: a pipe or a file. A terminal or a
/// device is neither.
pub fn stdin_source(is_fifo: bool, is_file: bool) -> (r: Option<StdinSource>)
    ensures
        r == (if is_fifo {
            Some(StdinSource::Piped)
        } else if is_file {
            Some(StdinSource::Redirected)
        } else {
            None
        }),
{
    if is_fifo {
        Some(StdinSource::Piped)
    } else if is_file {
        Some(StdinSource::Redirected)
    } else {
        None
    }
}

/// A command runs in the guest where its caller stands in the repo: in the checkout, or in
/// the same place below it. It is handed no input, and is asked for in this version.
pub proof fn a_command_runs_where_its_caller_stands(
    req: ExecRequest,
    vm: VmConfig,
    opts: ExecOptions,
    repo: RepoLocation,
    genv: ActiveEnv,
    parts: Seq<Seq<char>>,
)
    requires
        is_exec_request(req, vm, opts, repo, genv),
        forall|i: int|
            0 <= i < parts.len() ==> (#[trigger] parts[i]).len() > 0 && parts[i] != "."@
                && !parts[i].contains('/'),
    ensures
        req.version == 4,
        req.stdin is None,
        req.heartbeat_timeout_ms is None,
        repo.rel@.len() == 0 ==> req.cwd@ == mapping::checkout(vm.work_root@, repo.name@),
        parts.len() > 0 && repo.rel@ == text::joined(parts, seq!['/']) ==> req.cwd@
            == mapping::checkout(vm.work_root@, repo.name@) + seq!['/'] + repo.rel@,
        opts.cmd@.len() > 1 ==> text::views(req.argv@) == genv.prefix() + text::views(opts.cmd@),
        opts.cmd@.len() == 1 ==> text::views(req.argv@).last() == opts.cmd@[0]@ && req.argv@.len()
            == genv.prefix().len() + 3,
{
    let base = mapping::checkout(vm.work_root@, repo.name@);
    if repo.rel@.len() == 0 {
        let one = seq!["a"@];
        reveal_strlit("a");
        reveal_strlit(".");
        assert("a"@[0] == 'a' && "."@[0] == '.');
        assert(repo.rel@ =~= Seq::<char>::empty());
        mapping::a_place_keeps_its_path(base, one);
    }
    if parts.len() > 0 {
        mapping::a_place_keeps_its_path(base, parts);
    }
    assert(text::views(req.argv@).len() == req.argv@.len());
    if opts.cmd@.len() == 1 {
        one_argument_is_a_script(text::views(opts.cmd@), genv.prefix(), vm.os);
        assert(text::views(opts.cmd@)[0] == opts.cmd@[0]@);
    }
}

/// The files that stay behind are those at the root whose name begins with `.env`, that
/// git ignores and does not track, and that were not asked for.
pub proof fn ignored_env_files_stay_behind(
    files: Seq<RootFile>,
    file: RootFile,
    rest: Seq<char>,
    with_file: Seq<Seq<char>>,
)
    ensures
        left_behind(Seq::empty(), with_file).len() == 0,
        file.name@ == ".env"@ + rest && file.ignored && file.untracked && !with_file.contains(
            file.name@,
        ) ==> left_behind(files.push(file), with_file) == left_behind(files, with_file).push(
            file.name@,
        ),
        !file.ignored || !file.untracked || with_file.contains(file.name@) || file.name@.len() < 4
            || file.name@.take(4) != ".env"@ ==> left_behind(files.push(file), with_file)
            == left_behind(files, with_file),
{
    reveal_strlit(".env");
    assert(files.push(file).drop_last() =~= files);
    if file.name@ == ".env"@ + rest {
        assert(file.name@.take(4) =~= ".env"@);
    }
}

/// What stands behind a flag that is gone is shown as the one argument that it should be,
/// without the separators in front of it.
pub proof fn separators_are_no_part_of_a_script(args: Seq<Seq<char>>)
    ensures
        past_separators(seq!["--"@] + args) == past_separators(args),
        args.len() == 0 || args[0] != "--"@ ==> past_separators(args) == args,
{
    assert((seq!["--"@] + args).skip(1) =~= args);
    assert((seq!["--"@] + args)[0] == "--"@);
}

/// The line that a run begins with shows the command at its end, and names the alias and
/// the directory.
pub proof fn a_run_shows_its_command(
    alias: Seq<char>,
    name: Seq<char>,
    cwd: Seq<char>,
    who: Seq<char>,
    argv: Seq<Seq<char>>,
)
    ensures
        ({
            let line = running_line(alias, name, cwd, who, argv);
            &&& line.len() >= rendered(argv).len()
            &&& line.skip(line.len() - rendered(argv).len()) == rendered(argv)
            &&& text::contains(line, alias)
            &&& text::contains(line, name)
            &&& text::contains(line, cwd)
            &&& text::contains(line, who)
        }),
{
    let line = running_line(alias, name, cwd, who, argv);
    let end = " ▸ $ "@ + rendered(argv);
    assert(line.skip(line.len() - rendered(argv).len()) =~= rendered(argv));
    let a = "vm ▸ "@ + alias + " ("@;
    let b = a + name + ") ▸ "@;
    assert(line =~= "vm ▸ "@ + alias + (" ("@ + name + ") ▸ "@ + cwd + who + end));
    text::what_is_contained_is_there("vm ▸ "@, alias, " ("@ + name + ") ▸ "@ + cwd + who + end);
    assert(line =~= a + name + (") ▸ "@ + cwd + who + end));
    text::what_is_contained_is_there(a, name, ") ▸ "@ + cwd + who + end);
    assert(line =~= b + cwd + (who + end));
    text::what_is_contained_is_there(b, cwd, who + end);
    assert(line =~= (b + cwd) + who + end);
    text::what_is_contained_is_there(b + cwd, who, end);
}

/// A variable that cannot be given is refused by its spec: one without a name, and one that
/// the host does not have, which is told how to be given.
pub proof fn a_refused_variable_is_named(name: Seq<char>, value: Seq<char>)
    requires
        !name.contains('='),
    ensures
        spec_refusal(seq!['='] + value) == "-e "@ + (seq!['='] + value) + ": empty variable name"@,
        spec_refusal(name) == "-e "@ + name + ": not set on host (use -e "@ + name
            + "=value to set it explicitly)"@,
        text::contains(skipped_writeback(name), name),
{
    name_before_equals(name, value);
    let bare = seq!['='] + value;
    assert(bare[0] == '=');
    text::first_index_is_first(bare, '=');
    let tail = " ▸ writeback skipped — exit 255 may be a dropped connection rather than the command's own status, so the guest tree is not trusted"@;
    text::what_is_contained_is_there("vm ▸ "@, name, tail);
}

/// A flag that is gone is answered with the command as the one argument that it should be.
pub proof fn a_flag_that_is_gone_shows_the_script(args: Seq<Seq<char>>)
    requires
        args.len() == 0 || args[0] != "--"@,
    ensures
        text::contains(
            removed_flag(seq!["--shell"@] + args),
            "vm exec <alias> -- '"@ + text::joined(args, seq![' ']) + seq!['\''],
        ),
        removed_flag(seq!["--shell"@, "--"@] + args) == removed_flag(seq!["--shell"@] + args),
{
    reveal_strlit(" ");
    assert(" "@ =~= seq![' ']);
    let all = seq!["--shell"@] + args;
    assert(all.skip(1) =~= args);
    let with = seq!["--shell"@, "--"@] + args;
    assert(with.skip(1) =~= seq!["--"@] + args);
    separators_are_no_part_of_a_script(args);
    let script = text::joined(args, seq![' ']);
    let head = "`--shell` no longer exists — a command's *form* now says whether it is a script.\n  Pass the script as ONE argument and the guest's shell runs it: vm exec <alias> -- '"@;
    let tail = "'\n  Several arguments still run exactly as given, with no shell involved."@;
    reveal_strlit(
        "`--shell` no longer exists — a command's *form* now says whether it is a script.\n  Pass the script as ONE argument and the guest's shell runs it: vm exec <alias> -- '",
    );
    reveal_strlit(
        "'\n  Several arguments still run exactly as given, with no shell involved.",
    );
    reveal_strlit("vm exec <alias> -- '");
    let verb = "vm exec <alias> -- '"@;
    let at = head.len() - verb.len();
    assert(head.skip(at) =~= verb);
    let shown = verb + script + seq!['\''];
    assert(removed_flag(all) =~= head.take(at) + shown + tail.skip(1));
    text::what_is_contained_is_there(head.take(at), shown, tail.skip(1));
}

/// A call over Parallels is one of its own, with the arguments that it carries.
pub proof fn a_call_over_parallels_is_carried(
    name: Seq<char>,
    head: Seq<Seq<char>>,
    args: Seq<Seq<char>>,
    r: Result<Transport, Failure>,
)
    requires
        over_prlctl(name, head, args, r),
    ensures
        r matches Ok(t) ==> (t matches Transport::Prlctl(v) && text::views(v@) == head + args),
        r matches Err(e) ==> prl::carries(name, head, args, Err(e)),
{
}

} // verus!
