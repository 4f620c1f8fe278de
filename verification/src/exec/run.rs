//! `vm run`: a command in a guest, with no repo and no sync behind it.
//!
//! It runs in the guest user's home, can run as the superuser, and sends what
//! was wired into its stdin along with the request.

use super::advise::StdinSource;
use super::host::{self, build_argv, resolve_env, Transport};
use crate::commands;
use crate::config::{self, Config, GuestOs, VmConfig};
use crate::exit::{usage, Failure};
use crate::guest_env::{ActiveEnv, GuestEnv};
use crate::ordmap::OrdMap;
use crate::prl;
use crate::process;
use crate::proto::{self, ExecRequest};
use crate::text;
use vstd::prelude::*;

verus! {

/// The choices of a run.
#[derive(Debug)]
pub struct RunOptions {
    /// Run as root, or SYSTEM on Windows.
    pub elevated: bool,
    /// Variables for the command, as `NAME=value` or a bare `NAME`.
    pub env: Vec<String>,
    pub cmd: Vec<String>,
}

// ── Flags of another verb ────────────────────────────────────────────────────

/// The flags that only an exec has, and why each of them cannot be here.
pub open spec fn exec_only_flags() -> Seq<(Seq<char>, Seq<char>)> {
    seq![
        ("--no-sync"@, "run never syncs — there is nothing to skip"@),
        ("--writeback"@, "run has no synced repo to write changes back to"@),
        ("--with-file"@, "run syncs no files at all"@),
        ("--with-snapshot"@, "not available on run"@),
        ("--or-native"@, "not available on run"@),
        ("--guest-env"@, "run has no repo to detect a guest env from, and wraps nothing"@),
    ]
}

fn exec_only_flag(i: usize) -> (r: (&'static str, &'static str))
    requires
        i < 6,
    ensures
        (r.0@, r.1@) == exec_only_flags()[i as int],
{
    if i == 0 {
        ("--no-sync", "run never syncs — there is nothing to skip")
    } else if i == 1 {
        ("--writeback", "run has no synced repo to write changes back to")
    } else if i == 2 {
        ("--with-file", "run syncs no files at all")
    } else if i == 3 {
        ("--with-snapshot", "not available on run")
    } else if i == 4 {
        ("--or-native", "not available on run")
    } else {
        ("--guest-env", "run has no repo to detect a guest env from, and wraps nothing")
    }
}

/// The flag that an argument spells: what stands before its first equals sign.
pub open spec fn flag_name(arg: Seq<char>) -> Seq<char> {
    arg.take(text::first_index(arg, '='))
}

/// The refusal of a flag that only an exec has.
pub open spec fn not_a_run_flag(flag: Seq<char>, why: Seq<char>) -> Seq<char> {
    "`"@ + flag + "` is not a `vm run` flag — "@ + why
        + ".\n  run takes no repo and does no sync; it runs in the guest user's home.\n  To run against this repo's checkout in the guest, that is `vm exec` (which has "@
        + flag + ")."@
}

/// Refuses a command that begins with a flag only an exec has: the verb meant was
/// another one. Past the first word, flags are the guest command's own.
pub fn reject_exec_flags(cmd: &[String]) -> (r: Result<(), Failure>)
    ensures
        match r {
            Ok(_) => cmd@.len() > 0 ==> forall|i: int|
                0 <= i < 6 ==> (#[trigger] exec_only_flags()[i]).0 != flag_name(cmd@[0]@),
            Err(e) => cmd@.len() > 0 && e is Usage && exists|i: int|
                {
                    &&& 0 <= i < 6
                    &&& (#[trigger] exec_only_flags()[i]).0 == flag_name(cmd@[0]@)
                    &&& e.says() == not_a_run_flag(exec_only_flags()[i].0, exec_only_flags()[i].1)
                },
        },
{
    if cmd.len() == 0 {
        return Ok(());
    }
    let v: Vec<char> = text::chars_of(cmd[0].as_str());
    let eq: usize = text::index_from(&v, 0, '=');
    let name: String = text::slice(&v, 0, eq);
    proof {
        assert(v@.skip(0) =~= v@);
        assert(name@ =~= flag_name(cmd@[0]@));
    }
    let mut i: usize = 0;
    while i < 6
        invariant
            i <= 6,
            cmd@.len() > 0,
            name@ == flag_name(cmd@[0]@),
            forall|j: int|
                0 <= j < i ==> (#[trigger] exec_only_flags()[j]).0 != flag_name(cmd@[0]@),
        decreases 6 - i,
    {
        let (flag, why): (&str, &str) = exec_only_flag(i);
        if text::same(flag, name.as_str()) {
            assert(exec_only_flags()[i as int].0 == flag_name(cmd@[0]@));
            let mut msg = "`".to_owned();
            msg.append(flag);
            msg.append("` is not a `vm run` flag — ");
            msg.append(why);
            msg.append(
                ".\n  run takes no repo and does no sync; it runs in the guest user's home.\n  To run against this repo's checkout in the guest, that is `vm exec` (which has ",
            );
            msg.append(flag);
            msg.append(").");
            return Err(usage(msg));
        }
        i = i + 1;
    }
    Ok(())
}

// ── The input ────────────────────────────────────────────────────────────────

/// The most input that is carried to a guest command, in bytes.
pub const STDIN_CAP: usize = 8_388_608;

/// The refusal of too much input.
pub open spec fn too_much_input() -> Seq<char> {
    "the input on vm's stdin is larger than the 8 MiB vm will carry to a guest command.\n  stdin is for a script or a modest amount of text; for anything bigger, fetch it in the guest, or put it in a repo and use `vm exec`."@
}

/// The refusal of input that is not text.
pub open spec fn binary_input() -> Seq<char> {
    "the input on vm's stdin is not valid UTF-8 text.\n  The guest command's stdin travels inside the request, which carries text — binary input would have to be mangled to fit, so vm refuses it instead."@
}

/// The input for a guest command, from the bytes that were read: at most one more
/// than the cap, which is enough to know that it was exceeded. A text that fits is
/// carried as it is, and an empty input is an input still.
pub fn read_payload(bytes: Vec<u8>) -> (r: Result<String, Failure>)
    ensures
        match r {
            Ok(text) => bytes@.len() <= STDIN_CAP && vstd::utf8::valid_utf8(bytes@) && text@
                == vstd::utf8::decode_utf8(bytes@),
            Err(e) => e is Usage && (if bytes@.len() > STDIN_CAP {
                e.says() == too_much_input()
            } else {
                !vstd::utf8::valid_utf8(bytes@) && e.says() == binary_input()
            }),
        },
        forall|t: Seq<char>|
            bytes@ == #[trigger] vstd::utf8::encode_utf8(t) && bytes@.len() <= STDIN_CAP ==> (r
                matches Ok(text) && text@ == t),
{
    proof {
        broadcast use {vstd::utf8::encode_utf8_valid_utf8, vstd::utf8::encode_utf8_decode_utf8};

    }
    if bytes.len() > STDIN_CAP {
        return Err(
            usage(
                "the input on vm's stdin is larger than the 8 MiB vm will carry to a guest command.\n  stdin is for a script or a modest amount of text; for anything bigger, fetch it in the guest, or put it in a repo and use `vm exec`.".to_owned(),
            ),
        );
    }
    match process::utf8(bytes) {
        Ok(text) => Ok(text),
        Err(_) => Err(
            usage(
                "the input on vm's stdin is not valid UTF-8 text.\n  The guest command's stdin travels inside the request, which carries text — binary input would have to be mangled to fit, so vm refuses it instead.".to_owned(),
            ),
        ),
    }
}

// ── The order of a run ───────────────────────────────────────────────────────

/// What is known when a run moves on.
#[derive(Debug)]
pub enum RunEvent<'a> {
    /// Nothing yet.
    Begin,
    /// Whether the input could be read.
    PayloadRead(Result<(), Failure>),
    /// The configuration, or why there is none.
    ConfigLoaded(Result<&'a Config, Failure>),
}

/// What a run does next.
#[derive(Debug)]
pub enum RunAction {
    /// Read what was wired into stdin.
    ReadPayload,
    /// Load the configuration.
    LoadConfig,
    /// Bring the VM up, and run the command in it.
    RunInGuest,
    Fail(Failure),
}

/// What follows what is known.
pub open spec fn run_follows<F: Fn(&str) -> Option<String>>(
    alias: Seq<char>,
    opts: RunOptions,
    lookup: F,
    stdin: Option<StdinSource>,
    config_path: Seq<char>,
    event: RunEvent,
    action: RunAction,
) -> bool {
    match event {
        RunEvent::Begin => {
            ||| action matches RunAction::Fail(e) && host::refuses(lookup, text::views(opts.env@), e)
            ||| {
                &&& host::resolves(lookup, text::views(opts.env@))
                &&& match action {
                    RunAction::Fail(e) => refuses_flag(opts.cmd@, e),
                    RunAction::ReadPayload => stdin is Some && !begins_with_exec_flag(opts.cmd@),
                    RunAction::LoadConfig => stdin is None && !begins_with_exec_flag(opts.cmd@),
                    RunAction::RunInGuest => false,
                }
            }
        },
        RunEvent::PayloadRead(Err(e)) => action == RunAction::Fail(e),
        RunEvent::PayloadRead(Ok(_)) => action is LoadConfig,
        RunEvent::ConfigLoaded(Err(e)) => action == RunAction::Fail(e),
        RunEvent::ConfigLoaded(Ok(cfg)) => if cfg.vm@.contains_key(alias) {
            action is RunInGuest
        } else {
            action matches RunAction::Fail(e) && e is Usage && e.says() == config::unknown_alias(
                cfg.vm.items(),
                alias,
                config_path,
            )
        },
    }
}

/// Whether a command begins with a flag that only an exec has.
pub open spec fn begins_with_exec_flag(cmd: Seq<String>) -> bool {
    cmd.len() > 0 && exists|i: int|
        0 <= i < 6 && (#[trigger] exec_only_flags()[i]).0 == flag_name(cmd[0]@)
}

/// Whether this is the refusal of a command that begins with such a flag.
pub open spec fn refuses_flag(cmd: Seq<String>, e: Failure) -> bool {
    cmd.len() > 0 && e is Usage && exists|i: int|
        {
            &&& 0 <= i < 6
            &&& (#[trigger] exec_only_flags()[i]).0 == flag_name(cmd[0]@)
            &&& e.says() == not_a_run_flag(exec_only_flags()[i].0, exec_only_flags()[i].1)
        }
}

/// What a run does next. The invocation and its input are checked before a VM is
/// touched.
pub fn run<F: Fn(&str) -> Option<String>>(
    alias: &str,
    opts: &RunOptions,
    lookup: F,
    stdin: Option<StdinSource>,
    config_path: &str,
    event: RunEvent,
) -> (r: RunAction)
    requires
        forall|p: &str| call_requires(lookup, (p,)),
    ensures
        run_follows(alias@, *opts, lookup, stdin, config_path@, event, r),
{
    match event {
        RunEvent::Begin => {
            match resolve_env(&opts.env, lookup) {
                Err(e) => {
                    proof {
                        let specs = text::views(opts.env@);
                        let (i, values) = choose|i: int, values: Seq<Seq<char>>|
                            {
                                &&& 0 <= i < opts.env@.len()
                                &&& #[trigger] host::all_given(lookup, specs.take(i), values)
                                &&& host::spec_fails(lookup, opts.env@[i]@)
                                &&& e is Usage
                                &&& e.says() == host::spec_refusal(opts.env@[i]@)
                            };
                        assert(host::resolves(lookup, specs.take(i)));
                        assert(specs[i] == opts.env@[i]@);
                        assert(host::refuses(lookup, specs, e));
                    }
                    RunAction::Fail(e)
                },
                Ok(_) => {
                    assert(host::resolves(lookup, text::views(opts.env@)));
                    match reject_exec_flags(&opts.cmd) {
                        Err(e) => RunAction::Fail(e),
                        Ok(_) => match stdin {
                            Some(_) => RunAction::ReadPayload,
                            None => RunAction::LoadConfig,
                        },
                    }
                },
            }
        },
        RunEvent::PayloadRead(Err(e)) => RunAction::Fail(e),
        RunEvent::PayloadRead(Ok(_)) => RunAction::LoadConfig,
        RunEvent::ConfigLoaded(Err(e)) => RunAction::Fail(e),
        RunEvent::ConfigLoaded(Ok(cfg)) => match cfg.get(alias, config_path) {
            Ok(_) => RunAction::RunInGuest,
            Err(e) => RunAction::Fail(e),
        },
    }
}

// ── The request and the transport ────────────────────────────────────────────

/// The process that carries the request of an elevated run: Parallels Tools, with
/// the agent by its absolute path, for nothing is expanded on the way.
pub fn elevated_command(vm: &VmConfig) -> (r: Result<Transport, Failure>)
    ensures
        host::over_prlctl(
            vm.parallels_name@,
            seq!["exec"@, vm.parallels_name@],
            seq![commands::agent_absolute(*vm), "_exec"@],
            r,
        ),
{
    let agent: String = commands::agent_abs_path(vm);
    let args: [&str; 2] = [agent.as_str(), "_exec"];
    assert(text::str_views(args@) =~= seq![agent@, "_exec"@]);
    let carried: Result<Vec<String>, Failure> = prl::exec_elevated(
        vm.parallels_name.as_str(),
        &args,
    );
    match carried {
        Ok(v) => {
            assert(carried == Ok::<Vec<String>, Failure>(v));
            Ok(Transport::Prlctl(v))
        },
        Err(e) => Err(e),
    }
}

/// The request of a run: the composed command, wrapped in nothing, in the guest
/// user's home, with the input it was given.
pub fn request(
    vm: &VmConfig,
    opts: &RunOptions,
    env: OrdMap<String>,
    payload: Option<String>,
) -> (r: ExecRequest)
    ensures
        r.version == proto::PROTO_VERSION,
        text::views(r.argv@) == host::composed(text::views(opts.cmd@), Seq::empty(), vm.os),
        r.env == env,
        r.cwd@ == commands::home_in_guest(*vm),
        r.stdin == payload,
        r.heartbeat_timeout_ms is None,
{
    let no_wrap = ActiveEnv { env: GuestEnv::Off, detected_from: None };
    ExecRequest {
        version: proto::PROTO_VERSION,
        argv: build_argv(&opts.cmd, &no_wrap, vm.os),
        env,
        cwd: commands::guest_home(vm),
        stdin: payload,
        heartbeat_timeout_ms: None,
    }
}

/// Who a run is, where that is not the user of the configuration.
pub fn who(elevated: bool, os: GuestOs) -> (r: &'static str)
    ensures
        r@ == (match (elevated, os) {
            (false, _) => ""@,
            (true, GuestOs::Windows) => " ▸ elevated (SYSTEM)"@,
            (true, _) => " ▸ elevated (root)"@,
        }),
{
    if !elevated {
        return "";
    }
    match os {
        GuestOs::Windows => " ▸ elevated (SYSTEM)",
        _ => " ▸ elevated (root)",
    }
}

/// The line that says that input travels.
pub fn stdin_line(alias: &str, payload: &str) -> (r: String)
    ensures
        r@ == "vm ▸ "@ + alias@ + " ▸ stdin ▸ "@ + text::decimal(text::utf8_len(payload@))
            + " bytes → the guest command"@,
{
    let mut line = "vm ▸ ".to_owned();
    line.append(alias);
    line.append(" ▸ stdin ▸ ");
    line.append(text::to_decimal(text::byte_len(payload) as u128).as_str());
    line.append(" bytes → the guest command");
    line
}

/// A flag's name is the flag, with a value behind an equals sign or without.
pub proof fn a_flag_ends_at_its_value(flag: Seq<char>, value: Seq<char>)
    requires
        !flag.contains('='),
    ensures
        flag_name(flag) == flag,
        flag_name(flag + seq!['='] + value) == flag,
{
    let arg = flag + seq!['='] + value;
    text::first_index_is_first(arg, '=');
    text::first_index_is_first(flag, '=');
    let i = text::first_index(arg, '=');
    assert(arg[flag.len() as int] == '=');
    if i < flag.len() {
        assert(flag.contains(flag[i]));
    }
    if text::first_index(flag, '=') < flag.len() {
        assert(flag.contains(flag[text::first_index(flag, '=')]));
    }
    assert(arg.take(i) =~= flag);
    assert(flag.take(flag.len() as int) =~= flag);
}

/// The flags of an exec are refused at the front of a run's command, with a value or
/// without; no other word is.
pub proof fn these_flags_are_not_a_runs(cmd: Seq<String>, value: Seq<char>)
    requires
        cmd.len() > 0,
    ensures
        ({
            let word = flag_name(cmd[0]@);
            begins_with_exec_flag(cmd) <==> word == "--no-sync"@ || word == "--writeback"@ || word
                == "--with-file"@ || word == "--with-snapshot"@ || word == "--or-native"@ || word
                == "--guest-env"@
        }),
        !begins_with_exec_flag(Seq::empty()),
        !cmd[0]@.contains('=') ==> flag_name(cmd[0]@) == cmd[0]@,
        flag_name("--with-file"@ + seq!['='] + value) == "--with-file"@,
        flag_name("--guest-env"@ + seq!['='] + value) == "--guest-env"@,
{
    let all = exec_only_flags();
    let word = flag_name(cmd[0]@);
    assert(all[0].0 == "--no-sync"@ && all[1].0 == "--writeback"@ && all[2].0 == "--with-file"@);
    assert(all[3].0 == "--with-snapshot"@ && all[4].0 == "--or-native"@ && all[5].0
        == "--guest-env"@);
    if !cmd[0]@.contains('=') {
        a_flag_ends_at_its_value(cmd[0]@, value);
    }
    reveal_strlit("--with-file");
    reveal_strlit("--guest-env");
    a_flag_ends_at_its_value("--with-file"@, value);
    a_flag_ends_at_its_value("--guest-env"@, value);
}

/// What a run does in its turn: a mistake in the invocation ends it before anything is
/// touched, input that was wired in is read before the configuration is asked for and
/// none is read where none was, and the command runs in the guest exactly where its
/// VM is configured.
pub proof fn a_run_takes_its_course<F: Fn(&str) -> Option<String>>(
    alias: Seq<char>,
    opts: RunOptions,
    lookup: F,
    stdin: Option<StdinSource>,
    config_path: Seq<char>,
    cfg: &Config,
    e: Failure,
    begun: RunAction,
    read: RunAction,
    unread: RunAction,
    loaded: RunAction,
    unloaded: RunAction,
)
    requires
        run_follows(alias, opts, lookup, stdin, config_path, RunEvent::Begin, begun),
        run_follows(alias, opts, lookup, stdin, config_path, RunEvent::PayloadRead(Ok(())), read),
        run_follows(alias, opts, lookup, stdin, config_path, RunEvent::PayloadRead(Err(e)), unread),
        run_follows(
            alias,
            opts,
            lookup,
            stdin,
            config_path,
            RunEvent::ConfigLoaded(Ok(cfg)),
            loaded,
        ),
        run_follows(
            alias,
            opts,
            lookup,
            stdin,
            config_path,
            RunEvent::ConfigLoaded(Err(e)),
            unloaded,
        ),
    ensures
        begun !is RunInGuest,
        begun matches RunAction::Fail(f) ==> f is Usage,
        begun !is Fail ==> begun is ReadPayload == stdin is Some,
        begun !is Fail ==> begun is LoadConfig == stdin is None,
        opts.env@.len() == 0 ==> begun is Fail == begins_with_exec_flag(opts.cmd@),
        read is LoadConfig,
        unread == RunAction::Fail(e),
        unloaded == RunAction::Fail(e),
        loaded is RunInGuest <==> cfg.vm@.contains_key(alias),
        loaded matches RunAction::Fail(f) ==> f is Usage,
{
    let specs = text::views(opts.env@);
    if begun is Fail && host::refuses(lookup, specs, begun->Fail_0) {
        let i = choose|i: int|
            {
                &&& 0 <= i < specs.len()
                &&& host::resolves(lookup, #[trigger] specs.take(i))
                &&& host::spec_fails(lookup, specs[i])
                &&& begun->Fail_0 is Usage
                &&& begun->Fail_0.says() == host::spec_refusal(specs[i])
            };
    }
}

/// Input is carried up to eight mebibytes.
pub proof fn input_is_carried_up_to_eight_mebibytes()
    ensures
        STDIN_CAP == 8 * 1024 * 1024,
{
}

/// A flag that is refused is named, and so is the verb that has it.
pub proof fn a_refused_flag_is_named(cmd: Seq<String>, e: Failure)
    requires
        refuses_flag(cmd, e),
    ensures
        e is Usage,
        text::contains(e.says(), flag_name(cmd[0]@)),
        text::contains(e.says(), "vm exec"@),
{
    let i = choose|i: int|
        {
            &&& 0 <= i < 6
            &&& (#[trigger] exec_only_flags()[i]).0 == flag_name(cmd[0]@)
            &&& e.says() == not_a_run_flag(exec_only_flags()[i].0, exec_only_flags()[i].1)
        };
    let (flag, why) = exec_only_flags()[i];
    let middle = ".\n  run takes no repo and does no sync; it runs in the guest user's home.\n  To run against this repo's checkout in the guest, that is `vm exec` (which has "@;
    let tail = "` is not a `vm run` flag — "@ + why + middle + flag + ")."@;
    assert(e.says() =~= "`"@ + flag + tail);
    text::what_is_contained_is_there("`"@, flag, tail);
    reveal_strlit(
        ".\n  run takes no repo and does no sync; it runs in the guest user's home.\n  To run against this repo's checkout in the guest, that is `vm exec` (which has ",
    );
    reveal_strlit("vm exec");
    let verb = "vm exec"@;
    let at = middle.len() - 20;
    assert(middle.subrange(at, at + 7) =~= verb);
    let a = "`"@ + flag + "` is not a `vm run` flag — "@ + why + middle.take(at);
    let b = middle.skip(at + 7) + flag + ")."@;
    assert(e.says() =~= a + verb + b);
    text::what_is_contained_is_there(a, verb, b);
}

} // verus!
