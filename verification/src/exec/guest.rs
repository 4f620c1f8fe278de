//! The guest side of an exec: a request is spawned as it stands, and how it ended
//! is reported as its own exit code.

use super::{host, Unspawned};
use super::{path_override, spawn_failure, SpawnError};
use crate::config::GuestOs;
use crate::exec;
use crate::exit::{infra, Failure};
use crate::journal::Say;
use crate::ordmap::OrdMap;
use crate::proto::ExecRequest;
use crate::sync;
use crate::text;
use vstd::prelude::*;

verus! {

// ── Running a request ────────────────────────────────────────────────────────

/// A process to start.
#[derive(Debug)]
pub struct Spawn {
    pub argv: Vec<String>,
    pub cwd: String,
    /// The PATH it is given, unless `env` holds another.
    pub path: String,
    pub env: OrdMap<String>,
    /// What it reads. Without it, the null device.
    pub stdin: Option<String>,
}

/// The process that a request asks for, in its expanded working directory. The
/// argv is spawned as it was sent: any shell was composed by the host.
pub fn exec(req: ExecRequest, cwd: String, is_dir: bool, path: String) -> (r: Result<
    Spawn,
    Failure,
>)
    requires
        req.argv@.len() > 0,
    ensures
        match r {
            Ok(s) => is_dir && s == (Spawn {
                argv: req.argv,
                cwd,
                path,
                env: req.env,
                stdin: req.stdin,
            }),
            Err(e) => !is_dir && e is Infra && e.says() == "working directory "@ + cwd@
                + " does not exist (sync first?)"@,
        },
{
    if !is_dir {
        let mut msg = "working directory ".to_owned();
        msg.append(cwd.as_str());
        msg.append(" does not exist (sync first?)");
        return Err(infra(msg));
    }
    Ok(Spawn { argv: req.argv, cwd, path, env: req.env, stdin: req.stdin })
}

/// How a process ended: with a code, by a signal, or without having started.
#[derive(Debug)]
pub enum Ran {
    Exited(Option<i32>),
    Signaled(i32),
    /// It never started: why, and what the system says of it.
    Unstarted(SpawnError, String),
}

/// The exit code of a process that was started: its own, and for one that a
/// signal ended, 128 more than the signal, as a shell has it.
pub open spec fn code_of(ran: Ran) -> int {
    match ran {
        Ran::Exited(Some(code)) => code as int,
        Ran::Exited(None) => 1,
        Ran::Signaled(sig) => 128 + sig,
        Ran::Unstarted(_, _) => 1,
    }
}

/// The exit code of a process that was started.
pub fn exit_code(ran: &Ran) -> (r: i32)
    requires
        *ran matches Ran::Signaled(sig) ==> sig <= i32::MAX - 128,
    ensures
        r == code_of(*ran),
{
    match ran {
        Ran::Exited(Some(code)) => *code,
        Ran::Exited(None) => 1,
        Ran::Signaled(sig) => 128 + *sig,
        Ran::Unstarted(_, _) => 1,
    }
}

/// The PATH that a process is searched on: the one it was sent, else the agent's.
pub open spec fn searched(spawn: Spawn, windows: bool) -> Seq<char> {
    match exec::path_among(spawn.env.items(), windows) {
        Some(path) => path,
        None => spawn.path@,
    }
}

/// The failure of a process that could not be started for a reason that is not
/// its own.
pub open spec fn unstarted(argv: Seq<Seq<char>>, cwd: Seq<char>, why: Seq<char>) -> Seq<char> {
    "running "@ + text::debug_text(text::joined(argv, " "@)) + " in "@ + cwd + ": "@ + why
}

/// What the agent makes of how a process ended: the code it exits with, and the
/// lines it prints. A command that is not found or not executable is the
/// command's own result, never a failure of the agent.
pub fn outcome(spawn: &Spawn, ran: Ran, windows: bool) -> (r: Result<(i32, Vec<Say>), Failure>)
    requires
        spawn.argv@.len() > 0,
        ran matches Ran::Signaled(sig) ==> sig <= i32::MAX - 128,
    ensures
        match ran {
            Ran::Unstarted(error, why) => match r {
                Ok(done) => exec::unspawned(
                    error,
                    spawn.argv@[0]@,
                    searched(*spawn, windows),
                    windows,
                    Some(Unspawned { code: done.0, lines: done.1 }),
                ),
                Err(e) => error == SpawnError::Other && e is Infra && e.says() == unstarted(
                    text::views(spawn.argv@),
                    spawn.cwd@,
                    why@,
                ),
            },
            _ => r matches Ok(done) && done.0 == code_of(ran) && done.1@.len() == 0,
        },
{
    match ran {
        Ran::Unstarted(error, why) => {
            let over: Option<String> = path_override(&spawn.env, windows);
            let path: &str = match &over {
                Some(p) => p.as_str(),
                None => spawn.path.as_str(),
            };
            match spawn_failure(error, spawn.argv[0].as_str(), Some(path), windows) {
                Some(un) => Ok((un.code, un.lines)),
                None => {
                    let mut msg = "running ".to_owned();
                    msg.append(text::debug(text::join(&spawn.argv, " ").as_str()).as_str());
                    msg.append(" in ");
                    msg.append(spawn.cwd.as_str());
                    msg.append(": ");
                    msg.append(why.as_str());
                    Err(infra(msg))
                },
            }
        },
        _ => Ok((exit_code(&ran), Vec::new())),
    }
}

/// A command that was started, or that a shell would answer for itself, is never
/// a failure of the agent: only a spawn that failed for another reason is.
pub proof fn commands_answer_for_themselves(
    error: SpawnError,
    program: Seq<char>,
    path: Seq<char>,
    windows: bool,
    r: Option<Unspawned>,
)
    requires
        exec::unspawned(error, program, path, windows, r),
        error != SpawnError::Other,
    ensures
        r is Some,
        r->0.code == 127 || r->0.code == 126,
{
}

// ── The setup of a fresh checkout ────────────────────────────────────────────

/// The name of the file in a checkout's `.git` that records that its setup ran.
/// It outlives every sync, and not the checkout.
pub const FIRST_SYNC_MARKER: &'static str = "vm-first-sync-done";

/// The line that announces a checkout's setup, where it is to run: there is a
/// checkout, and nothing records that its setup ran.
pub fn first_sync(is_checkout: bool, marked: bool, cmd: &str) -> (r: Option<String>)
    ensures
        text::opt_string(r) == (if is_checkout && !marked {
            Some("vm ▸ first-sync ▸ $ "@ + cmd@)
        } else {
            None
        }),
{
    if !is_checkout || marked {
        return None;
    }
    let mut line = "vm ▸ first-sync ▸ $ ".to_owned();
    line.append(cmd);
    Some(line)
}

/// What the marker is written with after a checkout's setup, if it is written.
pub open spec fn marker_after(code: i32, cmd: Seq<char>) -> Option<Seq<char>> {
    if code == 0 {
        Some(cmd + "\n"@)
    } else {
        None
    }
}

/// What the marker is written with after a checkout's setup: nothing where it
/// failed, so that it runs again.
pub fn first_sync_marker(code: i32, cmd: &str) -> (r: Option<String>)
    ensures
        text::opt_string(r) == (if code == 0 {
            Some(cmd@ + "\n"@)
        } else {
            None
        }),
        text::opt_string(r) == marker_after(code, cmd@),
{
    if code != 0 {
        return None;
    }
    let mut line = cmd.to_owned();
    line.append("\n");
    Some(line)
}

/// What a checkout goes through: its setup is due and ends with a code, or the
/// checkout is made anew.
#[derive(Debug, Clone, Copy, PartialEq, Eq, Structural)]
pub enum CheckoutEvent {
    SetUp(i32),
    Recreated,
}

/// Whether a checkout is marked as set up, after what it went through.
pub open spec fn is_marked(history: Seq<CheckoutEvent>) -> bool
    decreases history.len(),
{
    if history.len() == 0 {
        false
    } else {
        match history.last() {
            CheckoutEvent::SetUp(code) => is_marked(history.drop_last()) || code == 0,
            CheckoutEvent::Recreated => false,
        }
    }
}

/// Once a setup went through, none is due until the checkout is made anew.
pub proof fn setup_succeeds_once(history: Seq<CheckoutEvent>, i: int)
    requires
        0 <= i < history.len(),
        history[i] == CheckoutEvent::SetUp(0),
        forall|j: int| i < j < history.len() ==> #[trigger] history[j] != CheckoutEvent::Recreated,
    ensures
        is_marked(history),
    decreases history.len(),
{
    if i < history.len() - 1 {
        let front = history.drop_last();
        assert(history[history.len() - 1] == history.last());
        assert forall|j: int| i < j < front.len() implies #[trigger] front[j]
            != CheckoutEvent::Recreated by {
            assert(front[j] == history[j]);
        }
        setup_succeeds_once(front, i);
    }
}

/// A setup that failed is due again.
pub proof fn failed_setup_is_due_again(history: Seq<CheckoutEvent>, code: i32)
    requires
        !is_marked(history),
        code != 0,
    ensures
        !is_marked(history.push(CheckoutEvent::SetUp(code))),
{
    assert(history.push(CheckoutEvent::SetUp(code)).drop_last() =~= history);
}

/// The argv that runs a script in a guest's own shell.
pub fn shell_command(script: &str, os: GuestOs) -> (r: Vec<String>)
    ensures
        text::views(r@) == host::shell(os).push(script@),
{
    let mut argv: Vec<String> = Vec::new();
    match os {
        GuestOs::Windows => {
            argv.push("cmd".to_owned());
            argv.push("/C".to_owned());
        },
        _ => {
            argv.push("sh".to_owned());
            argv.push("-c".to_owned());
        },
    }
    argv.push(script.to_owned());
    assert(text::views(argv@) =~= host::shell(os).push(script@));
    argv
}

// ── The PATH ─────────────────────────────────────────────────────────────────

/// The PATH entry, with its separator, for a tool directory below a home.
pub open spec fn entry(home: Seq<char>, dir: Seq<char>, windows: bool) -> Seq<char> {
    if windows {
        home + "\\"@ + text::replaced(dir, '/', '\\') + ";"@
    } else {
        home + "/"@ + dir + ":"@
    }
}

/// A PATH with the usual per-user tool directories in front, and on Windows the
/// POSIX userland of git behind it. Without a home it stays as it is.
pub open spec fn augmented(
    current: Seq<char>,
    home: Seq<char>,
    windows: bool,
    usr_bin: Option<Seq<char>>,
) -> Seq<char> {
    if home.len() == 0 {
        current
    } else {
        let front = entry(home, "bin"@, windows) + entry(home, ".cargo/bin"@, windows) + entry(
            home,
            ".local/bin"@,
            windows,
        ) + entry(home, ".vm/bin"@, windows) + current;
        match usr_bin {
            Some(dir) => if windows {
                front + ";"@ + dir
            } else {
                front
            },
            None => front,
        }
    }
}

fn path_entry(home: &str, dir: &str, windows: bool) -> (r: String)
    ensures
        r@ == entry(home@, dir@, windows),
{
    let mut out = home.to_owned();
    if windows {
        out.append("\\");
        out.append(text::replace_char(dir, '/', '\\').as_str());
        out.append(";");
    } else {
        out.append("/");
        out.append(dir);
        out.append(":");
    }
    out
}

/// The text of a variable, empty where it is not set.
pub open spec fn or_empty(s: Option<Seq<char>>) -> Seq<char> {
    match s {
        Some(t) => t,
        None => Seq::empty(),
    }
}

/// The PATH that guest commands are given: a session without a login shell has a
/// bare one.
pub fn augmented_path(
    current: Option<&str>,
    home: Option<&str>,
    profile: Option<&str>,
    windows: bool,
    usr_bin: Option<&str>,
) -> (r: String)
    ensures
        r@ == augmented(
            or_empty(text::opt(current)),
            or_empty(sync::home_of(text::opt(home), text::opt(profile))),
            windows,
            text::opt(usr_bin),
        ),
{
    let current: String = match current {
        Some(p) => p.to_owned(),
        None => String::new(),
    };
    let home: String = match (home, profile) {
        (Some(h), _) => h.to_owned(),
        (None, Some(p)) => p.to_owned(),
        (None, None) => String::new(),
    };
    if home.as_str().is_empty() {
        return current;
    }
    let h: &str = home.as_str();
    let mut path = path_entry(h, "bin", windows);
    path.append(path_entry(h, ".cargo/bin", windows).as_str());
    path.append(path_entry(h, ".local/bin", windows).as_str());
    path.append(path_entry(h, ".vm/bin", windows).as_str());
    path.append(current.as_str());
    if let Some(dir) = usr_bin {
        if windows {
            path.append(";");
            path.append(dir);
        }
    }
    path
}

/// A directory of a Windows PATH, as far as git's userland goes.
#[derive(Debug)]
pub struct PathDir {
    /// Whether `git.exe` is in it.
    pub has_git: bool,
    /// Where the userland of an installation around it would be, if it has a
    /// parent.
    pub usr_bin: Option<String>,
    /// Whether `sh.exe` is in that userland.
    pub has_sh: bool,
}

/// Whether a directory leads to git's userland.
pub open spec fn leads_to_userland(dir: PathDir) -> bool {
    dir.has_git && dir.usr_bin is Some && dir.has_sh
}

/// The first userland of git that a PATH leads to.
pub open spec fn first_userland(dirs: Seq<PathDir>) -> Option<Seq<char>>
    decreases dirs.len(),
{
    if dirs.len() == 0 {
        None
    } else if leads_to_userland(dirs[0]) {
        text::opt_string(dirs[0].usr_bin)
    } else {
        first_userland(dirs.skip(1))
    }
}

/// Git's POSIX userland, found from where `git.exe` is on the PATH.
pub fn git_usr_bin(dirs: &[PathDir]) -> (r: Option<String>)
    ensures
        text::opt_string(r) == first_userland(dirs@),
{
    let mut i: usize = 0;
    assert(dirs@.skip(0) =~= dirs@);
    while i < dirs.len()
        invariant
            i <= dirs@.len(),
            first_userland(dirs@) == first_userland(dirs@.skip(i as int)),
        decreases dirs@.len() - i,
    {
        assert(dirs@.skip(i as int)[0] == dirs@[i as int]);
        if dirs[i].has_git && dirs[i].has_sh {
            if let Some(dir) = &dirs[i].usr_bin {
                return Some(dir.as_str().to_owned());
            }
        }
        assert(dirs@.skip(i as int).skip(1) =~= dirs@.skip(i + 1));
        i = i + 1;
    }
    None
}

/// The code of a process that was started is its own, untouched; one that a signal
/// ended has 128 and the signal.
pub proof fn codes_are_the_processes_own(code: i32, signal: i32, e: SpawnError, why: String)
    ensures
        code_of(Ran::Unstarted(e, why)) == 1,
        code_of(Ran::Exited(Some(code))) == code,
        code_of(Ran::Signaled(signal)) == 128 + signal,
        code_of(Ran::Exited(None)) == 1,
{
}

/// A process is searched on the PATH that was sent along, where one was, and else on
/// the agent's own.
pub proof fn a_path_that_is_sent_is_searched(spawn: Spawn, windows: bool)
    ensures
        exec::path_among(spawn.env.items(), windows) matches Some(path) ==> searched(spawn, windows)
            == path,
        exec::path_among(spawn.env.items(), windows) is None ==> searched(spawn, windows)
            == spawn.path@,
{
}

/// The tool directories of a user stand on the PATH of a guest command, in front of
/// what was there before; the userland of git stands behind it, on Windows alone; and
/// without a home nothing changes.
pub proof fn tools_stand_in_front_of_the_path(
    current: Seq<char>,
    home: Seq<char>,
    usr_bin: Seq<char>,
)
    requires
        home.len() > 0,
    ensures
        augmented(current, home, false, None) == home + "/bin:"@ + home + "/.cargo/bin:"@ + home
            + "/.local/bin:"@ + home + "/.vm/bin:"@ + current,
        augmented(current, home, false, Some(usr_bin)) == augmented(current, home, false, None),
        augmented(current, home, true, None) == home + "\\bin;"@ + home + "\\.cargo\\bin;"@ + home
            + "\\.local\\bin;"@ + home + "\\.vm\\bin;"@ + current,
        augmented(current, home, true, Some(usr_bin)) == augmented(current, home, true, None)
            + ";"@ + usr_bin,
        augmented(current, Seq::empty(), true, Some(usr_bin)) == current,
        augmented(current, Seq::empty(), false, None) == current,
{
    reveal_strlit("/");
    reveal_strlit(":");
    reveal_strlit(";");
    reveal_strlit("\\");
    reveal_strlit("bin");
    reveal_strlit(".cargo/bin");
    reveal_strlit(".local/bin");
    reveal_strlit(".vm/bin");
    reveal_strlit("/bin:");
    reveal_strlit("/.cargo/bin:");
    reveal_strlit("/.local/bin:");
    reveal_strlit("/.vm/bin:");
    reveal_strlit("\\bin;");
    reveal_strlit("\\.cargo\\bin;");
    reveal_strlit("\\.local\\bin;");
    reveal_strlit("\\.vm\\bin;");
    assert(entry(home, "bin"@, false) =~= home + "/bin:"@);
    assert(entry(home, ".cargo/bin"@, false) =~= home + "/.cargo/bin:"@);
    assert(entry(home, ".local/bin"@, false) =~= home + "/.local/bin:"@);
    assert(entry(home, ".vm/bin"@, false) =~= home + "/.vm/bin:"@);
    assert(entry(home, "bin"@, true) =~= home + "\\bin;"@);
    assert(entry(home, ".cargo/bin"@, true) =~= home + "\\.cargo\\bin;"@);
    assert(entry(home, ".local/bin"@, true) =~= home + "\\.local\\bin;"@);
    assert(entry(home, ".vm/bin"@, true) =~= home + "\\.vm\\bin;"@);
    assert(augmented(current, home, false, None) =~= home + "/bin:"@ + home + "/.cargo/bin:"@ + home
        + "/.local/bin:"@ + home + "/.vm/bin:"@ + current);
    assert(augmented(current, home, true, None) =~= home + "\\bin;"@ + home + "\\.cargo\\bin;"@
        + home + "\\.local\\bin;"@ + home + "\\.vm\\bin;"@ + current);
}

/// Git's userland is the one of the first directory that holds git and leads to a
/// shell.
pub proof fn the_first_git_leads_to_its_userland(
    front: Seq<PathDir>,
    dir: PathDir,
    rest: Seq<PathDir>,
)
    requires
        forall|i: int|
            0 <= i < front.len() ==> !((#[trigger] front[i]).has_git && front[i].has_sh
                && front[i].usr_bin is Some),
    ensures
        first_userland(front) is None,
        dir.has_git && dir.has_sh ==> (dir.usr_bin matches Some(path) ==> first_userland(
            front + seq![dir] + rest,
        ) == Some(path@)),
    decreases front.len(),
{
    let all = front + seq![dir] + rest;
    if front.len() == 0 {
        assert(all[0] == dir);
    } else {
        let tail = front.skip(1);
        assert(all[0] == front[0]);
        assert(all.skip(1) =~= tail + seq![dir] + rest);
        assert forall|i: int| 0 <= i < tail.len() implies !((#[trigger] tail[i]).has_git
            && tail[i].has_sh && tail[i].usr_bin is Some) by {
            assert(tail[i] == front[i + 1]);
        }
        the_first_git_leads_to_its_userland(tail, dir, rest);
    }
}

/// A checkout is marked exactly by a setup that went well, with the command that set it up;
/// one that failed leaves no mark.
pub proof fn only_a_setup_that_went_well_is_marked(
    history: Seq<CheckoutEvent>,
    code: i32,
    cmd: Seq<char>,
)
    ensures
        marker_after(code, cmd) is Some <==> code == 0,
        marker_after(0, cmd) == Some(cmd + seq!['\n']),
        is_marked(history.push(CheckoutEvent::SetUp(code))) <==> is_marked(history)
            || marker_after(code, cmd) is Some,
        !is_marked(Seq::empty()),
        !is_marked(history.push(CheckoutEvent::Recreated)),
{
    reveal_strlit("\n");
    assert("\n"@ =~= seq!['\n']);
    assert(history.push(CheckoutEvent::SetUp(code)).drop_last() =~= history);
    assert(history.push(CheckoutEvent::SetUp(code)).last() == CheckoutEvent::SetUp(code));
    assert(history.push(CheckoutEvent::Recreated).last() == CheckoutEvent::Recreated);
}

/// A command that could not be started is named as it was asked for, with the directory and
/// what the system says of it.
pub proof fn what_could_not_be_started_is_named(
    argv: Seq<Seq<char>>,
    cwd: Seq<char>,
    why: Seq<char>,
    path: Seq<char>,
)
    ensures
        unstarted(argv, cwd, why) == "running "@ + text::debug_text(
            text::joined(argv, seq![' ']),
        ) + " in "@ + cwd + seq![':', ' '] + why,
        or_empty(Some(path)) == path,
        or_empty(None).len() == 0,
{
    reveal_strlit(" ");
    reveal_strlit(": ");
    assert(" "@ =~= seq![' ']);
    assert(": "@ =~= seq![':', ' ']);
}

} // verus!
