//! Command execution: what runs, where, and what its outcome means.
//!
//! Whether a command is an argv or a shell script is decided by its arity on the
//! host; the guest only ever execs an argv, and [`advise`] warns where that rule
//! may not have matched what was meant.

pub mod advise;
pub mod guest;
pub mod host;
pub mod run;

use crate::journal::Say;
use crate::ordmap::OrdMap;
use crate::text;
use vstd::prelude::*;

verus! {

/// Why a process could not be started.
#[derive(Debug, Clone, Copy, PartialEq, Eq, Structural)]
pub enum SpawnError {
    NotFound,
    PermissionDenied,
    Other,
}

/// Whether a program's file name is that of the Windows command interpreter,
/// which parses a raw command line and takes no argv.
pub fn is_cmd_exe(file_name: Option<&str>) -> (r: bool)
    ensures
        r == (file_name is Some && ({
            let name = file_name->0@.map_values(|c: char| text::ascii_lower(c));
            name == "cmd"@.map_values(|c: char| text::ascii_lower(c)) || name
                == "cmd.exe"@.map_values(|c: char| text::ascii_lower(c))
        })),
{
    match file_name {
        Some(name) => text::same_ignoring_ascii_case(name, "cmd") || text::same_ignoring_ascii_case(
            name,
            "cmd.exe",
        ),
        None => false,
    }
}

/// What a spawn that never started comes to: the shell's own exit code, and the
/// lines that report it.
#[derive(Debug)]
pub struct Unspawned {
    pub code: i32,
    pub lines: Vec<Say>,
}

/// Whether a POSIX entry hides in a Windows PATH.
pub open spec fn half_posix(path: Seq<char>, windows: bool) -> bool {
    let entries = advise::path_entries(path, windows);
    windows && exists|i: int| 0 <= i < entries.len() && advise::posix(#[trigger] entries[i])
}

/// What a report says, where every line of it is one that is always shown.
pub open spec fn notices(says: Seq<Say>) -> Option<Seq<Seq<char>>> {
    if forall|i: int| 0 <= i < says.len() ==> #[trigger] says[i] is Notice {
        Some(says.map_values(|s: Say| s.line()))
    } else {
        None
    }
}

/// The report on a command that was not found.
pub open spec fn not_found(program: Seq<char>, path: Seq<char>, windows: bool) -> Seq<Seq<char>> {
    let lines = seq!["vm: command not found: "@ + program, advise::path_report(path, windows)];
    if half_posix(path, windows) {
        lines.push("vm ▸ note: "@ + advise::half_posix_text())
    } else {
        lines
    }
}

/// Whether this is what a spawn that never started comes to. A command that is
/// not found, or not executable, is the command's own result: 127 or 126, as a
/// shell has it. Any other failure is none of the command's doing.
pub open spec fn unspawned(
    error: SpawnError,
    program: Seq<char>,
    path: Seq<char>,
    windows: bool,
    r: Option<Unspawned>,
) -> bool {
    match error {
        SpawnError::NotFound => r matches Some(u) && u.code == 127 && notices(u.lines@) == Some(
            not_found(program, path, windows),
        ),
        SpawnError::PermissionDenied => r matches Some(u) && u.code == 126 && notices(u.lines@)
            == Some(seq!["vm: command not executable: "@ + program]),
        SpawnError::Other => r is None,
    }
}

/// What a spawn that never started comes to. `path` is the PATH the process was
/// going to be searched on, which a not-found is a statement about.
pub fn spawn_failure(error: SpawnError, program: &str, path: Option<&str>, windows: bool) -> (r:
    Option<Unspawned>)
    ensures
        unspawned(error, program@, advise::given(path), windows, r),
{
    match error {
        SpawnError::NotFound => {
            let mut lines: Vec<Say> = Vec::new();
            let mut first = "vm: command not found: ".to_owned();
            first.append(program);
            lines.push(Say::Notice(first));
            lines.push(Say::Notice(advise::path_searched(path, windows)));
            if let Some(note) = advise::half_posix_path_note(path, windows) {
                let mut third = "vm ▸ note: ".to_owned();
                third.append(note.as_str());
                lines.push(Say::Notice(third));
            }
            assert(lines@.map_values(|s: Say| s.line()) =~= not_found(
                program@,
                advise::given(path),
                windows,
            ));
            Some(Unspawned { code: 127, lines })
        },
        SpawnError::PermissionDenied => {
            let mut lines: Vec<Say> = Vec::new();
            let mut first = "vm: command not executable: ".to_owned();
            first.append(program);
            lines.push(Say::Notice(first));
            assert(lines@.map_values(|s: Say| s.line()) =~= seq![
                "vm: command not executable: "@ + program@,
            ]);
            Some(Unspawned { code: 126, lines })
        },
        SpawnError::Other => None,
    }
}

/// Whether a variable of this name is the PATH: names are matched without case
/// on Windows, and with it elsewhere.
pub open spec fn is_path_name(name: Seq<char>, windows: bool) -> bool {
    if windows {
        name.map_values(|c: char| text::ascii_lower(c)) == "PATH"@.map_values(
            |c: char| text::ascii_lower(c),
        )
    } else {
        name == "PATH"@
    }
}

/// The PATH among some variables: the first one in the order of names.
pub open spec fn path_among(vars: Seq<(Seq<char>, String)>, windows: bool) -> Option<Seq<char>>
    decreases vars.len(),
{
    if vars.len() == 0 {
        None
    } else if is_path_name(vars[0].0, windows) {
        Some(vars[0].1@)
    } else {
        path_among(vars.skip(1), windows)
    }
}

/// The PATH that a caller set, if any.
pub fn path_override(env: &OrdMap<String>, windows: bool) -> (r: Option<String>)
    ensures
        text::opt_string(r) == path_among(env.items(), windows),
{
    let n: usize = env.len();
    let ghost vars = env.items();
    let mut i: usize = 0;
    assert(vars.skip(0) =~= vars);
    while i < n
        invariant
            i <= n,
            n == vars.len(),
            vars == env.items(),
            path_among(vars, windows) == path_among(vars.skip(i as int), windows),
        decreases n - i,
    {
        let name: &str = env.key(i);
        let found: bool = if windows {
            text::same_ignoring_ascii_case(name, "PATH")
        } else {
            text::same(name, "PATH")
        };
        assert(vars.skip(i as int)[0] == vars[i as int]);
        if found {
            return Some(env.value(i).as_str().to_owned());
        }
        assert(vars.skip(i as int).skip(1) =~= vars.skip(i + 1));
        i = i + 1;
    }
    None
}

/// What a command that could not be started comes to: 127 where it is not there, 126
/// where it may not be run, each with lines that name it and that are always shown,
/// and none of the command's doing where the reason is another.
pub proof fn a_shell_would_say_the_same(
    error: SpawnError,
    program: Seq<char>,
    path: Seq<char>,
    windows: bool,
    r: Option<Unspawned>,
)
    requires
        unspawned(error, program, path, windows, r),
    ensures
        error == SpawnError::NotFound ==> (r matches Some(u) && u.code == 127),
        error == SpawnError::PermissionDenied ==> (r matches Some(u) && u.code == 126),
        error == SpawnError::Other <==> r is None,
        r matches Some(u) ==> u.lines@.len() > 0 && text::contains(u.lines@[0].line(), program)
            && forall|i: int| 0 <= i < u.lines@.len() ==> #[trigger] u.lines@[i] is Notice,
{
    text::what_is_contained_is_there("vm: command not found: "@, program, Seq::empty());
    text::what_is_contained_is_there("vm: command not executable: "@, program, Seq::empty());
    assert("vm: command not found: "@ + program + Seq::empty() =~= "vm: command not found: "@
        + program);
    assert("vm: command not executable: "@ + program + Seq::empty()
        =~= "vm: command not executable: "@ + program);
    if let Some(u) = r {
        let said = u.lines@.map_values(|s: Say| s.line());
        assert(said.len() == u.lines@.len());
        assert(notices(u.lines@) == Some(said));
        assert(said[0] == u.lines@[0].line());
    }
}

/// The PATH among some variables is the value of the first that is called so: exactly
/// so, and on Windows in whatever case.
pub proof fn the_path_is_found_by_its_name(
    front: Seq<(Seq<char>, String)>,
    name: Seq<char>,
    value: String,
    rest: Seq<(Seq<char>, String)>,
    windows: bool,
)
    requires
        forall|i: int| 0 <= i < front.len() ==> !is_path_name((#[trigger] front[i]).0, windows),
    ensures
        path_among(front, windows) is None,
        name == "PATH"@ ==> path_among(front + seq![(name, value)] + rest, windows) == Some(value@),
        windows && name == "Path"@ ==> path_among(front + seq![(name, value)] + rest, windows)
            == Some(value@),
        !windows && name == "Path"@ ==> !is_path_name(name, windows),
        name.len() != 4 ==> !is_path_name(name, windows),
    decreases front.len(),
{
    reveal_strlit("PATH");
    reveal_strlit("Path");
    let all = front + seq![(name, value)] + rest;
    let low = |c: char| text::ascii_lower(c);
    if name == "Path"@ {
        assert(name.map_values(low) =~= "PATH"@.map_values(low));
        assert(name[1] == 'a' && "PATH"@[1] == 'A');
    }
    if name.len() != 4 {
        assert(name.map_values(low).len() != "PATH"@.map_values(low).len());
    }
    if front.len() == 0 {
        assert(all[0] == (name, value));
    } else {
        let tail = front.skip(1);
        assert(all[0] == front[0]);
        assert(all.skip(1) =~= tail + seq![(name, value)] + rest);
        assert forall|i: int| 0 <= i < tail.len() implies !is_path_name(
            (#[trigger] tail[i]).0,
            windows,
        ) by {
            assert(tail[i] == front[i + 1]);
        }
        the_path_is_found_by_its_name(tail, name, value, rest, windows);
    }
}

/// A command that is not there is told with the PATH that was searched, and on Windows with
/// a note where any entry of it could never be searched.
pub proof fn a_missing_command_is_told_with_its_path(
    program: Seq<char>,
    path: Seq<char>,
    windows: bool,
    i: int,
)
    ensures
        ({
            let lines = not_found(program, path, windows);
            let entries = advise::path_entries(path, windows);
            &&& lines[0] == "vm: command not found: "@ + program
            &&& lines[1] == advise::path_report(path, windows)
            &&& windows && 0 <= i < entries.len() && advise::posix(entries[i]) ==> lines.len() == 3
                && text::starts_with(lines[2], "vm ▸ note: "@)
            &&& !windows ==> lines.len() == 2
            &&& (forall|j: int| 0 <= j < entries.len() ==> !advise::posix(#[trigger] entries[j]))
                ==> lines.len() == 2
        }),
{
    text::what_is_contained_is_there(
        Seq::empty(),
        "vm ▸ note: "@,
        advise::half_posix_text(),
    );
}

} // verus!
