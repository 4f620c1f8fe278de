//! Advisory notes: the guesswork that is kept out of the rules.
//!
//! The arity rule counts arguments and never reads them. What a command *looks*
//! like is only ever the subject of a note, where a wrong guess costs one line
//! and never runs the wrong command. Every check here leans toward silence.

use crate::text;
use vstd::prelude::*;

verus! {

/// A line break, and the indent that puts what follows under a note's text.
pub open spec fn indent() -> Seq<char> {
    "\n           "@
}

// ── Exec form that holds shell syntax ────────────────────────────────────────

/// The shell operators that are never a command's own argument.
pub open spec fn always_operator(arg: Seq<char>) -> bool {
    arg == "&&"@ || arg == "||"@ || arg == ">>"@ || arg == "<<"@ || arg == "2>"@ || arg == "2>>"@
        || arg == "2>&1"@
}

/// The shell operators that are also plausible values of a flag.
pub open spec fn flag_value_operator(arg: Seq<char>) -> bool {
    arg == "|"@ || arg == "&"@ || arg == ">"@ || arg == "<"@
}

/// Whether the argument at `i` follows a flag, whose value it may be.
pub open spec fn in_value_position(cmd: Seq<Seq<char>>, i: int) -> bool {
    0 < i <= cmd.len() && cmd[i - 1].len() > 0 && cmd[i - 1][0] == '-'
}

/// Whether the argument at `i` is a shell operator standing on its own.
pub open spec fn stands_alone(cmd: Seq<Seq<char>>, i: int) -> bool {
    always_operator(cmd[i]) || (flag_value_operator(cmd[i]) && !in_value_position(cmd, i))
}

/// The operators standing on their own in `cmd`, in order, each of them once.
pub open spec fn operators(cmd: Seq<Seq<char>>) -> Seq<Seq<char>>
    decreases cmd.len(),
{
    if cmd.len() == 0 {
        Seq::empty()
    } else {
        let earlier = operators(cmd.drop_last());
        if stands_alone(cmd, cmd.len() - 1) && !earlier.contains(cmd.last()) {
            earlier.push(cmd.last())
        } else {
            earlier
        }
    }
}

/// Each of `items` in backticks, separated by commas.
pub open spec fn ticked(items: Seq<Seq<char>>) -> Seq<char> {
    text::joined(items.map_values(|o: Seq<char>| "`"@ + o + "`"@), ", "@)
}

/// The note for an exec-form command that holds shell syntax.
pub open spec fn exec_form_text(
    verb: Seq<char>,
    target: Seq<char>,
    cmd: Seq<Seq<char>>,
) -> Seq<char> {
    ticked(operators(cmd)) + " reached vm as "@ + (if operators(cmd).len() == 1 {
        "its"@
    } else {
        "their"@
    }) + " own argument, so it is passed to `"@ + cmd[0]
        + "` as a literal word — several arguments run exactly as given, never as shell syntax."@
        + indent() + "To run this as a shell script, pass it as ONE argument: vm "@ + verb + " "@
        + target + " -- '"@ + text::joined(cmd, " "@) + "'"@
}

fn is_always_operator(arg: &str) -> (r: bool)
    ensures
        r == always_operator(arg@),
{
    text::same(arg, "&&") || text::same(arg, "||") || text::same(arg, ">>") || text::same(
        arg,
        "<<",
    ) || text::same(arg, "2>") || text::same(arg, "2>>") || text::same(arg, "2>&1")
}

fn is_flag_value_operator(arg: &str) -> (r: bool)
    ensures
        r == flag_value_operator(arg@),
{
    text::same(arg, "|") || text::same(arg, "&") || text::same(arg, ">") || text::same(arg, "<")
}

fn is_flag(arg: &str) -> (r: bool)
    ensures
        r == (arg@.len() > 0 && arg@[0] == '-'),
{
    let v: Vec<char> = text::chars_of(arg);
    v.len() > 0 && v[0] == '-'
}

fn listed(found: &Vec<String>, arg: &str) -> (r: bool)
    ensures
        r == text::views(found@).contains(arg@),
{
    let mut i: usize = 0;
    while i < found.len()
        invariant
            i <= found@.len(),
            forall|j: int| 0 <= j < i ==> text::views(found@)[j] != arg@,
        decreases found@.len() - i,
    {
        if text::same(found[i].as_str(), arg) {
            assert(text::views(found@)[i as int] == arg@);
            return true;
        }
        i = i + 1;
    }
    false
}

/// The operators standing on their own in an exec-form command, in order, each
/// of them once. A semicolon is never among them, and an operator right after a
/// flag is taken for that flag's value.
pub fn operators_in_exec_form(cmd: &[String]) -> (r: Vec<String>)
    ensures
        text::views(r@) == operators(text::views(cmd@)),
{
    let mut found: Vec<String> = Vec::new();
    let ghost all = text::views(cmd@);
    let mut i: usize = 0;
    assert(all.take(0) =~= Seq::<Seq<char>>::empty());
    assert(text::views(found@) =~= Seq::<Seq<char>>::empty());
    while i < cmd.len()
        invariant
            i <= cmd@.len(),
            all == text::views(cmd@),
            text::views(found@) == operators(all.take(i as int)),
        decreases cmd@.len() - i,
    {
        let arg: &str = cmd[i].as_str();
        let value: bool = i > 0 && is_flag(cmd[i - 1].as_str());
        let ghost upto = all.take(i + 1);
        proof {
            assert(upto.drop_last() =~= all.take(i as int));
            assert(upto.last() == arg@);
            if i > 0 {
                assert(upto[i - 1] == cmd@[i - 1]@);
            }
            assert(in_value_position(upto, i as int) == value);
        }
        if (is_always_operator(arg) || (!value && is_flag_value_operator(arg))) && !listed(
            &found,
            arg,
        ) {
            let ghost before = found@;
            found.push(arg.to_owned());
            assert(text::views(found@) =~= text::views(before).push(arg@));
        }
        i = i + 1;
    }
    assert(all.take(i as int) =~= all);
    found
}

/// Each of `items` in backticks, separated by commas.
pub fn backticked(items: &[String]) -> (r: String)
    ensures
        r@ == ticked(text::views(items@)),
{
    let mut quoted: Vec<String> = Vec::new();
    let ghost f = |o: Seq<char>| "`"@ + o + "`"@;
    let ghost all = text::views(items@);
    let mut i: usize = 0;
    assert(text::views(quoted@) =~= all.take(0).map_values(f));
    while i < items.len()
        invariant
            i <= items@.len(),
            all == text::views(items@),
            f == (|o: Seq<char>| "`"@ + o + "`"@),
            text::views(quoted@) == all.take(i as int).map_values(f),
        decreases items@.len() - i,
    {
        let mut q = "`".to_owned();
        q.append(items[i].as_str());
        q.append("`");
        let ghost before = quoted@;
        quoted.push(q);
        assert(text::views(quoted@) =~= text::views(before).push(q@));
        assert(all.take(i + 1).map_values(f) =~= all.take(i as int).map_values(f).push(
            f(items@[i as int]@),
        ));
        i = i + 1;
    }
    assert(all.take(i as int) =~= all);
    text::join(&quoted, ", ")
}

fn exec_form_note(verb: &str, target: &str, cmd: &[String]) -> (r: Option<String>)
    ensures
        match r {
            Some(note) => operators(text::views(cmd@)).len() > 0 && note@ == exec_form_text(
                verb@,
                target@,
                text::views(cmd@),
            ),
            None => operators(text::views(cmd@)).len() == 0,
        },
{
    let ops: Vec<String> = operators_in_exec_form(cmd);
    assert(text::views(ops@).len() == ops@.len());
    if ops.len() == 0 {
        return None;
    }
    proof {
        assert(cmd@.len() > 0) by {
            if cmd@.len() == 0 {
                assert(text::views(cmd@) =~= Seq::<Seq<char>>::empty());
            }
        }
        assert(text::views(cmd@)[0] == cmd@[0]@);
    }
    let mut note = backticked(&ops);
    note.append(" reached vm as ");
    note.append(
        if ops.len() == 1 {
            "its"
        } else {
            "their"
        },
    );
    note.append(" own argument, so it is passed to `");
    note.append(cmd[0].as_str());
    note.append(
        "` as a literal word — several arguments run exactly as given, never as shell syntax.",
    );
    note.append("\n           ");
    note.append("To run this as a shell script, pass it as ONE argument: vm ");
    note.append(verb);
    note.append(" ");
    note.append(target);
    note.append(" -- '");
    note.append(text::join(cmd, " ").as_str());
    note.append("'");
    Some(note)
}

// ── Shell form that begins with a spaced file name ───────────────────────────

/// Whether a word of `s` ends right before `i`.
pub open spec fn word_end(s: Seq<char>, i: int) -> bool {
    0 < i <= s.len() && !text::is_space(s[i - 1]) && (i == s.len() || text::is_space(s[i]))
}

/// Whether the text before `i` is two or more whole words: a shell splits it.
pub open spec fn several_words(s: Seq<char>, i: int) -> bool {
    word_end(s, i) && exists|j: int| j < i && #[trigger] word_end(s, j)
}

/// Whether the file system can answer that `path` is a file.
pub open spec fn file<F: Fn(&str) -> bool>(is_file: F, path: Seq<char>) -> bool {
    exists|p: &str| p@ == path && #[trigger] call_ensures(is_file, (p,), true)
}

/// Whether the file system can answer that `path` is no file.
pub open spec fn no_file<F: Fn(&str) -> bool>(is_file: F, path: Seq<char>) -> bool {
    exists|p: &str| p@ == path && #[trigger] call_ensures(is_file, (p,), false)
}

/// Whether `path` names a file, as it is or with its backslashes turned.
pub open spec fn names_file<F: Fn(&str) -> bool>(is_file: F, path: Seq<char>) -> bool {
    file(is_file, path) || file(is_file, text::replaced(path, '\\', '/'))
}

/// Whether `path` names no file, neither as it is nor with its backslashes
/// turned.
pub open spec fn names_no_file<F: Fn(&str) -> bool>(is_file: F, path: Seq<char>) -> bool {
    no_file(is_file, path) && no_file(is_file, text::replaced(path, '\\', '/'))
}

/// Whether the shortest prefix of `s` of several words that names a file ends at
/// `end`.
pub open spec fn spaced_file<F: Fn(&str) -> bool>(is_file: F, s: Seq<char>, end: int) -> bool {
    &&& several_words(s, end)
    &&& names_file(is_file, s.take(end))
    &&& forall|e: int|
        e < end && #[trigger] several_words(s, e) ==> names_no_file(is_file, s.take(e))
}

/// Whether no prefix of `s` of several words names a file.
pub open spec fn no_spaced_file<F: Fn(&str) -> bool>(is_file: F, s: Seq<char>) -> bool {
    forall|e: int| #[trigger] several_words(s, e) ==> names_no_file(is_file, s.take(e))
}

/// The note for a script whose first `end` characters are the name of a file.
pub open spec fn shell_form_text(
    verb: Seq<char>,
    target: Seq<char>,
    script: Seq<char>,
    end: int,
) -> Seq<char> {
    "`"@ + script.take(end)
        + "` is an existing file whose name holds a space, but a single argument runs as a shell script — the guest shell splits it there and never sees that file."@
        + indent() + "To run it, quote the path for the shell: vm "@ + verb + " "@ + target
        + " -- '\""@ + script.take(end) + "\""@ + script.skip(end) + "'"@
}

fn names_a_file<F: Fn(&str) -> bool>(is_file: &F, path: &str) -> (r: bool)
    requires
        forall|p: &str| call_requires(*is_file, (p,)),
    ensures
        r ==> names_file(*is_file, path@),
        !r ==> names_no_file(*is_file, path@),
{
    if is_file(path) {
        assert(file(*is_file, path@));
        return true;
    }
    assert(no_file(*is_file, path@));
    let turned = text::replace_char(path, '\\', '/');
    let p: &str = turned.as_str();
    let found: bool = is_file(p);
    if found {
        assert(file(*is_file, p@));
    } else {
        assert(no_file(*is_file, p@));
    }
    found
}

/// Where the shortest prefix of several words that names a file ends, if any
/// does. A single word holds no space, so no shell can split it.
pub fn spaced_file_prefix<F: Fn(&str) -> bool>(script: &str, is_file: &F) -> (r: Option<usize>)
    requires
        forall|p: &str| call_requires(*is_file, (p,)),
    ensures
        match r {
            Some(end) => spaced_file(*is_file, script@, end as int),
            None => no_spaced_file(*is_file, script@),
        },
{
    let v: Vec<char> = text::chars_of(script);
    let mut seen_word: bool = false;
    let mut i: usize = 0;
    while i < v.len()
        invariant
            i <= v@.len(),
            v@ == script@,
            forall|p: &str| call_requires(*is_file, (p,)),
            seen_word == (exists|j: int| j <= i && word_end(script@, j)),
            forall|e: int|
                e <= i && #[trigger] several_words(script@, e) ==> names_no_file(
                    *is_file,
                    script@.take(e),
                ),
        decreases v@.len() - i,
    {
        let end: usize = i + 1;
        let ends: bool = !text::space(v[i]) && (end == v.len() || text::space(v[end]));
        assert(ends == word_end(script@, end as int));
        if ends {
            if seen_word {
                assert(several_words(script@, end as int));
                let candidate = text::slice(&v, 0, end);
                assert(candidate@ =~= script@.take(end as int));
                if names_a_file(is_file, candidate.as_str()) {
                    return Some(end);
                }
            }
            seen_word = true;
        }
        i = end;
    }
    None
}

fn shell_form_note<F: Fn(&str) -> bool>(
    verb: &str,
    target: &str,
    script: &str,
    is_file: F,
) -> (r: Option<String>)
    requires
        forall|p: &str| call_requires(is_file, (p,)),
    ensures
        match r {
            Some(note) => exists|end: int|
                #[trigger] spaced_file(is_file, script@, end) && note@ == shell_form_text(
                    verb@,
                    target@,
                    script@,
                    end,
                ),
            None => no_spaced_file(is_file, script@),
        },
{
    let end: usize = match spaced_file_prefix(script, &is_file) {
        Some(end) => end,
        None => {
            return None;
        },
    };
    let v: Vec<char> = text::chars_of(script);
    let path = text::slice(&v, 0, end);
    let rest = text::slice(&v, end, v.len());
    assert(path@ =~= script@.take(end as int));
    assert(rest@ =~= script@.skip(end as int));
    let mut note = "`".to_owned();
    note.append(path.as_str());
    note.append(
        "` is an existing file whose name holds a space, but a single argument runs as a shell script — the guest shell splits it there and never sees that file.",
    );
    note.append("\n           ");
    note.append("To run it, quote the path for the shell: vm ");
    note.append(verb);
    note.append(" ");
    note.append(target);
    note.append(" -- '\"");
    note.append(path.as_str());
    note.append("\"");
    note.append(rest.as_str());
    note.append("'");
    Some(note)
}

/// The notes to print before running `cmd` against `target`: at most one, for a
/// command is either a script or an argv. `verb` is the verb that was typed, so
/// that the corrected command line a note ends in can be pasted back.
pub fn advisories<F: Fn(&str) -> bool>(
    verb: &str,
    target: &str,
    cmd: &[String],
    is_file: F,
) -> (r: Vec<String>)
    requires
        forall|p: &str| call_requires(is_file, (p,)),
    ensures
        r@.len() <= 1,
        cmd@.len() == 1 ==> if r@.len() == 1 {
            exists|end: int|
                #[trigger] spaced_file(is_file, cmd@[0]@, end) && r@[0]@ == shell_form_text(
                    verb@,
                    target@,
                    cmd@[0]@,
                    end,
                )
        } else {
            no_spaced_file(is_file, cmd@[0]@)
        },
        cmd@.len() != 1 ==> if r@.len() == 1 {
            operators(text::views(cmd@)).len() > 0 && r@[0]@ == exec_form_text(
                verb@,
                target@,
                text::views(cmd@),
            )
        } else {
            operators(text::views(cmd@)).len() == 0
        },
{
    let note: Option<String> = if cmd.len() == 1 {
        shell_form_note(verb, target, cmd[0].as_str(), is_file)
    } else {
        exec_form_note(verb, target, cmd)
    };
    let mut notes: Vec<String> = Vec::new();
    if let Some(text) = note {
        notes.push(text);
    }
    notes
}

// ── Gitignored environment files that stayed behind ──────────────────────────

/// The note for a failed command in a guest that never received `unsynced`.
pub open spec fn unsynced_env_text(unsynced: Seq<Seq<char>>) -> Seq<char> {
    let one = unsynced.len() == 1;
    let them = if one {
        "it"@
    } else {
        "them"@
    };
    ticked(unsynced) + (if one {
        " is"@
    } else {
        " are"@
    }) + " gitignored, so the sync left "@ + them + " on the host — if the guest needed what is in "@
        + them + ", that is the first thing to rule out."@ + indent()
        + "Pass the values with `-e NAME=value` (they never reach the guest's disk), or sync the file itself with `--with-file "@
        + unsynced[0] + "`."@
}

/// The note for a failed command in a guest whose checkout never received the
/// gitignored environment files `unsynced`. Silent where there are none.
pub fn unsynced_env_note(unsynced: &[String]) -> (r: Option<String>)
    ensures
        match r {
            Some(note) => unsynced@.len() > 0 && note@ == unsynced_env_text(
                text::views(unsynced@),
            ),
            None => unsynced@.len() == 0,
        },
{
    if unsynced.len() == 0 {
        return None;
    }
    assert(text::views(unsynced@)[0] == unsynced@[0]@);
    let one: bool = unsynced.len() == 1;
    let them: &str = if one {
        "it"
    } else {
        "them"
    };
    let mut note = backticked(unsynced);
    note.append(
        if one {
            " is"
        } else {
            " are"
        },
    );
    note.append(" gitignored, so the sync left ");
    note.append(them);
    note.append(" on the host — if the guest needed what is in ");
    note.append(them);
    note.append(", that is the first thing to rule out.");
    note.append("\n           ");
    note.append(
        "Pass the values with `-e NAME=value` (they never reach the guest's disk), or sync the file itself with `--with-file ",
    );
    note.append(unsynced[0].as_str());
    note.append("`.");
    Some(note)
}

// ── Input on vm's own stdin ──────────────────────────────────────────────────

/// What is wired into vm's own stdin, where that plainly carries input.
#[derive(Debug, Clone, Copy, PartialEq, Eq)]
pub enum StdinSource {
    /// A pipe: `echo hi | vm exec …`.
    Piped,
    /// A regular file: `vm exec … < data.txt`.
    Redirected,
}

/// The note for input that will not travel to the guest.
pub open spec fn stdin_text(source: StdinSource) -> Seq<char> {
    "input was "@ + (match source {
        StdinSource::Piped => "piped into vm"@,
        StdinSource::Redirected => "redirected into vm from a file"@,
    }) + ", but stdin does not travel to the guest — the command runs without it."@ + indent()
        + "Put the data in a file inside the repo instead: the sync carries it into the checkout the command runs in."@
}

/// The note for input wired into vm, which an exec never reads. A terminal and
/// the null device carry none, and draw none.
pub fn stdin_note(source: Option<StdinSource>) -> (r: Option<String>)
    ensures
        match source {
            Some(s) => r matches Some(note) && note@ == stdin_text(s),
            None => r is None,
        },
{
    let what: &str = match source {
        Some(StdinSource::Piped) => "piped into vm",
        Some(StdinSource::Redirected) => "redirected into vm from a file",
        None => {
            return None;
        },
    };
    let mut note = "input was ".to_owned();
    note.append(what);
    note.append(", but stdin does not travel to the guest — the command runs without it.");
    note.append("\n           ");
    note.append(
        "Put the data in a file inside the repo instead: the sync carries it into the checkout the command runs in.",
    );
    Some(note)
}

// ── The PATH behind a command that was not found ─────────────────────────────

/// How many characters of one PATH entry print before it is elided.
pub const ENTRY_WIDTH: usize = 76;

/// What separates the entries of a PATH.
pub open spec fn separator(windows: bool) -> char {
    if windows {
        ';'
    } else {
        ':'
    }
}

/// A PATH, or the empty one where none is set.
pub open spec fn given(path: Option<&str>) -> Seq<char> {
    match path {
        Some(p) => p@,
        None => Seq::empty(),
    }
}

/// The entries of a PATH, split as the platform splits it. Empty ones name no
/// directory and are dropped.
pub open spec fn path_entries(path: Seq<char>, windows: bool) -> Seq<Seq<char>> {
    text::split(path, separator(windows)).filter(|e: Seq<char>| e.len() > 0)
}

/// Whether a Windows PATH entry is really a POSIX one: it begins with a slash,
/// or it holds a colon past the second byte, where a drive letter's stands.
pub open spec fn posix(entry: Seq<char>) -> bool {
    ||| entry.len() > 0 && entry[0] == '/'
    ||| exists|j: int|
        0 <= j < entry.len() && #[trigger] entry[j] == ':' && text::utf8_len(entry.take(j)) > 1
}

/// How many POSIX paths are packed into one entry.
pub open spec fn packed(entry: Seq<char>) -> nat {
    text::split(entry, ':').filter(|p: Seq<char>| p.len() > 0).len()
}

/// `s` cut to `max` characters, and marked where anything was cut.
pub open spec fn elided(s: Seq<char>, max: int) -> Seq<char> {
    if s.len() > max {
        s.take(max) + "…"@
    } else {
        s
    }
}

/// The lines of the report about one entry.
pub open spec fn entry_lines(entry: Seq<char>, windows: bool) -> Seq<char> {
    if windows && posix(entry) {
        "\n    ⚠ "@ + elided(entry, ENTRY_WIDTH as int) + (if packed(entry) == 1 {
            "\n      ↑ POSIX form — no Win32 resolver can search it"@
        } else {
            "\n      ↑ POSIX form, colon-joined: "@ + text::decimal(packed(entry))
                + " paths, none of them searchable by a Win32 resolver"@
        })
    } else {
        "\n      "@ + entry
    }
}

/// The lines of the report about each of `entries`.
pub open spec fn all_entry_lines(entries: Seq<Seq<char>>, windows: bool) -> Seq<char>
    decreases entries.len(),
{
    if entries.len() == 0 {
        Seq::empty()
    } else {
        all_entry_lines(entries.drop_last(), windows) + entry_lines(entries.last(), windows)
    }
}

/// How many of `entries` no resolver can search.
pub open spec fn unusable_count(entries: Seq<Seq<char>>, windows: bool) -> nat
    decreases entries.len(),
{
    if entries.len() == 0 {
        0
    } else {
        unusable_count(entries.drop_last(), windows) + (if windows && posix(entries.last()) {
            1nat
        } else {
            0nat
        })
    }
}

/// The report on the PATH that a command was searched on.
pub open spec fn path_report(path: Seq<char>, windows: bool) -> Seq<char> {
    let entries = path_entries(path, windows);
    let bad = unusable_count(entries, windows);
    if entries.len() == 0 {
        "vm ▸ the PATH it searched was empty"@
    } else {
        "vm ▸ the PATH it searched ("@ + text::decimal(entries.len()) + (if entries.len() == 1 {
            " entry"@
        } else {
            " entries"@
        }) + (if bad == 0 {
            "):"@
        } else {
            ", "@ + text::decimal(bad) + " of them unusable):"@
        }) + all_entry_lines(entries, windows)
    }
}

fn non_empty_pieces(s: &str, sep: char) -> (r: Vec<String>)
    ensures
        text::views(r@) == text::split(s@, sep).filter(|e: Seq<char>| e.len() > 0),
{
    let pieces: Vec<String> = text::split_on(s, sep);
    let ghost all = text::views(pieces@);
    let ghost keep = |e: Seq<char>| e.len() > 0;
    let mut out: Vec<String> = Vec::new();
    let mut i: usize = 0;
    proof {
        reveal(Seq::filter);
        assert(all.take(0) =~= Seq::<Seq<char>>::empty());
        assert(text::views(out@) =~= all.take(0).filter(keep));
    }
    while i < pieces.len()
        invariant
            i <= pieces@.len(),
            all == text::views(pieces@),
            keep == (|e: Seq<char>| e.len() > 0),
            text::views(out@) == all.take(i as int).filter(keep),
        decreases pieces@.len() - i,
    {
        let ghost before = out@;
        proof {
            reveal(Seq::filter);
            assert(all.take(i + 1).drop_last() =~= all.take(i as int));
            assert(all.take(i + 1).last() == pieces@[i as int]@);
        }
        if !pieces[i].as_str().is_empty() {
            let piece = pieces[i].as_str().to_owned();
            out.push(piece);
            assert(text::views(out@) =~= text::views(before).push(piece@));
        }
        i = i + 1;
    }
    assert(all.take(i as int) =~= all);
    out
}

fn given_path<'a>(path: Option<&'a str>) -> (r: &'a str)
    ensures
        r@ == given(path),
{
    match path {
        Some(p) => p,
        None => {
            let e: &str = "";
            proof {
                reveal_strlit("");
                assert(e@ =~= Seq::<char>::empty());
            }
            e
        },
    }
}

/// The entries of a PATH, split as the platform splits it.
pub fn split_path(path: &str, windows: bool) -> (r: Vec<String>)
    ensures
        text::views(r@) == path_entries(path@, windows),
{
    non_empty_pieces(
        path,
        if windows {
            ';'
        } else {
            ':'
        },
    )
}

/// Whether a Windows PATH entry is really a POSIX one.
pub fn is_posix(entry: &str) -> (r: bool)
    ensures
        r == posix(entry@),
{
    let v: Vec<char> = text::chars_of(entry);
    if v.len() > 0 && v[0] == '/' {
        return true;
    }
    let mut i: usize = 0;
    while i < v.len()
        invariant
            i <= v@.len(),
            v@ == entry@,
            forall|j: int|
                0 <= j < i && #[trigger] entry@[j] == ':' ==> text::utf8_len(entry@.take(j)) <= 1,
        decreases v@.len() - i,
    {
        if v[i] == ':' {
            let head = text::slice(&v, 0, i);
            assert(head@ =~= entry@.take(i as int));
            if text::byte_len(head.as_str()) > 1 {
                assert(entry@[i as int] == ':');
                return true;
            }
        }
        i = i + 1;
    }
    false
}

/// How many POSIX paths are packed into one entry.
pub fn posix_paths(entry: &str) -> (r: usize)
    ensures
        r == packed(entry@),
{
    let pieces: Vec<String> = non_empty_pieces(entry, ':');
    assert(text::views(pieces@).len() == pieces@.len());
    pieces.len()
}

/// `s` cut to `max` characters, and marked where anything was cut.
pub fn elide(s: &str, max: usize) -> (r: String)
    ensures
        r@ == elided(s@, max as int),
{
    let v: Vec<char> = text::chars_of(s);
    if v.len() > max {
        let mut out = text::slice(&v, 0, max);
        assert(out@ =~= s@.take(max as int));
        out.append("…");
        out
    } else {
        s.to_owned()
    }
}

/// The PATH that a command was about to be searched on, for the one failure that
/// a PATH explains. Entries that no resolver can search are marked, which only
/// ever happens on Windows.
pub fn path_searched(path: Option<&str>, windows: bool) -> (r: String)
    ensures
        r@ == path_report(given(path), windows),
{
    let entries: Vec<String> = split_path(given_path(path), windows);
    let ghost all = text::views(entries@);
    assert(all.len() == entries@.len());
    if entries.len() == 0 {
        return "vm ▸ the PATH it searched was empty".to_owned();
    }
    let mut bad: usize = 0;
    let mut body = String::new();
    let mut i: usize = 0;
    assert(all.take(0) =~= Seq::<Seq<char>>::empty());
    while i < entries.len()
        invariant
            i <= entries@.len(),
            all == text::views(entries@),
            bad <= i,
            bad == unusable_count(all.take(i as int), windows),
            body@ == all_entry_lines(all.take(i as int), windows),
        decreases entries@.len() - i,
    {
        let entry: &str = entries[i].as_str();
        let ghost before = body@;
        proof {
            assert(all.take(i + 1).drop_last() =~= all.take(i as int));
            assert(all.take(i + 1).last() == entry@);
        }
        if windows && is_posix(entry) {
            bad = bad + 1;
            body.append("\n    ⚠ ");
            body.append(elide(entry, ENTRY_WIDTH).as_str());
            let n: usize = posix_paths(entry);
            if n == 1 {
                body.append("\n      ↑ POSIX form — no Win32 resolver can search it");
            } else {
                body.append("\n      ↑ POSIX form, colon-joined: ");
                body.append(text::to_decimal(n as u128).as_str());
                body.append(" paths, none of them searchable by a Win32 resolver");
            }
        } else {
            body.append("\n      ");
            body.append(entry);
        }
        assert(body@ =~= before + entry_lines(entry@, windows));
        i = i + 1;
    }
    assert(all.take(i as int) =~= all);
    let mut out = "vm ▸ the PATH it searched (".to_owned();
    out.append(text::to_decimal(entries.len() as u128).as_str());
    out.append(
        if entries.len() == 1 {
            " entry"
        } else {
            " entries"
        },
    );
    if bad == 0 {
        out.append("):");
    } else {
        out.append(", ");
        out.append(text::to_decimal(bad as u128).as_str());
        out.append(" of them unusable):");
    }
    out.append(body.as_str());
    assert(out@ =~= path_report(given(path), windows));
    out
}

/// The note for a PATH that reached a Windows process still in POSIX form.
pub open spec fn half_posix_text() -> Seq<char> {
    "a POSIX PATH reached a native Windows process — nothing on Win32 can search those entries, so the command was never going to be found there, however well it is installed."@
        + indent()
        + "The usual source is a shell that converts only the head of the list on the way out: a mise task with `shell = \"bash -c\"` hands its native grandchildren exactly this."@
        + indent()
        + "Run the task without the bash shell, or pass a Windows PATH explicitly with `-e PATH=…`."@
}

/// The note for a PATH that reached a Windows process still, or partly, in POSIX
/// form. On any other system there is none.
pub fn half_posix_path_note(path: Option<&str>, windows: bool) -> (r: Option<String>)
    ensures
        ({
            let entries = path_entries(given(path), windows);
            let found = windows && exists|i: int|
                0 <= i < entries.len() && posix(#[trigger] entries[i]);
            match r {
                Some(note) => found && note@ == half_posix_text(),
                None => !found,
            }
        }),
{
    let entries: Vec<String> = split_path(given_path(path), windows);
    let ghost all = text::views(entries@);
    if !windows {
        return None;
    }
    let mut i: usize = 0;
    while i < entries.len()
        invariant
            i <= entries@.len(),
            windows,
            all == text::views(entries@),
            all == path_entries(given(path), windows),
            forall|j: int| 0 <= j < i ==> !posix(#[trigger] all[j]),
        decreases entries@.len() - i,
    {
        assert(all[i as int] == entries@[i as int]@);
        if is_posix(entries[i].as_str()) {
            let mut note =
                "a POSIX PATH reached a native Windows process — nothing on Win32 can search those entries, so the command was never going to be found there, however well it is installed.".to_owned();
            note.append("\n           ");
            note.append(
                "The usual source is a shell that converts only the head of the list on the way out: a mise task with `shell = \"bash -c\"` hands its native grandchildren exactly this.",
            );
            note.append("\n           ");
            note.append(
                "Run the task without the bash shell, or pass a Windows PATH explicitly with `-e PATH=…`.",
            );
            return Some(note);
        }
        i = i + 1;
    }
    None
}

// ── What holds of the notes ──────────────────────────────────────────────────

/// A semicolon is never noted: it cannot be told from the one that `find -exec`
/// takes.
pub proof fn semicolon_is_never_noted(cmd: Seq<Seq<char>>)
    ensures
        !operators(cmd).contains(";"@),
    decreases cmd.len(),
{
    reveal_strlit(";");
    reveal_strlit("&&");
    reveal_strlit("||");
    reveal_strlit(">>");
    reveal_strlit("<<");
    reveal_strlit("2>");
    reveal_strlit("2>>");
    reveal_strlit("2>&1");
    reveal_strlit("|");
    reveal_strlit("&");
    reveal_strlit(">");
    reveal_strlit("<");
    if cmd.len() > 0 {
        semicolon_is_never_noted(cmd.drop_last());
        let earlier = operators(cmd.drop_last());
        if cmd.last() == ";"@ {
            assert(";"@[0] == ';');
            assert("|"@[0] == '|');
            assert("&"@[0] == '&');
            assert(">"@[0] == '>');
            assert("<"@[0] == '<');
            assert(!stands_alone(cmd, cmd.len() - 1));
        }
        if operators(cmd) != earlier {
            assert forall|i: int| 0 <= i < operators(cmd).len() implies operators(cmd)[i]
                != ";"@ by {
                if i < earlier.len() {
                    assert(earlier.contains(earlier[i]));
                }
            }
        }
    }
}

/// Each operator is listed once.
pub proof fn operators_are_listed_once(cmd: Seq<Seq<char>>)
    ensures
        operators(cmd).no_duplicates(),
    decreases cmd.len(),
{
    if cmd.len() > 0 {
        operators_are_listed_once(cmd.drop_last());
    }
}

/// A PATH on a system other than Windows never holds an unusable entry.
pub proof fn unix_path_is_never_unusable(entries: Seq<Seq<char>>)
    ensures
        unusable_count(entries, false) == 0,
    decreases entries.len(),
{
    if entries.len() > 0 {
        unix_path_is_never_unusable(entries.drop_last());
    }
}

/// A drive letter's colon does not make an entry a POSIX one: where a letter
/// stands first and every colon stands second, the entry is a Windows path.
pub proof fn drive_colon_is_no_separator(entry: Seq<char>)
    requires
        entry.len() > 1,
        '\0' <= entry[0] <= '\u{7f}',
        entry[0] != '/',
        forall|j: int| 0 <= j < entry.len() && #[trigger] entry[j] == ':' ==> j == 1,
    ensures
        !posix(entry),
{
    let head = entry.take(1);
    assert(vstd::utf8::is_ascii_chars(head));
    vstd::utf8::is_ascii_chars_encode_utf8(head);
    assert(text::utf8_len(head) == 1);
}

/// A note as it is shown.
pub fn note_line(note: &str) -> (r: String)
    ensures
        r@ == "vm ▸ note: "@ + note@,
{
    let mut line = "vm ▸ note: ".to_owned();
    line.append(note);
    line
}

/// An operator that reached a command as a word of its own is noted: one of these always,
/// and one of the others unless it stands behind a flag, whose value it may be. Nothing
/// else is noted.
pub proof fn operators_of_their_own_are_noted(cmd: Seq<Seq<char>>, arg: Seq<char>)
    ensures
        operators(cmd).contains(arg) <==> exists|i: int|
            0 <= i < cmd.len() && #[trigger] cmd[i] == arg && (arg == "&&"@ || arg == "||"@ || arg
                == ">>"@ || arg == "<<"@ || arg == "2>"@ || arg == "2>>"@ || arg == "2>&1"@ || ((arg
                == "|"@ || arg == "&"@ || arg == ">"@ || arg == "<"@) && !(i > 0 && cmd[i - 1].len()
                > 0 && cmd[i - 1][0] == '-'))),
    decreases cmd.len(),
{
    if cmd.len() > 0 {
        let front = cmd.drop_last();
        let earlier = operators(front);
        let n = cmd.len() - 1;
        operators_of_their_own_are_noted(front, arg);
        assert forall|i: int| 0 <= i < n implies (stands_alone(cmd, i) <==> stands_alone(front, i))
            && #[trigger] cmd[i] == front[i] by {
            if i > 0 {
                assert(front[i - 1] == cmd[i - 1]);
            }
        }
        if operators(cmd).contains(arg) {
            if earlier.contains(arg) {
                let i = choose|i: int|
                    0 <= i < front.len() && #[trigger] front[i] == arg && stands_alone(front, i);
                assert(cmd[i] == arg && stands_alone(cmd, i));
            } else {
                let at = operators(cmd).index_of(arg);
                assert(operators(cmd)[at] == arg);
                if at < earlier.len() {
                    assert(earlier[at] == arg);
                }
                assert(cmd[n] == arg && stands_alone(cmd, n));
            }
        }
        if exists|i: int| 0 <= i < cmd.len() && #[trigger] cmd[i] == arg && stands_alone(cmd, i) {
            let i = choose|i: int|
                0 <= i < cmd.len() && #[trigger] cmd[i] == arg && stands_alone(cmd, i);
            if i < n {
                assert(front[i] == arg && stands_alone(front, i));
                let at = earlier.index_of(arg);
                assert(operators(cmd)[at] == arg);
            } else if !earlier.contains(arg) {
                assert(operators(cmd)[earlier.len() as int] == arg);
            } else {
                let at = earlier.index_of(arg);
                assert(operators(cmd)[at] == arg);
            }
        }
    }
}

proof fn filtering_keeps_what_passes(s: Seq<Seq<char>>)
    requires
        forall|i: int| 0 <= i < s.len() ==> (#[trigger] s[i]).len() > 0,
    ensures
        s.filter(|e: Seq<char>| e.len() > 0) == s,
    decreases s.len(),
{
    reveal(Seq::filter);
    if s.len() > 0 {
        let front = s.drop_last();
        assert forall|i: int| 0 <= i < front.len() implies (#[trigger] front[i]).len() > 0 by {
            assert(front[i] == s[i]);
        }
        filtering_keeps_what_passes(front);
        assert(s.last() == s[s.len() - 1]);
        assert(front.push(s.last()) =~= s);
    }
}

/// A PATH is its entries with the system's separator between them: a semicolon on Windows,
/// and else a colon.
pub proof fn a_path_is_its_entries(entries: Seq<Seq<char>>, windows: bool)
    requires
        entries.len() > 0,
        forall|i: int|
            0 <= i < entries.len() ==> (#[trigger] entries[i]).len() > 0 && !entries[i].contains(
                if windows {
                    ';'
                } else {
                    ':'
                },
            ),
    ensures
        path_entries(
            text::joined(
                entries,
                seq![
                    if windows {
                        ';'
                    } else {
                        ':'
                    },
                ],
            ),
            windows,
        ) == entries,
        path_entries(Seq::empty(), windows).len() == 0,
{
    let c = if windows {
        ';'
    } else {
        ':'
    };
    text::pieces_split_back(entries, c);
    filtering_keeps_what_passes(entries);
    let none = Seq::<char>::empty();
    text::split_of_one_piece(none, c);
    reveal_with_fuel(Seq::filter, 2);
    assert(seq![none].drop_last() =~= Seq::<Seq<char>>::empty());
}

/// How many paths a colon-joined entry packs.
pub proof fn colons_pack_paths(paths: Seq<Seq<char>>)
    requires
        paths.len() > 0,
        forall|i: int|
            0 <= i < paths.len() ==> (#[trigger] paths[i]).len() > 0 && !paths[i].contains(':'),
    ensures
        packed(text::joined(paths, seq![':'])) == paths.len(),
{
    text::pieces_split_back(paths, ':');
    filtering_keeps_what_passes(paths);
}

proof fn two_characters_are_two_bytes(a: char, b: char)
    ensures
        text::utf8_len(seq![a, b]) > 1,
{
    let s = seq![a, b];
    assert(s.drop_first() =~= seq![b]);
    assert(seq![b].drop_first() =~= Seq::<char>::empty());
    reveal_with_fuel(vstd::utf8::encode_utf8, 3);
}

/// An entry that begins with a slash is a POSIX path, and so is one with a colon further in
/// than a drive's; one that has neither is none.
pub proof fn posix_entries_have_slash_or_colon(rest: Seq<char>, a: char, b: char)
    ensures
        posix(seq!['/'] + rest),
        posix(seq![a, b] + seq![':'] + rest),
        rest.len() > 0 && rest[0] != '/' && !rest.contains(':') ==> !posix(rest),
{
    let long = seq![a, b] + seq![':'] + rest;
    assert(long[2] == ':');
    assert(long.take(2) =~= seq![a, b]);
    two_characters_are_two_bytes(a, b);
    if rest.len() > 0 && rest[0] != '/' && !rest.contains(':') {
        assert forall|j: int| 0 <= j < rest.len() implies rest[j] != ':' by {
            assert(rest.contains(rest[j]));
        }
    }
}

/// What is cut short keeps its beginning, and is marked as cut; what fits is left as it is.
pub proof fn only_what_is_long_is_cut(s: Seq<char>, max: int)
    requires
        max >= 0,
    ensures
        s.len() <= max ==> elided(s, max) == s,
        s.len() > max ==> elided(s, max) == s.take(max) + seq!['…'],
{
    reveal_strlit("…");
    assert("…"@ =~= seq!['…']);
}

/// On Windows the entries that cannot be searched are counted, each once.
pub proof fn unusable_entries_are_counted(entries: Seq<Seq<char>>, entry: Seq<char>)
    ensures
        unusable_count(Seq::empty(), true) == 0,
        posix(entry) ==> unusable_count(entries.push(entry), true) == unusable_count(entries, true)
            + 1,
        !posix(entry) ==> unusable_count(entries.push(entry), true) == unusable_count(
            entries,
            true,
        ),
{
    assert(entries.push(entry).drop_last() =~= entries);
}

/// A report on a PATH lists its entries, in their order: one more entry adds one more line
/// with that entry, whole unless it could not be searched anyway.
pub proof fn every_entry_is_reported(entries: Seq<Seq<char>>, entry: Seq<char>)
    ensures
        all_entry_lines(entries.push(entry), false) == all_entry_lines(entries, false)
            + "\n      "@ + entry,
        !posix(entry) ==> all_entry_lines(entries.push(entry), true) == all_entry_lines(
            entries,
            true,
        ) + "\n      "@ + entry,
{
    assert(entries.push(entry).drop_last() =~= entries);
    assert(all_entry_lines(entries.push(entry), false) =~= all_entry_lines(entries, false)
        + "\n      "@ + entry);
    if !posix(entry) {
        assert(all_entry_lines(entries.push(entry), true) =~= all_entry_lines(entries, true)
            + "\n      "@ + entry);
    }
}

/// A note on operators shows the script that was probably meant: the words of the command
/// as one argument, for the same verb and target.
pub proof fn a_note_shows_the_script_that_was_meant(
    verb: Seq<char>,
    target: Seq<char>,
    cmd: Seq<Seq<char>>,
)
    ensures
        ({
            let note = exec_form_text(verb, target, cmd);
            let script = text::joined(cmd, seq![' ']);
            let end = seq!['v', 'm', ' '] + verb + seq![' '] + target + " -- '"@ + script
                + seq!['\''];
            note.len() >= end.len() && note.skip(note.len() - end.len()) == end
        }),
{
    reveal_strlit(" ");
    reveal_strlit("'");
    assert(" "@ =~= seq![' ']);
    assert("'"@ =~= seq!['\'']);
    reveal_strlit("To run this as a shell script, pass it as ONE argument: vm ");
    let note = exec_form_text(verb, target, cmd);
    let script = text::joined(cmd, seq![' ']);
    let end = seq!['v', 'm', ' '] + verb + seq![' '] + target + " -- '"@ + script + seq!['\''];
    assert(note.skip(note.len() - end.len()) =~= end);
}

/// A note on input says which kind it was.
pub proof fn a_note_says_where_input_came_from()
    ensures
        text::contains(stdin_text(StdinSource::Piped), "piped into vm"@),
        text::contains(stdin_text(StdinSource::Redirected), "redirected into vm from a file"@),
{
    let tail = ", but stdin does not travel to the guest — the command runs without it."@ + indent()
        + "Put the data in a file inside the repo instead: the sync carries it into the checkout the command runs in."@;
    let head = "input was "@;
    assert(stdin_text(StdinSource::Piped) =~= head + "piped into vm"@ + tail);
    assert(stdin_text(StdinSource::Redirected) =~= head + "redirected into vm from a file"@
        + tail);
    text::what_is_contained_is_there(head, "piped into vm"@, tail);
    text::what_is_contained_is_there(head, "redirected into vm from a file"@, tail);
}

/// A note on files that stayed behind names each of them in backticks.
pub proof fn a_note_names_what_stayed_behind(file: Seq<char>, rest: Seq<Seq<char>>)
    ensures
        ticked(seq![file]) == seq!['`'] + file + seq!['`'],
        rest.len() > 0 ==> ticked(seq![file] + rest) == ticked(seq![file]) + seq![',', ' '] + ticked(
            rest,
        ),
        text::starts_with(unsynced_env_text(seq![file] + rest), ticked(seq![file] + rest)),
{
    reveal_strlit("`");
    reveal_strlit(", ");
    assert("`"@ =~= seq!['`']);
    assert(", "@ =~= seq![',', ' ']);
    let tick = |o: Seq<char>| "`"@ + o + "`"@;
    let (a, b) = (seq![file].map_values(tick), rest.map_values(tick));
    assert((seq![file] + rest).map_values(tick) =~= a + b);
    text::join_parts(a, b, ", "@);
    reveal_with_fuel(text::joined, 2);
    assert(a =~= seq!["`"@ + file + "`"@]);
    let all = seq![file] + rest;
    let note = unsynced_env_text(all);
    assert(note.take(ticked(all).len() as int) =~= ticked(all));
}

/// A file with a space in its name is noted by the shortest beginning of the script that
/// names one and holds more than one word.
pub proof fn the_shortest_file_is_noted<F: Fn(&str) -> bool>(
    is_file: F,
    script: Seq<char>,
    end: int,
    shorter: int,
)
    requires
        spaced_file(is_file, script, end),
        several_words(script, shorter),
        shorter < end,
    ensures
        file(is_file, script.take(end)) || file(
            is_file,
            text::replaced(script.take(end), '\\', '/'),
        ),
        no_file(is_file, script.take(shorter)),
        exists|i: int| 0 <= i < end && text::is_space(#[trigger] script[i]),
{
    let j = choose|j: int| j < end && #[trigger] word_end(script, j);
    assert(text::is_space(script[j]));
}

/// A note on a spaced file shows the script with that file in double quotes, for the same
/// verb and target; a script that names none is not noted.
pub proof fn a_note_quotes_the_spaced_file<F: Fn(&str) -> bool>(
    is_file: F,
    verb: Seq<char>,
    target: Seq<char>,
    script: Seq<char>,
    end: int,
)
    requires
        0 <= end <= script.len(),
    ensures
        ({
            let note = shell_form_text(verb, target, script, end);
            let shown = seq!['v', 'm', ' '] + verb + seq![' '] + target + " -- '\""@ + script.take(
                end,
            ) + seq!['"'] + script.skip(end) + seq!['\''];
            note.len() >= shown.len() && note.skip(note.len() - shown.len()) == shown
        }),
        no_spaced_file(is_file, script) && several_words(script, end) ==> no_file(
            is_file,
            script.take(end),
        ),
{
    reveal_strlit(" ");
    reveal_strlit("\"");
    reveal_strlit("'");
    assert(" "@ =~= seq![' ']);
    assert("\""@ =~= seq!['"']);
    assert("'"@ =~= seq!['\'']);
    reveal_strlit("To run it, quote the path for the shell: vm ");
    let note = shell_form_text(verb, target, script, end);
    let shown = seq!['v', 'm', ' '] + verb + seq![' '] + target + " -- '\""@ + script.take(end)
        + seq!['"'] + script.skip(end) + seq!['\''];
    assert(note.skip(note.len() - shown.len()) =~= shown);
}

/// A report says how many entries a PATH has, and how many of them are unusable where any
/// are, and lists them; an empty PATH is called empty.
pub proof fn a_report_counts_the_entries(path: Seq<char>, windows: bool)
    ensures
        ({
            let entries = path_entries(path, windows);
            let bad = unusable_count(entries, windows);
            let said = path_report(path, windows);
            let list = all_entry_lines(entries, windows);
            &&& entries.len() == 0 ==> said == "vm ▸ the PATH it searched was empty"@
            &&& entries.len() > 0 ==> text::contains(said, text::decimal(entries.len()))
            &&& entries.len() > 0 && bad > 0 ==> text::contains(
                said,
                text::decimal(bad) + " of them unusable):"@,
            )
            &&& entries.len() > 0 ==> said.len() >= list.len() && said.skip(
                said.len() - list.len(),
            ) == list
        }),
{
    let entries = path_entries(path, windows);
    let bad = unusable_count(entries, windows);
    let said = path_report(path, windows);
    let list = all_entry_lines(entries, windows);
    if entries.len() > 0 {
        let head = "vm ▸ the PATH it searched ("@;
        let n = text::decimal(entries.len());
        let noun = if entries.len() == 1 {
            " entry"@
        } else {
            " entries"@
        };
        let count = if bad == 0 {
            "):"@
        } else {
            ", "@ + text::decimal(bad) + " of them unusable):"@
        };
        assert(said =~= head + n + (noun + count + list));
        text::what_is_contained_is_there(head, n, noun + count + list);
        assert(said.skip(said.len() - list.len()) =~= list);
        if bad > 0 {
            let part = text::decimal(bad) + " of them unusable):"@;
            assert(said =~= (head + n + noun + ", "@) + part + list);
            text::what_is_contained_is_there(head + n + noun + ", "@, part, list);
        }
    }
}

/// Two words with a blank between them are several at the end of the second, and not at the
/// end of the first nor anywhere else.
pub proof fn words_end_where_a_blank_follows(a: Seq<char>, b: Seq<char>, i: int)
    requires
        text::is_word(a),
        text::is_word(b),
    ensures
        several_words(a + seq![' '] + b, i) <==> i == a.len() + 1 + b.len(),
        !several_words(a, i),
{
    let s = a + seq![' '] + b;
    let n = s.len() as int;
    text::blanks_and_line_ends_are_space(' ');
    assert(s[a.len() as int] == ' ');
    assert forall|j: int| 0 <= j < n implies text::is_space(#[trigger] s[j]) == (j == a.len()) by {
        if j < a.len() {
            assert(s[j] == a[j]);
        } else if j > a.len() {
            assert(s[j] == b[j - a.len() - 1]);
        }
    }
    assert(s[a.len() - 1] == a[a.len() - 1]);
    assert(word_end(s, a.len() as int));
    assert(s[n - 1] == b[b.len() - 1]);
    assert(word_end(s, n));
    if several_words(s, i) {
        let j = choose|j: int| j < i && #[trigger] word_end(s, j);
        if i < n {
            assert(text::is_space(s[i]));
            assert(text::is_space(s[j]));
        }
    }
    if several_words(a, i) {
        let j = choose|j: int| j < i && #[trigger] word_end(a, j);
        assert(text::is_space(a[j]));
    }
}

} // verus!
