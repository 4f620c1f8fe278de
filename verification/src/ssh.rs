//! The ssh command lines that reach a guest.

use crate::sync::git::owned;
use crate::text;
use vstd::prelude::*;

verus! {

/// Where to ssh: a guest user, and an address that reaches the guest.
#[derive(Debug)]
pub struct SshTarget {
    pub user: String,
    pub host: String,
}

impl SshTarget {
    /// The destination as ssh takes it.
    pub open spec fn at(self) -> Seq<char> {
        self.user@ + "@"@ + self.host@
    }

    /// The destination as ssh takes it.
    pub fn destination(&self) -> (r: String)
        ensures
            r@ == self.at(),
    {
        let mut out = self.user.as_str().to_owned();
        out.append("@");
        out.append(self.host.as_str());
        out
    }
}

/// The client options of every call. A failed login fails fast, a guest that falls
/// silent is given up after four missed beats, connections are shared, and the host
/// keys of VMs stay out of the user's own file.
pub open spec fn ssh_options() -> Seq<Seq<char>> {
    seq![
        "-o"@,
        "BatchMode=yes"@,
        "-o"@,
        "ConnectTimeout=5"@,
        "-o"@,
        "ServerAliveInterval=15"@,
        "-o"@,
        "ServerAliveCountMax=4"@,
        "-o"@,
        "StrictHostKeyChecking=accept-new"@,
        "-o"@,
        "UserKnownHostsFile=~/.ssh/vm-known-hosts"@,
        "-o"@,
        "ControlMaster=auto"@,
        "-o"@,
        "ControlPath=~/.ssh/vm-cm-%C"@,
        "-o"@,
        "ControlPersist=600"@,
        "-o"@,
        "LogLevel=ERROR"@,
    ]
}

fn options() -> (r: Vec<String>)
    ensures
        text::views(r@) == ssh_options(),
{
    let settings: [&str; 10] = [
        "BatchMode=yes",
        "ConnectTimeout=5",
        "ServerAliveInterval=15",
        "ServerAliveCountMax=4",
        "StrictHostKeyChecking=accept-new",
        "UserKnownHostsFile=~/.ssh/vm-known-hosts",
        "ControlMaster=auto",
        "ControlPath=~/.ssh/vm-cm-%C",
        "ControlPersist=600",
        "LogLevel=ERROR",
    ];
    let mut out: Vec<String> = Vec::new();
    let mut i: usize = 0;
    let ghost all = ssh_options();
    assert(text::views(out@) =~= all.take(0));
    while i < 10
        invariant
            i <= 10,
            all == ssh_options(),
            settings@.len() == 10,
            forall|j: int| 0 <= j < 10 ==> (#[trigger] settings@[j])@ == all[2 * j + 1],
            text::views(out@) == all.take(2 * i),
        decreases 10 - i,
    {
        let ghost before = out@;
        out.push("-o".to_owned());
        out.push(settings[i].to_owned());
        assert(settings@[i as int]@ == all[2 * i + 1]);
        assert(all[2 * i as int] == "-o"@);
        assert(text::views(out@) =~= text::views(before).push("-o"@).push(settings@[i as int]@));
        assert(all.take(2 * i + 2) =~= all.take(2 * i as int).push(all[2 * i as int]).push(
            all[2 * i + 1],
        ));
        i = i + 1;
    }
    assert(all.take(20) =~= all);
    out
}

/// The arguments of `ssh` that come before the remote command.
pub fn ssh_command(target: &SshTarget) -> (r: Vec<String>)
    ensures
        text::views(r@) == ssh_options().push(target.at()),
{
    let mut out: Vec<String> = options();
    let ghost before = out@;
    let at: String = target.destination();
    out.push(at);
    assert(text::views(out@) =~= text::views(before).push(at@));
    out
}

/// `head`, with each of `options` after a space.
pub open spec fn spaced(head: Seq<char>, options: Seq<Seq<char>>) -> Seq<char>
    decreases options.len(),
{
    if options.len() == 0 {
        head
    } else {
        spaced(head, options.drop_last()) + " "@ + options.last()
    }
}

/// The same options as one command, so that git shares the connection and the
/// file of host keys.
pub fn git_ssh_command() -> (r: String)
    ensures
        r@ == spaced("ssh"@, ssh_options()),
{
    let all: Vec<String> = options();
    let ghost opts = ssh_options();
    let mut out = "ssh".to_owned();
    let mut i: usize = 0;
    assert(opts.take(0) =~= Seq::<Seq<char>>::empty());
    while i < all.len()
        invariant
            i <= all@.len(),
            opts == text::views(all@),
            out@ == spaced("ssh"@, opts.take(i as int)),
        decreases all@.len() - i,
    {
        assert(opts.take(i + 1).drop_last() =~= opts.take(i as int));
        assert(opts.take(i + 1).last() == all@[i as int]@);
        out.append(" ");
        out.append(all[i].as_str());
        i = i + 1;
    }
    assert(opts.take(i as int) =~= opts);
    out
}

/// `s` with each single quote closed, escaped and opened again.
pub open spec fn quotes_escaped(s: Seq<char>) -> Seq<char>
    decreases s.len(),
{
    if s.len() == 0 {
        Seq::empty()
    } else {
        quotes_escaped(s.drop_last()) + (if s.last() == '\'' {
            "'\\''"@
        } else {
            seq![s.last()]
        })
    }
}

/// `s` as one word for a POSIX shell.
pub open spec fn quoted(s: Seq<char>) -> Seq<char> {
    "'"@ + quotes_escaped(s) + "'"@
}

/// `s` with each single quote closed, escaped and opened again.
pub fn escape_quotes(s: &str) -> (r: String)
    ensures
        r@ == quotes_escaped(s@),
{
    let v: Vec<char> = text::chars_of(s);
    let mut out = String::new();
    let mut i: usize = 0;
    assert(v@.take(0) =~= Seq::<char>::empty());
    while i < v.len()
        invariant
            i <= v@.len(),
            v@ == s@,
            out@ == quotes_escaped(s@.take(i as int)),
        decreases v@.len() - i,
    {
        let ghost before = out@;
        assert(s@.take(i + 1).drop_last() =~= s@.take(i as int));
        if v[i] == '\'' {
            out.append("'\\''");
        } else {
            out.push(v[i]);
            assert(out@ =~= before + seq![v@[i as int]]);
        }
        i = i + 1;
    }
    assert(s@.take(i as int) =~= s@);
    out
}

/// `s` as one word for a POSIX shell: whatever it holds, the shell takes it
/// literally.
pub fn shell_quote(s: &str) -> (r: String)
    ensures
        r@ == quoted(s@),
{
    let mut out = "'".to_owned();
    out.append(escape_quotes(s).as_str());
    out.append("'");
    out
}

/// The characters that a POSIX shell takes literally outside of quotes, and that
/// end no word: letters, digits and a few signs.
pub open spec fn is_plain(c: char) -> bool {
    ||| 'a' as u32 <= c as u32 <= 'z' as u32
    ||| 'A' as u32 <= c as u32 <= 'Z' as u32
    ||| text::is_digit(c)
    ||| c == '_' || c == '-' || c == '.' || c == '/' || c == ':' || c == '@' || c == '%' || c == '+'
}

/// What a POSIX shell makes of a word, read inside single quotes or outside of
/// them: quotes delimit, a backslash outside of them makes the next character
/// literal, and everything inside of them is literal. Nothing where the text is
/// no such word.
pub open spec fn shell_reads(s: Seq<char>, inside: bool) -> Option<Seq<char>>
    decreases s.len(),
{
    if s.len() == 0 {
        if inside {
            None
        } else {
            Some(Seq::empty())
        }
    } else if s[0] == '\'' {
        shell_reads(s.skip(1), !inside)
    } else if inside || is_plain(s[0]) {
        match shell_reads(s.skip(1), inside) {
            Some(rest) => Some(seq![s[0]] + rest),
            None => None,
        }
    } else if s[0] == '\\' && s.len() > 1 {
        match shell_reads(s.skip(2), false) {
            Some(rest) => Some(seq![s[1]] + rest),
            None => None,
        }
    } else {
        None
    }
}

proof fn escaped_from_the_front(s: Seq<char>)
    requires
        s.len() > 0,
    ensures
        quotes_escaped(s) == quotes_escaped(seq![s[0]]) + quotes_escaped(s.skip(1)),
    decreases s.len(),
{
    let one = seq![s[0]];
    assert(one.drop_last() =~= Seq::<char>::empty());
    if s.len() == 1 {
        assert(s =~= one);
        assert(s.skip(1) =~= Seq::<char>::empty());
        assert(quotes_escaped(one) + quotes_escaped(s.skip(1)) =~= quotes_escaped(one));
    } else {
        let front = s.drop_last();
        escaped_from_the_front(front);
        assert(s.skip(1).drop_last() =~= front.skip(1));
        assert(s.skip(1).last() == s.last());
        assert(front[0] == s[0]);
        let tail = if s.last() == '\'' {
            "'\\''"@
        } else {
            seq![s.last()]
        };
        assert(quotes_escaped(s) == quotes_escaped(front) + tail);
        assert(quotes_escaped(s.skip(1)) == quotes_escaped(front.skip(1)) + tail);
        assert(quotes_escaped(one) + quotes_escaped(front.skip(1)) + tail =~= quotes_escaped(one)
            + (quotes_escaped(front.skip(1)) + tail));
    }
}

proof fn escaped_reads_back(s: Seq<char>, rest: Seq<char>, read: Seq<char>)
    requires
        shell_reads(rest, true) == Some(read),
    ensures
        shell_reads(quotes_escaped(s) + rest, true) == Some(s + read),
    decreases s.len(),
{
    if s.len() == 0 {
        assert(quotes_escaped(s) + rest =~= rest);
        assert(s + read =~= read);
    } else {
        let one = seq![s[0]];
        let more = s.skip(1);
        escaped_from_the_front(s);
        escaped_reads_back(more, rest, read);
        let tail = quotes_escaped(more) + rest;
        assert(one.drop_last() =~= Seq::<char>::empty());
        assert(quotes_escaped(one.drop_last()) =~= Seq::<char>::empty());
        assert(quotes_escaped(s) + rest =~= quotes_escaped(one) + tail);
        assert(s + read =~= one + (more + read));
        let word = quotes_escaped(one) + tail;
        if s[0] == '\'' {
            reveal_strlit("'\\''");
            assert(quotes_escaped(one) =~= "'\\''"@);
            let second = word.skip(1);
            let fourth = word.skip(3);
            assert(second.skip(2) =~= fourth);
            assert(fourth.skip(1) =~= tail);
            assert(second[0] == '\\' && second[1] == '\'');
            assert(fourth[0] == '\'');
            assert(shell_reads(fourth, false) == shell_reads(tail, true));
            assert(!is_plain('\\'));
            assert(shell_reads(second, false) == Some(seq!['\''] + (more + read)));
            assert(word[0] == '\'');
            assert(shell_reads(word, true) == shell_reads(second, false));
        } else {
            assert(quotes_escaped(one) =~= one);
            assert(word.skip(1) =~= tail);
            assert(word[0] == s[0]);
        }
    }
}

/// Whatever a text holds, a POSIX shell reads its quoted form as that text: one
/// word, and nothing in it with a meaning of its own.
pub proof fn quoting_reads_back(s: Seq<char>)
    ensures
        shell_reads(quoted(s), false) == Some(s),
{
    reveal_strlit("'");
    let close = "'"@;
    assert(close.skip(1) =~= Seq::<char>::empty());
    assert(shell_reads(close.skip(1), false) == Some(Seq::<char>::empty()));
    assert(shell_reads(close, true) == Some(Seq::<char>::empty()));
    escaped_reads_back(s, close, Seq::empty());
    assert(s + Seq::<char>::empty() =~= s);
    let word = quoted(s);
    assert(word.skip(1) =~= quotes_escaped(s) + close);
    assert(word[0] == '\'');
}

/// The remote command that is run to see whether ssh gets through.
pub fn probe_command() -> (r: Vec<String>)
    ensures
        text::views(r@) == seq!["true"@],
{
    let args = owned(&["true"]);
    assert(text::views(args@) =~= seq!["true"@]);
    args
}

/// Whether a probe over ssh got through: it was started, and it succeeded.
pub fn reachable(probe: Option<bool>) -> (r: bool)
    ensures
        r == (probe == Some(true)),
{
    match probe {
        Some(success) => success,
        None => false,
    }
}

/// Git is handed the very options that the library's own calls are made with: `ssh` and
/// they, with a blank between each two.
pub proof fn git_goes_the_same_way(head: Seq<char>, options: Seq<Seq<char>>)
    ensures
        spaced(head, options) == text::joined(seq![head] + options, seq![' ']),
    decreases options.len(),
{
    reveal_strlit(" ");
    assert(" "@ =~= seq![' ']);
    let all = seq![head] + options;
    if options.len() == 0 {
        assert(all =~= seq![head]);
        reveal_with_fuel(text::joined, 2);
    } else {
        git_goes_the_same_way(head, options.drop_last());
        assert(all.drop_last() =~= seq![head] + options.drop_last());
        assert(all.last() == options.last());
    }
}

/// Every option is one of ssh's own. No call waits for a password, none waits long for a
/// guest that is not there, a guest that falls silent is given up, a new guest's key is
/// taken and a changed one is not, and one connection serves many calls.
pub proof fn ssh_never_asks_and_never_hangs(i: int)
    ensures
        ssh_options().len() == 20,
        0 <= i < 20 && i % 2 == 0 ==> ssh_options()[i] == "-o"@,
        ssh_options().contains("BatchMode=yes"@),
        ssh_options().contains("ConnectTimeout=5"@),
        ssh_options().contains("ServerAliveInterval=15"@),
        ssh_options().contains("ServerAliveCountMax=4"@),
        ssh_options().contains("StrictHostKeyChecking=accept-new"@),
        ssh_options().contains("UserKnownHostsFile=~/.ssh/vm-known-hosts"@),
        ssh_options().contains("ControlMaster=auto"@),
        ssh_options().contains("ControlPath=~/.ssh/vm-cm-%C"@),
        ssh_options().contains("ControlPersist=600"@),
        ssh_options().contains("LogLevel=ERROR"@),
{
    let all = ssh_options();
    assert(all[1] == "BatchMode=yes"@);
    assert(all[3] == "ConnectTimeout=5"@);
    assert(all[5] == "ServerAliveInterval=15"@);
    assert(all[7] == "ServerAliveCountMax=4"@);
    assert(all[9] == "StrictHostKeyChecking=accept-new"@);
    assert(all[11] == "UserKnownHostsFile=~/.ssh/vm-known-hosts"@);
    assert(all[13] == "ControlMaster=auto"@);
    assert(all[15] == "ControlPath=~/.ssh/vm-cm-%C"@);
    assert(all[17] == "ControlPersist=600"@);
    assert(all[19] == "LogLevel=ERROR"@);
}

/// A guest is addressed as its user at its host.
pub proof fn a_guest_is_its_user_at_its_host(target: SshTarget)
    ensures
        target.at() == target.user@ + seq!['@'] + target.host@,
{
    reveal_strlit("@");
    assert("@"@ =~= seq!['@']);
}

} // verus!
