//! Where a place on the host is in the guest, and how git reaches it.

use crate::exit::{infra, usage, Failure};
use crate::process::{self, Output};
use crate::sync::git::owned;
use crate::text;
use vstd::prelude::*;

verus! {

/// The repo that `vm` was called in, and where in it.
#[derive(Debug)]
pub struct RepoLocation {
    /// The root of the git worktree.
    pub root: String,
    pub name: String,
    /// The current directory relative to the root, empty at the root.
    pub rel: String,
}

impl RepoLocation {
    /// The git arguments that ask for the root of the repo.
    pub fn root_args() -> (r: Vec<String>)
        ensures
            text::views(r@) == seq!["rev-parse"@, "--show-toplevel"@],
    {
        let args = owned(&["rev-parse", "--show-toplevel"]);
        assert(text::views(args@) =~= seq!["rev-parse"@, "--show-toplevel"@]);
        args
    }

    /// The root of the repo, out of what `git rev-parse --show-toplevel` left. A
    /// call from outside a repo is a usage error.
    pub fn root_of(out: Output) -> (r: Result<String, Failure>)
        ensures
            match r {
                Ok(root) => {
                    &&& out.success
                    &&& vstd::utf8::valid_utf8(out.stdout@)
                    &&& root@ == text::trim_end(vstd::utf8::decode_utf8(out.stdout@))
                },
                Err(e) => if out.success {
                    &&& !vstd::utf8::valid_utf8(out.stdout@)
                    &&& e is Infra
                    &&& e.says() == process::utf8_complaint(out.stdout@)
                } else {
                    &&& e is Usage
                    &&& e.says()
                        == "not inside a git repository — run vm from within the repo you want to sync"@
                },
            },
    {
        if !out.success {
            return Err(
                usage(
                    "not inside a git repository — run vm from within the repo you want to sync".to_owned(),
                ),
            );
        }
        match process::utf8(out.stdout) {
            Ok(s) => Ok(text::trimmed_end(s.as_str())),
            Err(e) => Err(infra(e)),
        }
    }

    /// The location of a call: the root, the last component of its path, and the
    /// current directory relative to it where it lies below.
    pub fn discover(root: String, name: Option<String>, rel: Option<String>) -> (r: Result<
        RepoLocation,
        Failure,
    >)
        ensures
            match name {
                Some(n) => {
                    &&& r is Ok
                    &&& r->Ok_0.root@ == root@
                    &&& r->Ok_0.name@ == n@
                    &&& r->Ok_0.rel@ == (match rel {
                        Some(path) => path@,
                        None => Seq::empty(),
                    })
                },
                None => r matches Err(e) && e is Infra && e.says()
                    == "repo root has no valid name"@,
            },
    {
        match name {
            Some(name) => {
                let rel: String = match rel {
                    Some(path) => path,
                    None => String::new(),
                };
                Ok(RepoLocation { root, name, rel })
            },
            None => Err(infra("repo root has no valid name".to_owned())),
        }
    }
}

/// `s` without any slashes or backslashes that it ends with.
pub open spec fn without_slashes(s: Seq<char>) -> Seq<char>
    decreases s.len(),
{
    if s.len() > 0 && (s.last() == '/' || s.last() == '\\') {
        without_slashes(s.drop_last())
    } else {
        s
    }
}

/// The guest path of a repo's checkout, with forward slashes throughout its
/// root.
pub open spec fn checkout(work_root: Seq<char>, repo_name: Seq<char>) -> Seq<char> {
    text::replaced(without_slashes(work_root), '\\', '/') + "/"@ + repo_name
}

/// The guest path of a repo's checkout. Forward slashes: every guest accepts
/// them.
pub fn guest_repo_path(work_root: &str, repo_name: &str) -> (r: String)
    ensures
        r@ == checkout(work_root@, repo_name@),
{
    let v: Vec<char> = text::chars_of(work_root);
    let mut end: usize = v.len();
    assert(v@.take(end as int) =~= v@);
    while end > 0 && (v[end - 1] == '/' || v[end - 1] == '\\')
        invariant
            end <= v@.len(),
            without_slashes(v@) == without_slashes(v@.take(end as int)),
        decreases end,
    {
        assert(v@.take(end as int).drop_last() =~= v@.take(end - 1));
        end = end - 1;
    }
    let root = text::slice(&v, 0, end);
    assert(root@ =~= v@.take(end as int));
    let mut out = text::replace_char(root.as_str(), '\\', '/');
    out.append("/");
    out.append(repo_name);
    out
}

/// A host as it must stand inside a git remote: a bare IPv6 literal in brackets,
/// for the first colon ends the host.
pub open spec fn remote_host(host: Seq<char>) -> Seq<char> {
    if host.contains(':') && host[0] != '[' {
        "["@ + host + "]"@
    } else {
        host
    }
}

/// A host as it must stand inside a git remote.
pub fn url_host(host: &str) -> (r: String)
    ensures
        r@ == remote_host(host@),
{
    let v: Vec<char> = text::chars_of(host);
    let colon: usize = text::index_from(&v, 0, ':');
    assert(host@.skip(0) =~= host@);
    if colon < v.len() && v[0] != '[' {
        let mut out = "[".to_owned();
        out.append(host);
        out.append("]");
        out
    } else {
        host.to_owned()
    }
}

/// The git remote for a guest checkout. A home-relative path drops its tilde and
/// a drive path keeps its letter, in the scp-like form; an absolute path goes in
/// an ssh URL.
pub open spec fn remote_url(user: Seq<char>, host: Seq<char>, repo: Seq<char>) -> Seq<char> {
    let path = text::replaced(repo, '\\', '/');
    if text::starts_with(path, "~/"@) {
        user + "@"@ + remote_host(host) + ":"@ + path.skip(2)
    } else if text::starts_with(path, "/"@) {
        "ssh://"@ + user + "@"@ + remote_host(host) + path
    } else {
        user + "@"@ + remote_host(host) + ":"@ + path
    }
}

/// The git remote for push and fetch against a guest checkout.
pub fn ssh_remote_url(user: &str, host: &str, guest_repo_path: &str) -> (r: String)
    ensures
        r@ == remote_url(user@, host@, guest_repo_path@),
{
    let at: String = url_host(host);
    let path: String = text::replace_char(guest_repo_path, '\\', '/');
    proof {
        reveal_strlit("~/");
    }
    if let Some(rest) = text::strip_prefix(path.as_str(), "~/") {
        let mut out = user.to_owned();
        out.append("@");
        out.append(at.as_str());
        out.append(":");
        out.append(rest.as_str());
        out
    } else if text::has_prefix(path.as_str(), "/") {
        let mut out = "ssh://".to_owned();
        out.append(user);
        out.append("@");
        out.append(at.as_str());
        out.append(path.as_str());
        out
    } else {
        let mut out = user.to_owned();
        out.append("@");
        out.append(at.as_str());
        out.append(":");
        out.append(path.as_str());
        out
    }
}

/// `base` with each of `parts` below the one before it, those that are empty or
/// a single dot left out.
pub open spec fn descended(base: Seq<char>, parts: Seq<Seq<char>>) -> Seq<char>
    decreases parts.len(),
{
    if parts.len() == 0 {
        base
    } else {
        let up = descended(base, parts.drop_last());
        if parts.last().len() == 0 || parts.last() == "."@ {
            up
        } else {
            up + "/"@ + parts.last()
        }
    }
}

/// What a relative path that leaves the repo is refused with.
pub open spec fn stray(component: Seq<char>, rel: Seq<char>) -> Seq<char> {
    "unexpected path component "@ + component + " in relative path "@ + rel
}

fn stray_component(component: &str, rel: &str) -> (r: Failure)
    ensures
        r is Infra,
        r.says() == stray(component@, rel@),
{
    let mut msg = "unexpected path component ".to_owned();
    msg.append(component);
    msg.append(" in relative path ");
    msg.append(rel);
    infra(msg)
}

/// The guest directory for a place inside the repo. A path that is absolute or
/// holds a parent component names no such place.
pub fn guest_cwd(work_root: &str, repo_name: &str, rel: &str) -> (r: Result<String, Failure>)
    ensures
        ({
            let parts = text::split(rel@, '/');
            if rel@.len() > 0 && rel@[0] == '/' {
                r matches Err(e) && e is Infra && e.says() == stray("RootDir"@, rel@)
            } else if parts.contains(".."@) {
                r matches Err(e) && e is Infra && e.says() == stray("ParentDir"@, rel@)
            } else {
                r matches Ok(path) && path@ == descended(
                    checkout(work_root@, repo_name@),
                    parts,
                )
            }
        }),
{
    let v: Vec<char> = text::chars_of(rel);
    if v.len() > 0 && v[0] == '/' {
        return Err(stray_component("RootDir", rel));
    }
    let parts: Vec<String> = text::split_on(rel, '/');
    let ghost all = text::views(parts@);
    let mut path = guest_repo_path(work_root, repo_name);
    let ghost base = path@;
    let mut i: usize = 0;
    assert(all.take(0) =~= Seq::<Seq<char>>::empty());
    while i < parts.len()
        invariant
            i <= parts@.len(),
            all == text::views(parts@),
            all == text::split(rel@, '/'),
            rel@.len() > 0 ==> rel@[0] != '/',
            base == checkout(work_root@, repo_name@),
            path@ == descended(base, all.take(i as int)),
            forall|j: int| 0 <= j < i ==> all[j] != ".."@,
        decreases parts@.len() - i,
    {
        let part: &str = parts[i].as_str();
        assert(all[i as int] == part@);
        assert(all.take(i + 1).drop_last() =~= all.take(i as int));
        if text::same(part, "..") {
            assert(all.contains(".."@));
            return Err(stray_component("ParentDir", rel));
        }
        if !part.is_empty() && !text::same(part, ".") {
            path.append("/");
            path.append(part);
        }
        i = i + 1;
    }
    assert(all.take(i as int) =~= all);
    Ok(path)
}

/// A path below the repo maps into the repo's checkout: the guest directory
/// begins with it.
pub proof fn cwd_stays_in_the_checkout(base: Seq<char>, parts: Seq<Seq<char>>)
    ensures
        text::starts_with(descended(base, parts), base),
    decreases parts.len(),
{
    if parts.len() == 0 {
        assert(base.take(base.len() as int) =~= base);
    } else {
        cwd_stays_in_the_checkout(base, parts.drop_last());
        let up = descended(base, parts.drop_last());
        let down = descended(base, parts);
        assert(down.take(base.len() as int) =~= up.take(base.len() as int));
    }
}

/// No backslash is left in the remote of a checkout.
pub proof fn remote_path_has_no_backslash(repo: Seq<char>, i: int)
    requires
        0 <= i < repo.len(),
    ensures
        text::replaced(repo, '\\', '/')[i] != '\\',
{
}

/// A host with a colon in it is bracketed once: what is bracketed already stays
/// as it is.
pub proof fn hosts_are_bracketed_once(host: Seq<char>)
    ensures
        remote_host(remote_host(host)) == remote_host(host),
{
    reveal_strlit("[");
    reveal_strlit("]");
    if host.contains(':') && host[0] != '[' {
        assert(remote_host(host)[0] == '[');
    }
}

/// Whether a text is slashes and backslashes throughout.
pub open spec fn all_slashes(s: Seq<char>) -> bool {
    forall|i: int| 0 <= i < s.len() ==> #[trigger] s[i] == '/' || s[i] == '\\'
}

proof fn slashes_are_left_out(root: Seq<char>, slashes: Seq<char>)
    requires
        all_slashes(slashes),
    ensures
        without_slashes(root + slashes) == without_slashes(root),
    decreases slashes.len(),
{
    if slashes.len() == 0 {
        assert(root + slashes =~= root);
    } else {
        let front = slashes.drop_last();
        assert((root + slashes).last() == slashes[slashes.len() - 1]);
        assert((root + slashes).drop_last() =~= root + front);
        assert forall|i: int| 0 <= i < front.len() implies #[trigger] front[i] == '/' || front[i]
            == '\\' by {
            assert(front[i] == slashes[i]);
        }
        slashes_are_left_out(root, front);
    }
}

/// A checkout lies right below the guest's root for them, by the name of its repo,
/// however many slashes the root is written with at its end and whichever way they
/// lean.
pub proof fn a_checkout_lies_below_its_root(
    root: Seq<char>,
    slashes: Seq<char>,
    name: Seq<char>,
    i: int,
)
    requires
        all_slashes(slashes),
        root.len() > 0 ==> root.last() != '/' && root.last() != '\\',
    ensures
        ({
            let path = checkout(root + slashes, name);
            &&& path.len() == root.len() + 1 + name.len()
            &&& 0 <= i < root.len() && root[i] != '\\' ==> path[i] == root[i]
            &&& 0 <= i < root.len() && root[i] == '\\' ==> path[i] == '/'
            &&& path[root.len() as int] == '/'
            &&& path.skip(root.len() as int + 1) == name
        }),
{
    slashes_are_left_out(root, slashes);
    reveal_strlit("/");
    let path = checkout(root + slashes, name);
    assert(path.skip(root.len() as int + 1) =~= name);
}

/// A place below the repo is the same place below the checkout.
pub proof fn a_place_keeps_its_path(base: Seq<char>, parts: Seq<Seq<char>>)
    requires
        parts.len() > 0,
        forall|i: int|
            0 <= i < parts.len() ==> (#[trigger] parts[i]).len() > 0 && parts[i] != "."@
                && !parts[i].contains('/'),
    ensures
        descended(base, text::split(text::joined(parts, seq!['/']), '/')) == base + seq!['/']
            + text::joined(parts, seq!['/']),
        descended(base, text::split(Seq::empty(), '/')) == base,
        descended(base, text::split("."@, '/')) == base,
{
    text::pieces_split_back(parts, '/');
    below_in_turn(base, parts);
    let none = Seq::<char>::empty();
    text::split_of_one_piece(none, '/');
    reveal_strlit(".");
    text::split_of_one_piece("."@, '/');
    reveal_with_fuel(descended, 2);
    assert(seq![none].drop_last() =~= Seq::<Seq<char>>::empty());
    assert(seq!["."@].drop_last() =~= Seq::<Seq<char>>::empty());
}

proof fn below_in_turn(base: Seq<char>, parts: Seq<Seq<char>>)
    requires
        parts.len() > 0,
        forall|i: int| 0 <= i < parts.len() ==> (#[trigger] parts[i]).len() > 0 && parts[i] != "."@,
    ensures
        descended(base, parts) == base + seq!['/'] + text::joined(parts, seq!['/']),
    decreases parts.len(),
{
    reveal_strlit("/");
    assert("/"@ =~= seq!['/']);
    let front = parts.drop_last();
    assert(parts.last() == parts[parts.len() - 1]);
    if front.len() == 0 {
        reveal_with_fuel(descended, 2);
    } else {
        assert forall|i: int| 0 <= i < front.len() implies (#[trigger] front[i]).len() > 0
            && front[i] != "."@ by {
            assert(front[i] == parts[i]);
        }
        below_in_turn(base, front);
        assert(descended(base, parts) =~= base + seq!['/'] + text::joined(parts, seq!['/']));
    }
}

/// How git is pointed at a checkout, by the form of its path: one below the guest's
/// home without its tilde, one with a drive as it is, and an absolute one in a URL.
/// The host stands there as it is, unless it holds a colon and no bracket in front of
/// it, which brackets are then put around.
pub proof fn a_remote_names_user_host_and_path(
    user: Seq<char>,
    host: Seq<char>,
    path: Seq<char>,
)
    requires
        !path.contains('\\'),
    ensures
        !host.contains(':') ==> remote_host(host) == host,
        host.contains(':') && host[0] != '[' ==> remote_host(host) == seq!['['] + host + seq![']'],
        remote_url(user, host, seq!['~', '/'] + path) == user + seq!['@'] + remote_host(host)
            + seq![':'] + path,
        remote_url(user, host, seq!['/'] + path) == "ssh://"@ + user + seq!['@'] + remote_host(host)
            + seq!['/'] + path,
        path.len() > 0 && path[0] != '/' && path[0] != '~' ==> remote_url(user, host, path) == user
            + seq!['@'] + remote_host(host) + seq![':'] + path,
{
    reveal_strlit("[");
    reveal_strlit("]");
    reveal_strlit("@");
    reveal_strlit(":");
    reveal_strlit("/");
    reveal_strlit("~/");
    assert("["@ =~= seq!['[']);
    assert("]"@ =~= seq![']']);
    assert("@"@ =~= seq!['@']);
    assert(":"@ =~= seq![':']);
    let home = seq!['~', '/'] + path;
    let whole = seq!['/'] + path;
    assert forall|i: int| 0 <= i < path.len() implies path[i] != '\\' by {
        assert(path.contains(path[i]));
    }
    assert(text::replaced(home, '\\', '/') =~= home);
    assert(text::replaced(whole, '\\', '/') =~= whole);
    assert(text::replaced(path, '\\', '/') =~= path);
    assert(home.take(2) =~= "~/"@);
    assert(home.skip(2) =~= path);
    assert(whole[0] == '/');
    assert("~/"@[0] == '~');
    assert(!text::starts_with(whole, "~/"@)) by {
        if text::starts_with(whole, "~/"@) {
            assert(whole.take(2)[0] == '~');
        }
    }
    assert(whole.take(1) =~= "/"@);
    let at = remote_host(host);
    assert(remote_url(user, host, whole) =~= "ssh://"@ + user + seq!['@'] + at + seq!['/'] + path);
    if path.len() > 0 && path[0] != '/' && path[0] != '~' {
        if text::starts_with(path, "~/"@) {
            assert(path.take(2)[0] == '~');
        }
        if text::starts_with(path, "/"@) {
            assert(path.take(1)[0] == '/');
        }
    }
}

/// Backslashes in a guest's path are slashes to git, and a tilde that stands for no home is
/// left as it is.
pub proof fn git_is_shown_slashes(user: Seq<char>, host: Seq<char>, path: Seq<char>)
    ensures
        remote_url(user, host, path) == remote_url(user, host, text::replaced(path, '\\', '/')),
        !path.contains('\\') && path.len() > 1 && path[0] == '~' && path[1] != '/' ==> remote_url(
            user,
            host,
            path,
        ) == user + seq!['@'] + remote_host(host) + seq![':'] + path,
        host.len() > 0 && host[0] == '[' ==> remote_host(host) == host,
{
    reveal_strlit("@");
    reveal_strlit(":");
    reveal_strlit("/");
    reveal_strlit("~/");
    assert("@"@ =~= seq!['@']);
    assert(":"@ =~= seq![':']);
    let once = text::replaced(path, '\\', '/');
    assert(text::replaced(once, '\\', '/') =~= once);
    if !path.contains('\\') && path.len() > 1 && path[0] == '~' && path[1] != '/' {
        assert forall|i: int| 0 <= i < path.len() implies path[i] != '\\' by {
            assert(path.contains(path[i]));
        }
        assert(once =~= path);
        if text::starts_with(path, "~/"@) {
            assert(path.take(2)[1] == '/');
        }
        if text::starts_with(path, "/"@) {
            assert(path.take(1)[0] == '/');
        }
    }
}

/// What names no place leads nowhere else: empty parts and single dots, wherever they stand
/// at the end of a path.
pub proof fn dots_lead_nowhere(base: Seq<char>, parts: Seq<Seq<char>>, part: Seq<char>)
    ensures
        descended(base, Seq::empty()) == base,
        descended(base, parts.push(Seq::empty())) == descended(base, parts),
        descended(base, parts.push("."@)) == descended(base, parts),
        part.len() > 0 && part != "."@ ==> descended(base, parts.push(part)) == descended(
            base,
            parts,
        ) + seq!['/'] + part,
        stray(part, base) == "unexpected path component "@ + part + " in relative path "@ + base,
{
    reveal_strlit("/");
    assert("/"@ =~= seq!['/']);
    assert(parts.push(Seq::empty()).drop_last() =~= parts);
    assert(parts.push("."@).drop_last() =~= parts);
    assert(parts.push(part).drop_last() =~= parts);
}

} // verus!
