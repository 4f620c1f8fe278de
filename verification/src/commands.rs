//! The verbs that work on a VM as a whole: what they ask of it, and what they
//! say.

use crate::config::{Config, GuestOs, VmConfig};
use crate::exec::advise;
use crate::exit::{infra, usage, Failure};
use crate::guest_env::ActiveEnv;
use crate::mapping::{self, RepoLocation};
use crate::prl::{self, PrlVm, VmDetails};
use crate::process::{self, Output};
use crate::ssh::{self, SshTarget};
use crate::sync::git::owned;
use crate::sync::Snapshot;
use crate::text;
use vstd::prelude::*;

verus! {

// ── Where a guest is ─────────────────────────────────────────────────────────

/// The failure of a VM without an address.
pub open spec fn no_ip(vm: PrlVm) -> Seq<char> {
    "VM '"@ + vm.name@ + "' has no IP (status: "@ + vm.status@ + "); `vm start` it first"@
}

/// Where to ssh for a configured VM: to the address it is configured with, else
/// to the one Parallels reports in `vms`.
pub fn ssh_target(vm: &VmConfig, vms: &[PrlVm]) -> (r: Result<SshTarget, Failure>)
    ensures
        match vm.host {
            Some(host) => r matches Ok(t) && t.user@ == vm.user@ && t.host@ == host@,
            None => match registered(vms@, vm.parallels_name@) {
                Some(p) => match prl::address_in(p.ip_configured@) {
                    Some(ip) => r matches Ok(t) && t.user@ == vm.user@ && t.host@ == ip,
                    None => r matches Err(e) && e is Infra && e.says() == no_ip(p),
                },
                None => r matches Err(e) && e is Infra && e.says() == "no Parallels VM named '"@
                    + vm.parallels_name@ + "' (see `prlctl list -a`)"@,
            },
        },
{
    let host: String = match &vm.host {
        Some(host) => host.as_str().to_owned(),
        None => match lookup(vms, vm.parallels_name.as_str()) {
            Some(p) => match p.ip() {
                Some(ip) => ip,
                None => {
                    let mut msg = "VM '".to_owned();
                    msg.append(p.name.as_str());
                    msg.append("' has no IP (status: ");
                    msg.append(p.status.as_str());
                    msg.append("); `vm start` it first");
                    return Err(infra(msg));
                },
            },
            None => {
                let mut msg = "no Parallels VM named '".to_owned();
                msg.append(vm.parallels_name.as_str());
                msg.append("' (see `prlctl list -a`)");
                return Err(infra(msg));
            },
        },
    };
    Ok(SshTarget { user: vm.user.as_str().to_owned(), host })
}

/// Whether Parallels has to be asked where a VM is: one that is configured with an
/// address is there.
pub fn asks_parallels(vm: &VmConfig) -> (r: bool)
    ensures
        r == vm.host is None,
{
    vm.host.is_none()
}

/// Where to ssh for a VM that was just brought up and reported this address.
pub fn target_at(vm: &VmConfig, ip: &str) -> (r: SshTarget)
    ensures
        r.user@ == vm.user@,
        r.host@ == (match vm.host {
            Some(host) => host@,
            None => ip@,
        }),
{
    let host: String = match &vm.host {
        Some(host) => host.as_str().to_owned(),
        None => ip.to_owned(),
    };
    SshTarget { user: vm.user.as_str().to_owned(), host }
}

// ── Listing ──────────────────────────────────────────────────────────────────

/// `n` spaces, none where `n` is negative.
pub open spec fn blanks(n: int) -> Seq<char>
    decreases n,
{
    if n <= 0 {
        Seq::empty()
    } else {
        blanks(n - 1).push(' ')
    }
}

/// `s` with spaces put after it until it is `width` characters wide.
pub open spec fn column(s: Seq<char>, width: int) -> Seq<char> {
    s + blanks(width - s.len())
}

fn pad_column(s: &str, width: usize) -> (r: String)
    ensures
        r@ == column(s@, width as int),
{
    let used: usize = text::chars_of(s).len();
    let mut out = s.to_owned();
    let want: usize = if used < width {
        width - used
    } else {
        0
    };
    let mut i: usize = 0;
    assert(out@ =~= s@ + blanks(0));
    while i < want
        invariant
            i <= want,
            out@ == s@ + blanks(i as int),
        decreases want - i,
    {
        out.push(' ');
        assert(out@ =~= s@ + blanks(i + 1));
        i = i + 1;
    }
    out
}

/// One row of the listing.
pub open spec fn row(
    alias: Seq<char>,
    os: Seq<char>,
    name: Seq<char>,
    status: Seq<char>,
    ip: Seq<char>,
    checkout: Seq<char>,
) -> Seq<char> {
    column(alias, 7) + " "@ + column(os, 8) + " "@ + column(name, 14) + " "@ + column(status, 10)
        + " "@ + column(ip, 15) + " "@ + checkout
}

fn make_row(alias: &str, os: &str, name: &str, status: &str, ip: &str, checkout: &str) -> (r:
    String)
    ensures
        r@ == row(alias@, os@, name@, status@, ip@, checkout@),
{
    let mut out = pad_column(alias, 7);
    out.append(" ");
    out.append(pad_column(os, 8).as_str());
    out.append(" ");
    out.append(pad_column(name, 14).as_str());
    out.append(" ");
    out.append(pad_column(status, 10).as_str());
    out.append(" ");
    out.append(pad_column(ip, 15).as_str());
    out.append(" ");
    out.append(checkout);
    out
}

/// The first VM of that name, if there is one.
pub open spec fn registered(vms: Seq<PrlVm>, name: Seq<char>) -> Option<PrlVm>
    decreases vms.len(),
{
    if vms.len() == 0 {
        None
    } else if vms[0].name@ == name {
        Some(vms[0])
    } else {
        registered(vms.skip(1), name)
    }
}

proof fn registered_is_first(vms: Seq<PrlVm>, name: Seq<char>, i: int)
    requires
        prl::first_named(vms, name, i),
    ensures
        registered(vms, name) == Some(vms[i]),
    decreases i,
{
    if i > 0 {
        assert(vms[0].name@ != name);
        assert forall|j: int| 0 <= j < i - 1 implies (#[trigger] vms.skip(1)[j]).name@ != name by {
            assert(vms.skip(1)[j] == vms[j + 1]);
        }
        registered_is_first(vms.skip(1), name, i - 1);
    }
}

proof fn nothing_registered(vms: Seq<PrlVm>, name: Seq<char>)
    requires
        forall|j: int| 0 <= j < vms.len() ==> (#[trigger] vms[j]).name@ != name,
    ensures
        registered(vms, name) is None,
    decreases vms.len(),
{
    if vms.len() > 0 {
        assert(vms[0].name@ != name);
        assert forall|j: int| 0 <= j < vms.skip(1).len() implies (#[trigger] vms.skip(1)[j]).name@
            != name by {
            assert(vms.skip(1)[j] == vms[j + 1]);
        }
        nothing_registered(vms.skip(1), name);
    }
}

/// The VM of that name, if Parallels has it.
pub fn lookup<'a>(vms: &'a [PrlVm], name: &str) -> (r: Option<&'a PrlVm>)
    ensures
        match r {
            Some(vm) => registered(vms@, name@) == Some(*vm),
            None => registered(vms@, name@) is None,
        },
{
    match prl::position(vms, name) {
        Some(i) => {
            proof {
                registered_is_first(vms@, name@, i as int);
            }
            Some(&vms[i])
        },
        None => {
            proof {
                nothing_registered(vms@, name@);
            }
            None
        },
    }
}

/// The row of one configured VM.
pub open spec fn vm_row(
    alias: Seq<char>,
    vm: VmConfig,
    vms: Seq<PrlVm>,
    repo: Option<Seq<char>>,
) -> Seq<char> {
    let found = registered(vms, vm.parallels_name@);
    row(
        alias,
        vm.os.name(),
        vm.parallels_name@,
        match found {
            Some(p) => p.status@,
            None => "missing!"@,
        },
        match found {
            Some(p) => match prl::address_in(p.ip_configured@) {
                Some(ip) => ip,
                None => "-"@,
            },
            None => "-"@,
        },
        match repo {
            Some(name) => mapping::checkout(vm.work_root@, name),
            None => "- (not in a git repo)"@,
        },
    )
}

/// The listing of the configured VMs, in the order of their aliases: status,
/// address, and where the checkout of the current repo is.
pub fn ls(cfg: &Config, vms: &[PrlVm], repo: Option<&str>) -> (r: Vec<String>)
    ensures
        r@.len() == cfg.vm.items().len() + 1,
        r@[0]@ == row("ALIAS"@, "OS"@, "VM"@, "STATUS"@, "IP"@, "CHECKOUT (this repo)"@),
        forall|i: int|
            0 <= i < cfg.vm.items().len() ==> (#[trigger] r@[i + 1])@ == vm_row(
                cfg.vm.items()[i].0,
                cfg.vm.items()[i].1,
                vms@,
                text::opt(repo),
            ),
{
    let mut out: Vec<String> = Vec::new();
    out.push(make_row("ALIAS", "OS", "VM", "STATUS", "IP", "CHECKOUT (this repo)"));
    let n: usize = cfg.vm.len();
    let mut i: usize = 0;
    while i < n
        invariant
            i <= n,
            n == cfg.vm.items().len(),
            out@.len() == i + 1,
            out@[0]@ == row("ALIAS"@, "OS"@, "VM"@, "STATUS"@, "IP"@, "CHECKOUT (this repo)"@),
            forall|j: int|
                0 <= j < i ==> (#[trigger] out@[j + 1])@ == vm_row(
                    cfg.vm.items()[j].0,
                    cfg.vm.items()[j].1,
                    vms@,
                    text::opt(repo),
                ),
        decreases n - i,
    {
        let alias: &str = cfg.vm.key(i);
        let vm: &VmConfig = cfg.vm.value(i);
        let found: Option<&PrlVm> = lookup(vms, vm.parallels_name.as_str());
        let status: &str = match found {
            Some(p) => p.status.as_str(),
            None => "missing!",
        };
        let ip: String = match found {
            Some(p) => match p.ip() {
                Some(ip) => ip,
                None => "-".to_owned(),
            },
            None => "-".to_owned(),
        };
        let checkout: String = match repo {
            Some(name) => mapping::guest_repo_path(vm.work_root.as_str(), name),
            None => "- (not in a git repo)".to_owned(),
        };
        let line = make_row(
            alias,
            vm.os.as_str(),
            vm.parallels_name.as_str(),
            status,
            ip.as_str(),
            checkout.as_str(),
        );
        let ghost before = out@;
        out.push(line);
        assert forall|j: int| 0 <= j < i + 1 implies (#[trigger] out@[j + 1])@ == vm_row(
            cfg.vm.items()[j].0,
            cfg.vm.items()[j].1,
            vms@,
            text::opt(repo),
        ) by {
            if j < i {
                assert(out@[j + 1] == before[j + 1]);
            }
        }
        i = i + 1;
    }
    out
}

// ── The agent in the guest ───────────────────────────────────────────────────

/// Where the agent stands in the guest. The remote shell expands the tilde.
pub open spec fn agent_at(vm: VmConfig) -> Seq<char> {
    match vm.agent_path {
        Some(path) => path@,
        None => match vm.os {
            GuestOs::Windows => "~/.vm/bin/vm.exe"@,
            GuestOs::Linux => "~/.vm/bin/vm"@,
            GuestOs::Macos => "~/.vm/bin/vm"@,
        },
    }
}

/// Where the agent stands in the guest, for a POSIX shell.
pub fn agent_path(vm: &VmConfig) -> (r: String)
    ensures
        r@ == agent_at(*vm),
{
    match &vm.agent_path {
        Some(path) => path.as_str().to_owned(),
        None => match vm.os {
            GuestOs::Windows => "~/.vm/bin/vm.exe".to_owned(),
            GuestOs::Linux => "~/.vm/bin/vm".to_owned(),
            GuestOs::Macos => "~/.vm/bin/vm".to_owned(),
        },
    }
}

/// Where the agent stands in the guest, for the Windows command interpreter: it
/// expands `%USERPROFILE%` and not the tilde, and wants backslashes.
pub open spec fn agent_on_console(vm: VmConfig) -> Seq<char> {
    let path = agent_at(vm);
    if text::starts_with(path, "~/"@) {
        "%USERPROFILE%\\"@ + text::replaced(path.skip(2), '/', '\\')
    } else {
        text::replaced(path, '/', '\\')
    }
}

/// Where the agent stands in the guest, for the console session.
pub fn agent_console_path(vm: &VmConfig) -> (r: String)
    ensures
        r@ == agent_on_console(*vm),
{
    let path: String = agent_path(vm);
    proof {
        reveal_strlit("~/");
    }
    match text::strip_prefix(path.as_str(), "~/") {
        Some(rest) => {
            let mut out = "%USERPROFILE%\\".to_owned();
            out.append(text::replace_char(rest.as_str(), '/', '\\').as_str());
            out
        },
        None => text::replace_char(path.as_str(), '/', '\\'),
    }
}

/// The home of the guest user, spelled out.
pub open spec fn home_in_guest(vm: VmConfig) -> Seq<char> {
    match vm.os {
        GuestOs::Windows => "C:\\Users\\"@ + vm.user@,
        GuestOs::Linux => "/home/"@ + vm.user@,
        GuestOs::Macos => "/Users/"@ + vm.user@,
    }
}

/// The home of the guest user. The superuser's own home is another one, so a
/// tilde would not do.
pub fn guest_home(vm: &VmConfig) -> (r: String)
    ensures
        r@ == home_in_guest(*vm),
{
    let mut out = match vm.os {
        GuestOs::Windows => "C:\\Users\\".to_owned(),
        GuestOs::Linux => "/home/".to_owned(),
        GuestOs::Macos => "/Users/".to_owned(),
    };
    out.append(vm.user.as_str());
    out
}

/// Where the agent stands in the guest, for a transport that expands nothing.
pub open spec fn agent_absolute(vm: VmConfig) -> Seq<char> {
    let path = agent_at(vm);
    if text::starts_with(path, "~/"@) {
        match vm.os {
            GuestOs::Windows => home_in_guest(vm) + "\\"@ + text::replaced(path.skip(2), '/', '\\'),
            _ => home_in_guest(vm) + "/"@ + path.skip(2),
        }
    } else {
        path
    }
}

/// Where the agent stands in the guest, as an absolute path.
pub fn agent_abs_path(vm: &VmConfig) -> (r: String)
    ensures
        r@ == agent_absolute(*vm),
{
    let path: String = agent_path(vm);
    proof {
        reveal_strlit("~/");
    }
    match text::strip_prefix(path.as_str(), "~/") {
        Some(rest) => {
            let mut out: String = guest_home(vm);
            match vm.os {
                GuestOs::Windows => {
                    out.append("\\");
                    out.append(text::replace_char(rest.as_str(), '/', '\\').as_str());
                },
                _ => {
                    out.append("/");
                    out.append(rest.as_str());
                },
            }
            out
        },
        None => path,
    }
}

/// The remote command that invokes an agent verb: the agent bare, so that the
/// shell expands its tilde, and each argument quoted.
pub open spec fn agent_remote(vm: VmConfig, args: Seq<Seq<char>>) -> Seq<Seq<char>> {
    seq![agent_at(vm)] + args.map_values(|a: Seq<char>| ssh::quoted(a))
}

/// The remote command that invokes an agent verb.
pub fn agent_command(vm: &VmConfig, args: &[&str]) -> (r: Vec<String>)
    ensures
        text::views(r@) == agent_remote(*vm, text::str_views(args@)),
{
    let mut out: Vec<String> = Vec::new();
    out.push(agent_path(vm));
    let ghost all = text::str_views(args@);
    let ghost f = |a: Seq<char>| ssh::quoted(a);
    let ghost head = seq![agent_at(*vm)];
    let mut i: usize = 0;
    assert(text::views(out@) =~= head + all.take(0).map_values(f));
    while i < args.len()
        invariant
            i <= args@.len(),
            all == text::str_views(args@),
            f == (|a: Seq<char>| ssh::quoted(a)),
            text::views(out@) == head + all.take(i as int).map_values(f),
        decreases args@.len() - i,
    {
        let ghost before = out@;
        let q = ssh::shell_quote(args[i]);
        out.push(q);
        assert(text::views(out@) =~= text::views(before).push(q@));
        assert(all.take(i + 1).map_values(f) =~= all.take(i as int).map_values(f).push(
            f(all[i as int]),
        ));
        i = i + 1;
    }
    assert(all.take(i as int) =~= all);
    out
}

/// Whether a complaint means that the agent is not in the guest.
pub open spec fn agent_missing(stderr: Seq<char>) -> bool {
    text::contains(stderr, "No such file"@) || text::contains(stderr, "not recognized"@)
        || text::contains(stderr, "not found"@)
}

/// The reply of an agent verb, or what went wrong: a missing agent is told from
/// one that failed.
pub fn agent_call(verb: Option<&str>, out: Output) -> (r: Result<String, Failure>)
    ensures
        match r {
            Ok(reply) => out.success && vstd::utf8::valid_utf8(out.stdout@) && reply@
                == text::trim_end(vstd::utf8::decode_utf8(out.stdout@)),
            Err(e) => {
                let stderr = process::lossy_text(out.stderr@);
                &&& e is Infra
                &&& if out.success {
                    !vstd::utf8::valid_utf8(out.stdout@) && e.says() == process::utf8_complaint(
                        out.stdout@,
                    )
                } else if agent_missing(stderr) {
                    e.says() == "vm agent not installed in guest (run `vm deploy` first)"@
                } else {
                    e.says() == "guest agent "@ + (match verb {
                        Some(v) => v@,
                        None => Seq::empty(),
                    }) + " failed: "@ + text::trim(stderr)
                }
            },
        },
{
    if !out.success {
        let stderr: String = process::lossy(&out.stderr);
        let s: &str = stderr.as_str();
        if text::has(s, "No such file") || text::has(s, "not recognized") || text::has(
            s,
            "not found",
        ) {
            return Err(infra("vm agent not installed in guest (run `vm deploy` first)".to_owned()));
        }
        let mut msg = "guest agent ".to_owned();
        if let Some(v) = verb {
            msg.append(v);
        }
        msg.append(" failed: ");
        msg.append(text::trimmed(s).as_str());
        assert(msg@ =~= "guest agent "@ + (match verb {
            Some(v) => v@,
            None => Seq::empty(),
        }) + " failed: "@ + text::trim(s@));
        return Err(infra(msg));
    }
    match process::utf8(out.stdout) {
        Ok(s) => Ok(text::trimmed_end(s.as_str())),
        Err(e) => Err(infra(e)),
    }
}

// ── Sync ─────────────────────────────────────────────────────────────────────

/// The agent verb that makes a checkout's repository.
pub fn init_verb(guest_repo: &str) -> (r: Vec<String>)
    ensures
        text::views(r@) == seq!["_sync-init"@, "--repo"@, guest_repo@],
{
    let args = owned(&["_sync-init", "--repo", guest_repo]);
    assert(text::views(args@) =~= seq!["_sync-init"@, "--repo"@, guest_repo@]);
    args
}

/// The agent verb that makes a checkout match a commit.
pub fn apply_verb(guest_repo: &str, commit: &str) -> (r: Vec<String>)
    ensures
        text::views(r@) == seq!["_sync-apply"@, "--repo"@, guest_repo@, "--sha"@, commit@],
{
    let args = owned(&["_sync-apply", "--repo", guest_repo, "--sha", commit]);
    assert(text::views(args@) =~= seq!["_sync-apply"@, "--repo"@, guest_repo@, "--sha"@, commit@]);
    args
}

/// The agent verb that publishes what a checkout holds.
pub fn tree_verb(guest_repo: &str) -> (r: Vec<String>)
    ensures
        text::views(r@) == seq!["_tree"@, "--repo"@, guest_repo@],
{
    let args = owned(&["_tree", "--repo", guest_repo]);
    assert(text::views(args@) =~= seq!["_tree"@, "--repo"@, guest_repo@]);
    args
}

/// A path given in a directory of the repo, from the root of the repo.
pub open spec fn from_root(rel: Seq<char>, path: Seq<char>) -> Seq<char> {
    if rel.len() == 0 {
        path
    } else {
        rel + "/"@ + path
    }
}

fn path_from_root(rel: &str, path: &str) -> (r: String)
    ensures
        r@ == from_root(rel@, path@),
{
    if rel.is_empty() {
        return path.to_owned();
    }
    let mut out = rel.to_owned();
    out.append("/");
    out.append(path);
    out
}

/// The files to force into a sync, from the root of the repo, or the first one
/// that is not there. `rel` is where the caller stands, and `is_file` answers for
/// paths from the root.
pub fn resolve_with_files<F: Fn(&str) -> bool>(files: &[String], rel: &str, is_file: F) -> (r:
    Result<Vec<String>, Failure>)
    requires
        forall|p: &str| call_requires(is_file, (p,)),
    ensures
        match r {
            Ok(found) => text::views(found@) == text::views(files@).map_values(
                |f: Seq<char>| from_root(rel@, f),
            ) && forall|i: int|
                0 <= i < found@.len() ==> advise::file(is_file, (#[trigger] found@[i])@),
            Err(e) => e is Usage && exists|i: int|
                {
                    &&& 0 <= i < files@.len()
                    &&& advise::no_file(is_file, from_root(rel@, (#[trigger] files@[i])@))
                    &&& forall|j: int|
                        0 <= j < i ==> advise::file(
                            is_file,
                            from_root(rel@, (#[trigger] files@[j])@),
                        )
                    &&& e.says() == "--with-file "@ + files@[i]@ + ": no such file"@
                },
        },
{
    let mut out: Vec<String> = Vec::new();
    let ghost all = text::views(files@);
    let ghost f = |f: Seq<char>| from_root(rel@, f);
    let mut i: usize = 0;
    assert(text::views(out@) =~= all.take(0).map_values(f));
    while i < files.len()
        invariant
            i <= files@.len(),
            all == text::views(files@),
            f == (|f: Seq<char>| from_root(rel@, f)),
            forall|p: &str| call_requires(is_file, (p,)),
            text::views(out@) == all.take(i as int).map_values(f),
            forall|j: int| 0 <= j < out@.len() ==> advise::file(is_file, (#[trigger] out@[j])@),
            forall|j: int|
                0 <= j < i ==> advise::file(is_file, from_root(rel@, (#[trigger] files@[j])@)),
        decreases files@.len() - i,
    {
        let path: String = path_from_root(rel, files[i].as_str());
        let there: bool = is_file(path.as_str());
        if !there {
            assert(advise::no_file(is_file, from_root(rel@, files@[i as int]@)));
            let mut msg = "--with-file ".to_owned();
            msg.append(files[i].as_str());
            msg.append(": no such file");
            return Err(usage(msg));
        }
        assert(advise::file(is_file, path@));
        let ghost before = out@;
        out.push(path);
        assert(text::views(out@) =~= text::views(before).push(path@));
        assert(all.take(i + 1).map_values(f) =~= all.take(i as int).map_values(f).push(
            f(all[i as int]),
        ));
        i = i + 1;
    }
    assert(all.take(i as int) =~= all);
    Ok(out)
}

/// What a sync that did not arrive is refused with.
pub open spec fn sync_differs(host_tree: Seq<char>, guest_tree: Seq<char>) -> Seq<char> {
    "sync verification failed: host tree "@ + host_tree + " but guest reports "@ + guest_tree
}

/// Whether a sync arrived: the guest reports the tree that was sent.
pub fn sync_repo(snap: &Snapshot, guest_tree: &str) -> (r: Result<(), Failure>)
    ensures
        match r {
            Ok(_) => guest_tree@ == snap.tree@,
            Err(e) => guest_tree@ != snap.tree@ && e is Infra && e.says() == sync_differs(
                snap.tree@,
                guest_tree@,
            ),
        },
{
    if text::same(guest_tree, snap.tree.as_str()) {
        return Ok(());
    }
    let mut msg = "sync verification failed: host tree ".to_owned();
    msg.append(snap.tree.as_str());
    msg.append(" but guest reports ");
    msg.append(guest_tree);
    Err(infra(msg))
}

/// The line that a sync ends with. A tree is named by its first ten characters.
pub fn synced_line(alias: &str, repo_name: &str, tree: &str, took: &str) -> (r: String)
    requires
        tree@.len() >= 10,
    ensures
        r@ == "vm ▸ "@ + alias@ + " ▸ synced "@ + repo_name@ + " ▸ tree "@ + tree@.take(10)
            + " ▸ "@ + took@ + "s"@,
{
    let v: Vec<char> = text::chars_of(tree);
    let short = text::slice(&v, 0, 10);
    assert(short@ =~= tree@.take(10));
    let mut line = "vm ▸ ".to_owned();
    line.append(alias);
    line.append(" ▸ synced ");
    line.append(repo_name);
    line.append(" ▸ tree ");
    line.append(short.as_str());
    line.append(" ▸ ");
    line.append(took);
    line.append("s");
    line
}

/// The remote command of the first-sync hook.
pub open spec fn hook_remote(vm: VmConfig, repo: RepoLocation, hook: Seq<char>) -> Seq<Seq<char>> {
    seq![
        agent_at(vm),
        "_first-sync"@,
        "--repo"@,
        ssh::quoted(mapping::checkout(vm.work_root@, repo.name@)),
        "--cmd"@,
        ssh::quoted(hook),
    ]
}

/// The remote command that sets a fresh checkout up, where the guest environment
/// has anything to set up.
pub fn first_sync_hook(vm: &VmConfig, repo: &RepoLocation, genv: &ActiveEnv) -> (r: Option<
    Vec<String>,
>)
    ensures
        match genv.env {
            crate::guest_env::GuestEnv::Mise => r matches Some(remote) && text::views(remote@)
                == hook_remote(*vm, *repo, "mise trust"@),
            crate::guest_env::GuestEnv::Off => r is None,
        },
{
    match genv.first_sync_cmd() {
        Some(hook) => {
            let guest_repo: String = mapping::guest_repo_path(
                vm.work_root.as_str(),
                repo.name.as_str(),
            );
            let mut remote: Vec<String> = Vec::new();
            remote.push(agent_path(vm));
            remote.push("_first-sync".to_owned());
            remote.push("--repo".to_owned());
            remote.push(ssh::shell_quote(guest_repo.as_str()));
            remote.push("--cmd".to_owned());
            remote.push(ssh::shell_quote(hook));
            assert(text::views(remote@) =~= hook_remote(*vm, *repo, hook@));
            Some(remote)
        },
        None => None,
    }
}

/// What a failed hook is reported as.
pub open spec fn hook_failed(code: int, hook: Seq<char>, guest_repo: Seq<char>) -> Seq<char> {
    "first-sync hook failed (exit "@ + text::signed_decimal(code) + "): "@ + hook
        + "\n  it ran in the guest checkout "@ + guest_repo
        + "; re-run with --guest-env none to skip it"@
}

/// What the hook's exit comes to: the caller's command must not run in a
/// checkout that could not be set up.
pub fn hook_outcome(success: bool, code: Option<i32>, hook: &str, guest_repo: &str) -> (r: Result<
    (),
    Failure,
>)
    ensures
        match r {
            Ok(_) => success,
            Err(e) => !success && e is Infra && e.says() == hook_failed(
                match code {
                    Some(c) => c as int,
                    None => -1,
                },
                hook@,
                guest_repo@,
            ),
        },
{
    if success {
        return Ok(());
    }
    let shown: i128 = match code {
        Some(c) => c as i128,
        None => -1,
    };
    let mut msg = "first-sync hook failed (exit ".to_owned();
    msg.append(text::to_signed_decimal(shown).as_str());
    msg.append("): ");
    msg.append(hook);
    msg.append("\n  it ran in the guest checkout ");
    msg.append(guest_repo);
    msg.append("; re-run with --guest-env none to skip it");
    Err(infra(msg))
}

/// What `vm sync` comes to: the sync, then the hook; the first failure stands.
pub fn sync_cmd(synced: Result<(), Failure>, hooked: Result<(), Failure>) -> (r: Result<
    i32,
    Failure,
>)
    ensures
        match synced {
            Err(e) => r == Err::<i32, Failure>(e),
            Ok(_) => match hooked {
                Err(e) => r == Err::<i32, Failure>(e),
                Ok(_) => r == Ok::<i32, Failure>(0),
            },
        },
{
    match synced {
        Err(e) => Err(e),
        Ok(_) => match hooked {
            Err(e) => Err(e),
            Ok(_) => Ok(0),
        },
    }
}

// ── Claims on a VM ───────────────────────────────────────────────────────────

/// What a VM in use is refused with.
pub open spec fn in_use(alias: Seq<char>, advice: Seq<char>) -> Seq<char> {
    "'"@ + alias + "' is in use by another vm process — "@ + advice
}

fn refuse_in_use(alias: &str, advice: &str) -> (r: Failure)
    ensures
        r is Infra,
        r.says() == in_use(alias@, advice@),
{
    let mut msg = "'".to_owned();
    msg.append(alias);
    msg.append("' is in use by another vm process — ");
    msg.append(advice);
    infra(msg)
}

/// Whether a VM may be stopped: it was claimed, or the claim is waived.
pub fn stop(alias: &str, force: bool, claimed: bool) -> (r: Result<(), Failure>)
    ensures
        match r {
            Ok(_) => force || claimed,
            Err(e) => !force && !claimed && e is Infra && e.says() == in_use(
                alias@,
                "retry when idle, or `vm stop "@ + alias@ + " --force`"@,
            ),
        },
{
    if force || claimed {
        return Ok(());
    }
    let mut advice = "retry when idle, or `vm stop ".to_owned();
    advice.append(alias);
    advice.append(" --force`");
    Err(refuse_in_use(alias, advice.as_str()))
}

/// Whether the checkout may be removed: no other process may be running in it.
pub fn clean(alias: &str, claimed: bool) -> (r: Result<(), Failure>)
    ensures
        match r {
            Ok(_) => claimed,
            Err(e) => !claimed && e is Infra && e.says() == in_use(
                alias@,
                "clean would delete the checkout it runs in; retry when idle"@,
            ),
        },
{
    if claimed {
        Ok(())
    } else {
        Err(refuse_in_use(alias, "clean would delete the checkout it runs in; retry when idle"))
    }
}

/// The remote command that removes a checkout.
pub fn clean_command(vm: &VmConfig, repo_name: &str) -> (r: Vec<String>)
    ensures
        text::views(r@) == seq![
            "rm"@,
            "-rf"@,
            ssh::quoted(mapping::checkout(vm.work_root@, repo_name@)),
        ],
{
    let guest_repo: String = mapping::guest_repo_path(vm.work_root.as_str(), repo_name);
    let mut out: Vec<String> = Vec::new();
    out.push("rm".to_owned());
    out.push("-rf".to_owned());
    out.push(ssh::shell_quote(guest_repo.as_str()));
    assert(text::views(out@) =~= seq![
        "rm"@,
        "-rf"@,
        ssh::quoted(mapping::checkout(vm.work_root@, repo_name@)),
    ]);
    out
}

/// What removing a checkout came to: the line that says so, or the failure.
pub fn cleaned(alias: &str, guest_repo: &str, out: &Output) -> (r: Result<String, Failure>)
    ensures
        match r {
            Ok(line) => out.success && line@ == "vm ▸ "@ + alias@ + " ▸ removed "@ + guest_repo@,
            Err(e) => !out.success && e is Infra && e.says() == "removing "@ + guest_repo@
                + " failed: "@ + text::trim(process::lossy_text(out.stderr@)),
        },
{
    if out.success {
        let mut line = "vm ▸ ".to_owned();
        line.append(alias);
        line.append(" ▸ removed ");
        line.append(guest_repo);
        return Ok(line);
    }
    let mut msg = "removing ".to_owned();
    msg.append(guest_repo);
    msg.append(" failed: ");
    msg.append(text::trimmed(process::lossy(&out.stderr).as_str()).as_str());
    Err(infra(msg))
}

// ── Waiting for the guest's services ─────────────────────────────────────────

/// What to do after one try at reaching a guest that has its address.
#[derive(Debug)]
pub enum Reaching {
    /// It answers, and this says so where it had to be waited for.
    Ready(Option<String>),
    /// It has not answered in time; the caller is told, and goes on.
    GiveUp(String),
    /// Try again after two ticks.
    Again,
}

/// How long a guest gets to answer once it has its address: sixty ticks.
pub open spec fn ssh_timeout(tick: int) -> int {
    tick * 60
}

/// What one try at reaching a woken guest means. A guest that was running all
/// along is not an event, and nothing is said of it.
pub fn start(
    alias: &str,
    target: &SshTarget,
    woke: bool,
    reachable: bool,
    waited: u128,
    tick: u128,
    took: &str,
) -> (r: Reaching)
    requires
        tick <= 0xffff_ffff_ffff_ffff * 1_000_000,
    ensures
        if !woke {
            r matches Reaching::Ready(line) && line is None
        } else if reachable {
            r matches Reaching::Ready(Some(line)) && line@ == "vm ▸ "@ + alias@ + " ▸ ready at "@
                + target.host@ + " ▸ "@ + took@ + "s"@
        } else if waited >= ssh_timeout(tick as int) {
            r matches Reaching::GiveUp(line) && line@ == "vm ▸ "@ + alias@
                + " ▸ running, but ssh to "@ + target.at()
                + " not reachable after 60s (guest sshd not set up? see `vm doctor "@ + alias@
                + "`)"@
        } else {
            r is Again
        },
{
    if !woke {
        return Reaching::Ready(None);
    }
    if reachable {
        let mut line = "vm ▸ ".to_owned();
        line.append(alias);
        line.append(" ▸ ready at ");
        line.append(target.host.as_str());
        line.append(" ▸ ");
        line.append(took);
        line.append("s");
        return Reaching::Ready(Some(line));
    }
    if waited >= crate::clock::ticks(tick, 60) {
        let mut line = "vm ▸ ".to_owned();
        line.append(alias);
        line.append(" ▸ running, but ssh to ");
        line.append(target.destination().as_str());
        line.append(" not reachable after 60s (guest sshd not set up? see `vm doctor ");
        line.append(alias);
        line.append("`)");
        return Reaching::GiveUp(line);
    }
    Reaching::Again
}

/// Whether to try again after one try at a session through Parallels Tools, which
/// an elevated run rides: a guest that has just woken refuses one for a while. Any
/// other outcome is the run's own to report, and no wait outlasts the one for an
/// address.
pub fn bring_up_elevated(out: &Output, waited: u128, tick: u128) -> (r: bool)
    requires
        tick <= 0xffff_ffff_ffff_ffff * 1_000_000,
    ensures
        r == (!out.success && text::contains(
            process::lossy_text(out.stderr@),
            "Unable to open new session"@,
        ) && waited < tick * 90),
{
    !out.success && prl::is_session_not_ready(process::lossy(&out.stderr).as_str()) && waited
        < prl::ip_timeout(tick)
}

// ── Snapshots around a run ───────────────────────────────────────────────────

/// What the snapshots that a run takes are called before their alias.
pub const SNAPSHOT_PREFIX: &'static str = "vm-with-snapshot-";

/// The snapshot of a run that is over by definition: its owner held the VM to
/// itself, and so does whoever looks.
pub open spec fn is_stale_snapshot(name: Seq<char>) -> bool {
    text::starts_with(name, "vm-with-snapshot-"@)
}

/// What the snapshot of a run is called.
pub fn snapshot_name(alias: &str) -> (r: String)
    ensures
        r@ == "vm-with-snapshot-"@ + alias@,
        is_stale_snapshot(r@),
{
    let mut name = SNAPSHOT_PREFIX.to_owned();
    name.append(alias);
    assert(name@.take("vm-with-snapshot-"@.len() as int) =~= "vm-with-snapshot-"@);
    name
}

/// The ids of the stale ones among the snapshots of a VM, in order.
pub open spec fn stale_ids(snaps: Seq<(String, String)>) -> Seq<Seq<char>>
    decreases snaps.len(),
{
    if snaps.len() == 0 {
        Seq::empty()
    } else {
        let earlier = stale_ids(snaps.drop_last());
        if is_stale_snapshot(snaps.last().1@) {
            earlier.push(snaps.last().0@)
        } else {
            earlier
        }
    }
}

/// The names of the stale ones among the snapshots of a VM, in order.
pub open spec fn stale_names(snaps: Seq<(String, String)>) -> Seq<Seq<char>>
    decreases snaps.len(),
{
    if snaps.len() == 0 {
        Seq::empty()
    } else {
        let earlier = stale_names(snaps.drop_last());
        if is_stale_snapshot(snaps.last().1@) {
            earlier.push(snaps.last().1@)
        } else {
            earlier
        }
    }
}

/// The stale ones among the snapshots of a VM, as ids and names.
pub fn sweep_stale_snapshots(snaps: &[(String, String)]) -> (r: (Vec<String>, Vec<String>))
    ensures
        text::views(r.0@) == stale_ids(snaps@),
        text::views(r.1@) == stale_names(snaps@),
{
    let mut ids: Vec<String> = Vec::new();
    let mut names: Vec<String> = Vec::new();
    let mut i: usize = 0;
    assert(snaps@.take(0) =~= Seq::<(String, String)>::empty());
    assert(text::views(ids@) =~= Seq::<Seq<char>>::empty());
    assert(text::views(names@) =~= Seq::<Seq<char>>::empty());
    while i < snaps.len()
        invariant
            i <= snaps@.len(),
            text::views(ids@) == stale_ids(snaps@.take(i as int)),
            text::views(names@) == stale_names(snaps@.take(i as int)),
        decreases snaps@.len() - i,
    {
        let ghost ids_before = ids@;
        let ghost names_before = names@;
        assert(snaps@.take(i + 1).drop_last() =~= snaps@.take(i as int));
        if text::has_prefix(snaps[i].1.as_str(), SNAPSHOT_PREFIX) {
            ids.push(snaps[i].0.as_str().to_owned());
            names.push(snaps[i].1.as_str().to_owned());
            assert(text::views(ids@) =~= text::views(ids_before).push(snaps@[i as int].0@));
            assert(text::views(names@) =~= text::views(names_before).push(snaps@[i as int].1@));
        }
        i = i + 1;
    }
    assert(snaps@.take(i as int) =~= snaps@);
    (ids, names)
}

/// The warning for a stale snapshot that is about to be deleted.
pub fn stale_warning(alias: &str, snap: &str) -> (r: String)
    ensures
        r@ == "vm ▸ "@ + alias@ + " ▸ WARNING: deleting stale snapshot "@ + snap@
            + " — a previous with-snapshot run died before rolling back; its changes are still in the VM"@,
{
    let mut line = "vm ▸ ".to_owned();
    line.append(alias);
    line.append(" ▸ WARNING: deleting stale snapshot ");
    line.append(snap);
    line.append(
        " — a previous with-snapshot run died before rolling back; its changes are still in the VM",
    );
    line
}

/// How many bytes a snapshot wants free: twice the VM's memory.
pub open spec fn headroom_needed(memory_mb: int) -> int {
    memory_mb * 1024 * 1024 * 2
}

/// The tenths nearest to `n` parts of `whole`, a tie going to the even one.
pub open spec fn tenths(n: int, whole: int) -> int {
    let q = (n * 10) / whole;
    let rest = (n * 10) % whole;
    if 2 * rest > whole || (2 * rest == whole && q % 2 == 1) {
        q + 1
    } else {
        q
    }
}

/// A count of tenths with its decimal point.
pub open spec fn with_point(t: int) -> Seq<char> {
    text::decimal((t / 10) as nat) + "."@ + text::decimal((t % 10) as nat)
}

fn show_tenths(n: u64, whole: u64) -> (r: String)
    requires
        whole > 0,
    ensures
        r@ == with_point(tenths(n as int, whole as int)),
{
    let scaled: u128 = n as u128 * 10;
    let w: u128 = whole as u128;
    let q: u128 = scaled / w;
    let rest: u128 = scaled % w;
    assert(q <= scaled) by (nonlinear_arith)
        requires
            q == scaled / w,
            w > 0,
    ;
    let t: u128 = if 2 * rest > w || (2 * rest == w && q % 2 == 1) {
        q + 1
    } else {
        q
    };
    let mut out = text::to_decimal(t / 10);
    out.append(".");
    out.append(text::to_decimal(t % 10).as_str());
    out
}

/// The refusal of a snapshot that the disk has no room for.
pub open spec fn no_headroom(name: Seq<char>, details: VmDetails, free: int) -> Seq<char> {
    "not enough disk space to snapshot '"@ + name + "': "@ + with_point(
        tenths(free, 0x4000_0000),
    ) + " GiB free on the volume holding "@ + details.home@ + ", but a snapshot wants ~"@
        + with_point(tenths(headroom_needed(details.memory_mb as int), 0x4000_0000))
        + " GiB (2× the VM's "@ + with_point(tenths(details.memory_mb as int, 1024))
        + " GiB RAM)"@
}

/// Refuses a snapshot where the volume is short on space: a snapshot writes an
/// image of about the VM's memory, and then grows.
pub fn check_headroom(name: &str, details: &VmDetails, free: u64) -> (r: Result<(), Failure>)
    requires
        headroom_needed(details.memory_mb as int) <= u64::MAX,
    ensures
        match r {
            Ok(_) => free >= headroom_needed(details.memory_mb as int),
            Err(e) => free < headroom_needed(details.memory_mb as int) && e is Infra && e.says()
                == no_headroom(name@, *details, free as int),
        },
{
    let need: u64 = details.memory_mb * 1024 * 1024 * 2;
    if free >= need {
        return Ok(());
    }
    let mut msg = "not enough disk space to snapshot '".to_owned();
    msg.append(name);
    msg.append("': ");
    msg.append(show_tenths(free, 0x4000_0000).as_str());
    msg.append(" GiB free on the volume holding ");
    msg.append(details.home.as_str());
    msg.append(", but a snapshot wants ~");
    msg.append(show_tenths(need, 0x4000_0000).as_str());
    msg.append(" GiB (2× the VM's ");
    msg.append(show_tenths(details.memory_mb, 1024).as_str());
    msg.append(" GiB RAM)");
    Err(infra(msg))
}

/// Refuses a snapshot where the volume is known to be short on space. Where its
/// free space cannot be told, the snapshot proceeds.
pub fn ensure_snapshot_headroom(name: &str, details: &VmDetails, free: Option<u64>) -> (r: Result<
    (),
    Failure,
>)
    requires
        headroom_needed(details.memory_mb as int) <= u64::MAX,
    ensures
        match r {
            Ok(_) => free is None || free->0 >= headroom_needed(details.memory_mb as int),
            Err(e) => free is Some && free->0 < headroom_needed(details.memory_mb as int)
                && e is Infra && e.says() == no_headroom(name@, *details, free->0 as int),
        },
{
    match free {
        Some(n) => check_headroom(name, details, n),
        None => Ok(()),
    }
}

/// The steps of a run inside a snapshot.
#[derive(Debug, Clone, Copy, PartialEq, Eq, Structural)]
pub enum SnapshotStage {
    /// Take the VM exclusively.
    Claim,
    /// Start or resume it.
    Wake,
    /// Delete what killed runs left.
    Sweep,
    /// Look for room on the disk.
    Headroom,
    /// Wait for the guest's address.
    Address,
    /// Take the snapshot.
    Take,
    /// Run the command.
    Run,
    /// Roll the VM back to the snapshot.
    RollBack,
    /// Delete the snapshot.
    Delete,
    /// Report, and return what the run returned.
    Report,
    /// Nothing was run.
    Refused,
}

/// The step that follows one that went through, or did not. From the run on the
/// VM is rolled back, whatever the run came to.
pub open spec fn snapshot_next(stage: SnapshotStage, ok: bool) -> SnapshotStage {
    match stage {
        SnapshotStage::Run => SnapshotStage::RollBack,
        SnapshotStage::RollBack => if ok {
            SnapshotStage::Delete
        } else {
            SnapshotStage::Report
        },
        SnapshotStage::Delete => SnapshotStage::Report,
        SnapshotStage::Report => SnapshotStage::Report,
        SnapshotStage::Refused => SnapshotStage::Refused,
        _ => if !ok {
            SnapshotStage::Refused
        } else {
            match stage {
                SnapshotStage::Claim => SnapshotStage::Wake,
                SnapshotStage::Wake => SnapshotStage::Sweep,
                SnapshotStage::Sweep => SnapshotStage::Headroom,
                SnapshotStage::Headroom => SnapshotStage::Address,
                SnapshotStage::Address => SnapshotStage::Take,
                _ => SnapshotStage::Run,
            }
        },
    }
}

/// The step that follows one that went through, or did not.
pub fn with_snapshot(stage: SnapshotStage, ok: bool) -> (r: SnapshotStage)
    ensures
        r == snapshot_next(stage, ok),
{
    match stage {
        SnapshotStage::Run => SnapshotStage::RollBack,
        SnapshotStage::RollBack => if ok {
            SnapshotStage::Delete
        } else {
            SnapshotStage::Report
        },
        SnapshotStage::Delete => SnapshotStage::Report,
        SnapshotStage::Report => SnapshotStage::Report,
        SnapshotStage::Refused => SnapshotStage::Refused,
        _ => {
            if !ok {
                return SnapshotStage::Refused;
            }
            match stage {
                SnapshotStage::Claim => SnapshotStage::Wake,
                SnapshotStage::Wake => SnapshotStage::Sweep,
                SnapshotStage::Sweep => SnapshotStage::Headroom,
                SnapshotStage::Headroom => SnapshotStage::Address,
                SnapshotStage::Address => SnapshotStage::Take,
                _ => SnapshotStage::Run,
            }
        },
    }
}

/// The step that a run inside a snapshot is at after what each step came to.
pub open spec fn snapshot_stage_after(history: Seq<bool>) -> SnapshotStage
    decreases history.len(),
{
    if history.len() == 0 {
        SnapshotStage::Claim
    } else {
        snapshot_next(snapshot_stage_after(history.drop_last()), history.last())
    }
}

/// A run inside a snapshot is always followed by a rollback: right after the
/// run, whatever it came to, the VM is rolled back.
pub proof fn every_run_is_rolled_back(history: Seq<bool>, ok: bool)
    requires
        snapshot_stage_after(history) == SnapshotStage::Run,
    ensures
        snapshot_stage_after(history.push(ok)) == SnapshotStage::RollBack,
{
    assert(history.push(ok).drop_last() =~= history);
}

/// The command runs only where every step before it went through: the VM is held
/// exclusively and a snapshot of it was taken.
pub proof fn only_a_snapshotted_vm_is_used(history: Seq<bool>)
    requires
        snapshot_stage_after(history) == SnapshotStage::Run,
    ensures
        forall|i: int| 0 <= i < history.len() ==> history[i],
        history.len() == 6,
{
    reveal_with_fuel(snapshot_stage_after, 8);
    let h5 = history.drop_last();
    let h4 = h5.drop_last();
    let h3 = h4.drop_last();
    let h2 = h3.drop_last();
    let h1 = h2.drop_last();
    let h0 = h1.drop_last();
    assert(snapshot_stage_after(h5) == SnapshotStage::Take);
    assert(snapshot_stage_after(h4) == SnapshotStage::Address);
    assert(snapshot_stage_after(h3) == SnapshotStage::Headroom);
    assert(snapshot_stage_after(h2) == SnapshotStage::Sweep);
    assert(snapshot_stage_after(h1) == SnapshotStage::Wake);
    assert(snapshot_stage_after(h0) == SnapshotStage::Claim);
    if h0.len() > 0 {
        assert(snapshot_stage_after(h0) != SnapshotStage::Claim);
    }
    assert forall|i: int| 0 <= i < history.len() implies history[i] by {
        if i == 5 {
            assert(history.last() == history[5]);
        } else if i == 4 {
            assert(h5.last() == history[4]);
        } else if i == 3 {
            assert(h4.last() == history[3]);
        } else if i == 2 {
            assert(h3.last() == history[2]);
        } else if i == 1 {
            assert(h2.last() == history[1]);
        } else {
            assert(h1.last() == history[0]);
        }
    }
}

/// What a VM that could not be claimed for a snapshot is refused with.
pub fn snapshot_refused(alias: &str) -> (r: Failure)
    ensures
        r is Infra,
        r.says() == in_use(
            alias@,
            "with-snapshot needs the VM to itself (rollback would destroy the other run)"@,
        ),
{
    refuse_in_use(
        alias,
        "with-snapshot needs the VM to itself (rollback would destroy the other run)",
    )
}

/// The line for a snapshot that was taken.
pub fn snapshot_taken(alias: &str, id: &str) -> (r: String)
    ensures
        r@ == "vm ▸ "@ + alias@ + " ▸ snapshot "@ + id@ + " taken"@,
{
    let mut line = "vm ▸ ".to_owned();
    line.append(alias);
    line.append(" ▸ snapshot ");
    line.append(id);
    line.append(" taken");
    line
}

/// The line that a rollback ends with: that it worked, or a warning that says how
/// to do it by hand.
pub fn rolled_back(alias: &str, name: &str, id: &str, error: Option<&str>) -> (r: String)
    ensures
        r@ == "vm ▸ "@ + alias@ + (match error {
            None => " ▸ rolled back to pre-run state"@,
            Some(e) => " ▸ WARNING: rollback failed ("@ + e@ + "); snapshot "@ + id@
                + " kept — restore manually with `prlctl snapshot-switch '"@ + name@ + "' --id '"@
                + id@ + "'`"@,
        }),
{
    let mut line = "vm ▸ ".to_owned();
    line.append(alias);
    let ghost head = line@;
    match error {
        None => {
            line.append(" ▸ rolled back to pre-run state");
        },
        Some(e) => {
            line.append(" ▸ WARNING: rollback failed (");
            line.append(e);
            line.append("); snapshot ");
            line.append(id);
            line.append(" kept — restore manually with `prlctl snapshot-switch '");
            line.append(name);
            line.append("' --id '");
            line.append(id);
            line.append("'`");
            assert(line@ =~= head + (" ▸ WARNING: rollback failed ("@ + e@ + "); snapshot "@ + id@
                + " kept — restore manually with `prlctl snapshot-switch '"@ + name@ + "' --id '"@
                + id@ + "'`"@));
        },
    }
    line
}

/// The file that a screenshot goes to: the one asked for, else one named after
/// the alias and the time.
pub fn shot(alias: &str, file: Option<&str>, secs: u64) -> (r: String)
    ensures
        r@ == (match file {
            Some(f) => f@,
            None => alias@ + "-"@ + text::decimal(secs as nat) + ".png"@,
        }),
{
    match file {
        Some(f) => f.to_owned(),
        None => {
            let mut out = alias.to_owned();
            out.append("-");
            out.append(text::to_decimal(secs as u128).as_str());
            out.append(".png");
            out
        },
    }
}

/// The line that a screenshot ends with.
pub fn shot_line(alias: &str, path: &str) -> (r: String)
    ensures
        r@ == "vm ▸ "@ + alias@ + " ▸ screenshot ▸ "@ + path@,
{
    let mut line = "vm ▸ ".to_owned();
    line.append(alias);
    line.append(" ▸ screenshot ▸ ");
    line.append(path);
    line
}

// ── What the commands come to ─────────────────────────────────────────

/// The VM that goes by a name is the first one that Parallels lists under it, and
/// there is none exactly where none is listed so.
pub proof fn the_first_of_a_name_is_meant(vms: Seq<PrlVm>, name: Seq<char>, i: int)
    ensures
        0 <= i < vms.len() && vms[i].name@ == name && (forall|j: int|
            0 <= j < i ==> (#[trigger] vms[j]).name@ != name) ==> registered(vms, name) == Some(
            vms[i],
        ),
        registered(vms, name) is None <==> forall|j: int|
            0 <= j < vms.len() ==> (#[trigger] vms[j]).name@ != name,
{
    if 0 <= i < vms.len() && vms[i].name@ == name && (forall|j: int|
        0 <= j < i ==> (#[trigger] vms[j]).name@ != name) {
        registered_is_first(vms, name, i);
    }
    a_registered_vm_is_listed(vms, name);
    if forall|j: int| 0 <= j < vms.len() ==> (#[trigger] vms[j]).name@ != name {
        nothing_registered(vms, name);
    }
}

proof fn a_registered_vm_is_listed(vms: Seq<PrlVm>, name: Seq<char>)
    ensures
        registered(vms, name) is None ==> forall|j: int|
            0 <= j < vms.len() ==> (#[trigger] vms[j]).name@ != name,
    decreases vms.len(),
{
    if vms.len() > 0 && vms[0].name@ != name && registered(vms, name) is None {
        a_registered_vm_is_listed(vms.skip(1), name);
        assert forall|j: int| 0 <= j < vms.len() implies (#[trigger] vms[j]).name@ != name by {
            if j > 0 {
                assert(vms.skip(1)[j - 1] == vms[j]);
            }
        }
    }
}

proof fn blanks_are_spaces(n: int)
    ensures
        blanks(n).len() == if n > 0 {
            n
        } else {
            0
        },
        forall|i: int| 0 <= i < blanks(n).len() ==> #[trigger] blanks(n)[i] == ' ',
    decreases n,
{
    if n > 0 {
        blanks_are_spaces(n - 1);
    }
}

/// A cell of the listing holds its text, filled up with spaces to the width of its
/// column; what is wider than its column is shown whole.
pub proof fn a_cell_is_filled_with_spaces(s: Seq<char>, width: int, i: int)
    ensures
        column(s, width).take(s.len() as int) == s,
        s.len() >= width ==> column(s, width) == s,
        s.len() < width ==> column(s, width).len() == width,
        s.len() <= i < width ==> column(s, width)[i] == ' ',
{
    blanks_are_spaces(width - s.len());
    assert(column(s, width).take(s.len() as int) =~= s);
    if s.len() >= width {
        assert(column(s, width) =~= s);
    }
}

proof fn still_contained(hay: Seq<char>, more: Seq<char>, needle: Seq<char>)
    requires
        text::contains(hay, needle),
    ensures
        text::contains(hay + more, needle),
{
    let i = choose|i: int| text::occurs_at(hay, needle, i);
    assert((hay + more).subrange(i, i + needle.len()) =~= hay.subrange(i, i + needle.len()));
    assert(text::occurs_at(hay + more, needle, i));
}

proof fn cell_shows_its_text(before: Seq<char>, s: Seq<char>, width: int)
    ensures
        text::contains(before + column(s, width), s),
{
    assert(before + column(s, width) =~= before + s + blanks(width - s.len()));
    text::what_is_contained_is_there(before, s, blanks(width - s.len()));
}

proof fn row_shows_its_cells(
    alias: Seq<char>,
    os: Seq<char>,
    name: Seq<char>,
    status: Seq<char>,
    ip: Seq<char>,
    end: Seq<char>,
)
    ensures
        text::contains(row(alias, os, name, status, ip, end), os),
        text::contains(row(alias, os, name, status, ip, end), name),
        text::contains(row(alias, os, name, status, ip, end), status),
        text::contains(row(alias, os, name, status, ip, end), ip),
        row(alias, os, name, status, ip, end).len() >= end.len(),
{
    let gap = " "@;
    let a = column(alias, 7) + gap;
    let b = a + column(os, 8);
    let c = b + gap + column(name, 14);
    let d = c + gap + column(status, 10);
    let e = d + gap + column(ip, 15);
    cell_shows_its_text(a, os, 8);
    cell_shows_its_text(b + gap, name, 14);
    cell_shows_its_text(c + gap, status, 10);
    cell_shows_its_text(d + gap, ip, 15);
    still_contained(b, gap, os);
    still_contained(b + gap, column(name, 14), os);
    still_contained(c, gap, os);
    still_contained(c, gap, name);
    still_contained(c + gap, column(status, 10), os);
    still_contained(c + gap, column(status, 10), name);
    still_contained(d, gap, os);
    still_contained(d, gap, name);
    still_contained(d, gap, status);
    still_contained(d + gap, column(ip, 15), os);
    still_contained(d + gap, column(ip, 15), name);
    still_contained(d + gap, column(ip, 15), status);
    still_contained(e, gap, os);
    still_contained(e, gap, name);
    still_contained(e, gap, status);
    still_contained(e, gap, ip);
    still_contained(e + gap, end, os);
    still_contained(e + gap, end, name);
    still_contained(e + gap, end, status);
    still_contained(e + gap, end, ip);
}

/// A VM is listed with its alias, its system and its name. Its status and its address
/// are those that Parallels reports; a VM that Parallels does not have is marked as
/// missing. At the end stands where this repo is checked out in it.
pub proof fn a_listed_vm_shows_what_is_known_of_it(
    alias: Seq<char>,
    vm: VmConfig,
    vms: Seq<PrlVm>,
    i: int,
    repo: Seq<char>,
)
    ensures
        ({
            let line = vm_row(alias, vm, vms, Some(repo));
            &&& alias.len() <= 7 ==> line.take(alias.len() as int) == alias && line[7] == ' '
            &&& text::contains(line, vm.os.name())
            &&& text::contains(line, vm.parallels_name@)
            &&& line.len() >= mapping::checkout(vm.work_root@, repo).len()
            &&& line.skip(line.len() - mapping::checkout(vm.work_root@, repo).len())
                == mapping::checkout(vm.work_root@, repo)
        }),
        0 <= i < vms.len() && vms[i].name@ == vm.parallels_name@ && (forall|j: int|
            0 <= j < i ==> (#[trigger] vms[j]).name@ != vm.parallels_name@) ==> text::contains(
            vm_row(alias, vm, vms, Some(repo)),
            vms[i].status@,
        ) && (prl::address_in(vms[i].ip_configured@) matches Some(ip) ==> text::contains(
            vm_row(alias, vm, vms, Some(repo)),
            ip,
        )),
        (forall|j: int| 0 <= j < vms.len() ==> (#[trigger] vms[j]).name@ != vm.parallels_name@)
            ==> text::contains(vm_row(alias, vm, vms, Some(repo)), "missing!"@),
{
    the_first_of_a_name_is_meant(vms, vm.parallels_name@, i);
    let found = registered(vms, vm.parallels_name@);
    let status = match found {
        Some(p) => p.status@,
        None => "missing!"@,
    };
    let ip = match found {
        Some(p) => match prl::address_in(p.ip_configured@) {
            Some(ip) => ip,
            None => "-"@,
        },
        None => "-"@,
    };
    let line = vm_row(alias, vm, vms, Some(repo));
    let end = mapping::checkout(vm.work_root@, repo);
    row_shows_its_cells(alias, vm.os.name(), vm.parallels_name@, status, ip, end);
    assert(line.skip(line.len() - end.len()) =~= end);
    if alias.len() <= 7 {
        reveal_strlit(" ");
        a_cell_is_filled_with_spaces(alias, 7, 0);
        assert(column(alias, 7).len() == 7);
        assert(line.take(alias.len() as int) =~= column(alias, 7).take(alias.len() as int));
        assert(line[7] == ' ');
    }
}

/// Where the agent stands in a guest. It is found by the path that is configured, and
/// else in `.vm/bin` of the user's home; the name ends in `.exe` on Windows alone.
pub proof fn the_agent_is_found_below_the_home(vm: VmConfig)
    ensures
        vm.agent_path matches Some(path) ==> agent_at(vm) == path@,
        vm.agent_path is None && vm.os == GuestOs::Windows ==> {
            &&& agent_at(vm) == "~/.vm/bin/vm.exe"@
            &&& agent_on_console(vm) == "%USERPROFILE%\\.vm\\bin\\vm.exe"@
            &&& agent_absolute(vm) == "C:\\Users\\"@ + vm.user@ + "\\.vm\\bin\\vm.exe"@
        },
        vm.agent_path is None && vm.os == GuestOs::Linux ==> agent_at(vm) == "~/.vm/bin/vm"@
            && agent_absolute(vm) == "/home/"@ + vm.user@ + "/.vm/bin/vm"@,
        vm.agent_path is None && vm.os == GuestOs::Macos ==> agent_at(vm) == "~/.vm/bin/vm"@
            && agent_absolute(vm) == "/Users/"@ + vm.user@ + "/.vm/bin/vm"@,
{
    reveal_strlit("~/.vm/bin/vm.exe");
    reveal_strlit("~/.vm/bin/vm");
    reveal_strlit("/.vm/bin/vm");
    reveal_strlit("~/");
    reveal_strlit("/");
    reveal_strlit("\\");
    reveal_strlit("%USERPROFILE%\\");
    reveal_strlit("%USERPROFILE%\\.vm\\bin\\vm.exe");
    reveal_strlit("\\.vm\\bin\\vm.exe");
    if vm.agent_path is None {
        let path = agent_at(vm);
        assert(path.take(2) =~= "~/"@);
        if vm.os == GuestOs::Windows {
            assert(agent_on_console(vm) =~= "%USERPROFILE%\\.vm\\bin\\vm.exe"@);
            assert(agent_absolute(vm) =~= "C:\\Users\\"@ + vm.user@ + "\\.vm\\bin\\vm.exe"@);
        } else {
            assert("/"@ + path.skip(2) =~= "/.vm/bin/vm"@);
            assert(agent_absolute(vm) =~= home_in_guest(vm) + "/.vm/bin/vm"@);
        }
    }
}

/// Wherever an agent is configured to be, its path on a Windows console holds no
/// slash, and its absolute path outside Windows keeps what follows the tilde. A path
/// that does not begin at the home is left as it is.
pub proof fn a_configured_agent_keeps_its_path(vm: VmConfig, path: String, rest: Seq<char>)
    requires
        vm.agent_path == Some(path),
    ensures
        !agent_on_console(vm).contains('/'),
        path@ == seq!['~', '/'] + rest && vm.os != GuestOs::Windows ==> agent_absolute(vm)
            == home_in_guest(vm) + seq!['/'] + rest,
        path@.len() > 0 && path@[0] != '~' ==> agent_absolute(vm) == path@,
{
    reveal_strlit("%USERPROFILE%\\");
    reveal_strlit("~/");
    reveal_strlit("/");
    assert("/"@ =~= seq!['/']);
    let at = agent_on_console(vm);
    assert forall|i: int| 0 <= i < at.len() implies at[i] != '/' by {
        if text::starts_with(path@, "~/"@) {
            let head = "%USERPROFILE%\\"@;
            if i < head.len() {
                assert(at[i] == head[i]);
            } else {
                assert(at[i] == text::replaced(path@.skip(2), '/', '\\')[i - head.len()]);
            }
        } else {
            assert(at[i] == text::replaced(path@, '/', '\\')[i]);
        }
    }
    if path@ == seq!['~', '/'] + rest {
        assert(path@.take(2) =~= "~/"@);
        assert(path@.skip(2) =~= rest);
    }
    if path@.len() > 0 && path@[0] != '~' && text::starts_with(path@, "~/"@) {
        assert(path@.take(2)[0] == '~');
    }
}

/// What is handed to the agent in a guest arrives there: behind the agent's path
/// stands a word for each argument, and a shell reads each as that argument.
pub proof fn the_agent_is_handed_its_arguments(vm: VmConfig, args: Seq<Seq<char>>, i: int)
    ensures
        agent_remote(vm, args).len() == args.len() + 1,
        agent_remote(vm, args)[0] == agent_at(vm),
        0 <= i < args.len() ==> ssh::shell_reads(agent_remote(vm, args)[i + 1], false) == Some(
            args[i],
        ),
{
    if 0 <= i < args.len() {
        ssh::quoting_reads_back(args[i]);
    }
}

/// The hook of a fresh checkout is handed to the agent whole, with the checkout that it
/// is for.
pub proof fn the_hook_runs_in_the_checkout(vm: VmConfig, repo: RepoLocation, hook: Seq<char>)
    ensures
        hook_remote(vm, repo, hook).len() == 6,
        hook_remote(vm, repo, hook)[0] == agent_at(vm),
        hook_remote(vm, repo, hook)[1] == "_first-sync"@,
        ssh::shell_reads(hook_remote(vm, repo, hook)[3], false) == Some(
            mapping::checkout(vm.work_root@, repo.name@),
        ),
        ssh::shell_reads(hook_remote(vm, repo, hook)[5], false) == Some(hook),
{
    ssh::quoting_reads_back(mapping::checkout(vm.work_root@, repo.name@));
    ssh::quoting_reads_back(hook);
}

/// A path is the same from the root whether it is given from a directory or from the
/// one above it.
pub proof fn paths_are_given_from_where_one_stands(
    above: Seq<char>,
    dir: Seq<char>,
    path: Seq<char>,
)
    requires
        dir.len() > 0,
    ensures
        from_root(Seq::empty(), path) == path,
        from_root(above, from_root(dir, path)) == from_root(from_root(above, dir), path),
        from_root(dir, path) == dir + seq!['/'] + path,
{
    reveal_strlit("/");
    assert("/"@ =~= seq!['/']);
    assert(from_root(above, from_root(dir, path)) =~= from_root(from_root(above, dir), path));
}

/// An agent is taken for missing where the shell's words for it turn up, wherever in the
/// output they stand.
pub proof fn a_missing_agent_is_told_by_the_shells_words(a: Seq<char>, b: Seq<char>)
    ensures
        agent_missing(a + "No such file"@ + b),
        agent_missing(a + "not recognized"@ + b),
        agent_missing(a + "not found"@ + b),
        !agent_missing(Seq::empty()),
{
    text::what_is_contained_is_there(a, "No such file"@, b);
    text::what_is_contained_is_there(a, "not recognized"@, b);
    text::what_is_contained_is_there(a, "not found"@, b);
    reveal_strlit("No such file");
    reveal_strlit("not recognized");
    reveal_strlit("not found");
}

/// A guest that was woken is given a minute of ticks to answer.
pub proof fn a_woken_guest_has_sixty_ticks(tick: int)
    ensures
        ssh_timeout(1_000_000_000) == 60_000_000_000,
        ssh_timeout(tick) - ssh_timeout(tick - 1) == 60,
        ssh_timeout(0) == 0,
{
}

/// Sweeping takes exactly the snapshots that an earlier run left behind: those whose
/// name begins as such a run names its own. It takes them by their ids, in the order
/// in which they are listed, and names each.
pub proof fn only_left_over_snapshots_are_swept(
    snaps: Seq<(String, String)>,
    id: String,
    name: String,
    rest: Seq<char>,
)
    ensures
        stale_ids(snaps).len() == stale_names(snaps).len(),
        name@ == "vm-with-snapshot-"@ + rest ==> stale_ids(snaps.push((id, name))) == stale_ids(
            snaps,
        ).push(id@) && stale_names(snaps.push((id, name))) == stale_names(snaps).push(name@),
        (name@.len() < 17 || name@.take(17) != "vm-with-snapshot-"@) ==> stale_ids(
            snaps.push((id, name)),
        ) == stale_ids(snaps) && stale_names(snaps.push((id, name))) == stale_names(snaps),
        stale_ids(Seq::empty()).len() == 0,
    decreases snaps.len(),
{
    reveal_strlit("vm-with-snapshot-");
    let more = snaps.push((id, name));
    assert(more.drop_last() =~= snaps);
    assert(more.last() == (id, name));
    if name@ == "vm-with-snapshot-"@ + rest {
        assert(name@.take(17) =~= "vm-with-snapshot-"@);
    }
    if snaps.len() > 0 {
        only_left_over_snapshots_are_swept(snaps.drop_last(), id, name, rest);
    }
}

/// A snapshot wants twice the VM's memory free, in bytes.
pub proof fn a_snapshot_wants_twice_the_memory(memory_mb: int)
    ensures
        headroom_needed(memory_mb) == 2 * (memory_mb * 1_048_576),
{
}

/// What is shown in tenths is the nearest tenth: it is off by no more than half of one,
/// and a half is shown as the even tenth.
pub proof fn the_nearest_tenth_is_shown(n: int, whole: int)
    requires
        n >= 0,
        whole > 0,
    ensures
        -whole <= 2 * (tenths(n, whole) * whole - n * 10) <= whole,
        2 * (tenths(n, whole) * whole - n * 10) == whole || 2 * (tenths(n, whole) * whole - n * 10)
            == -whole ==> tenths(n, whole) % 2 == 0,
{
    let q = (n * 10) / whole;
    let rest = (n * 10) % whole;
    vstd::arithmetic::div_mod::lemma_fundamental_div_mod(n * 10, whole);
    vstd::arithmetic::div_mod::lemma_mod_bound(n * 10, whole);
    assert(whole * q == q * whole) by (nonlinear_arith);
    assert((q + 1) * whole == q * whole + whole) by (nonlinear_arith);
}

/// Tenths are written with a point before the last digit.
pub proof fn tenths_are_written_with_a_point(units: nat, t: nat)
    requires
        t < 10,
    ensures
        with_point((units * 10 + t) as int) == text::decimal(units) + seq!['.'] + text::decimal(t),
{
    reveal_strlit(".");
    assert("."@ =~= seq!['.']);
    assert((units * 10 + t) / 10 == units);
    assert((units * 10 + t) % 10 == t);
}

/// The stages of a run inside a snapshot, in their order.
spec fn snapshot_course(n: int) -> SnapshotStage {
    if n == 0 {
        SnapshotStage::Claim
    } else if n == 1 {
        SnapshotStage::Wake
    } else if n == 2 {
        SnapshotStage::Sweep
    } else if n == 3 {
        SnapshotStage::Headroom
    } else if n == 4 {
        SnapshotStage::Address
    } else if n == 5 {
        SnapshotStage::Take
    } else if n == 6 {
        SnapshotStage::Run
    } else if n == 7 {
        SnapshotStage::RollBack
    } else if n == 8 {
        SnapshotStage::Delete
    } else {
        SnapshotStage::Report
    }
}

proof fn snapshots_keep_their_course(history: Seq<bool>)
    requires
        forall|i: int| 0 <= i < history.len() && i != 6 ==> #[trigger] history[i],
    ensures
        snapshot_stage_after(history) == snapshot_course(history.len() as int),
    decreases history.len(),
{
    if history.len() > 0 {
        let front = history.drop_last();
        assert forall|i: int| 0 <= i < front.len() && i != 6 implies #[trigger] front[i] by {
            assert(front[i] == history[i]);
        }
        snapshots_keep_their_course(front);
        assert(history.last() == history[history.len() - 1]);
    }
}

/// A run inside a snapshot takes its stages in this order: the VM is claimed, woken and
/// swept, its space and its address are looked up, the snapshot is taken, the command
/// runs, the VM is rolled back, and then the snapshot is deleted. How the command went
/// changes nothing of that.
pub proof fn a_snapshot_run_takes_its_course(history: Seq<bool>)
    requires
        forall|i: int| 0 <= i < history.len() && i != 6 ==> #[trigger] history[i],
    ensures
        history.len() == 0 ==> snapshot_stage_after(history) == SnapshotStage::Claim,
        history.len() == 1 ==> snapshot_stage_after(history) == SnapshotStage::Wake,
        history.len() == 2 ==> snapshot_stage_after(history) == SnapshotStage::Sweep,
        history.len() == 3 ==> snapshot_stage_after(history) == SnapshotStage::Headroom,
        history.len() == 4 ==> snapshot_stage_after(history) == SnapshotStage::Address,
        history.len() == 5 ==> snapshot_stage_after(history) == SnapshotStage::Take,
        history.len() == 6 ==> snapshot_stage_after(history) == SnapshotStage::Run,
        history.len() == 7 ==> snapshot_stage_after(history) == SnapshotStage::RollBack,
        history.len() == 8 ==> snapshot_stage_after(history) == SnapshotStage::Delete,
        history.len() > 8 ==> snapshot_stage_after(history) == SnapshotStage::Report,
{
    snapshots_keep_their_course(history);
}

proof fn refusal_is_final(history: Seq<bool>, n: int)
    requires
        0 <= n < 6,
        n < history.len(),
        !history[n],
        forall|i: int| 0 <= i < n ==> #[trigger] history[i],
    ensures
        snapshot_stage_after(history) == SnapshotStage::Refused,
    decreases history.len(),
{
    let front = history.drop_last();
    assert(history.last() == history[history.len() - 1]);
    if history.len() == n + 1 {
        assert forall|i: int| 0 <= i < front.len() && i != 6 implies #[trigger] front[i] by {
            assert(front[i] == history[i]);
        }
        snapshots_keep_their_course(front);
    } else {
        assert(front[n] == history[n]);
        assert forall|i: int| 0 <= i < n implies #[trigger] front[i] by {
            assert(front[i] == history[i]);
        }
        refusal_is_final(front, n);
    }
}

/// Where anything fails before the command, the run is refused and stays so: no command
/// runs and nothing is rolled back.
pub proof fn no_snapshot_no_run(history: Seq<bool>, n: int)
    requires
        0 <= n < 6,
        n < history.len(),
        !history[n],
        forall|i: int| 0 <= i < n ==> #[trigger] history[i],
    ensures
        snapshot_stage_after(history) == SnapshotStage::Refused,
{
    refusal_is_final(history, n);
}

/// A snapshot that could not be rolled back to is kept, whatever the command did.
pub proof fn a_snapshot_is_kept_where_its_rollback_failed(history: Seq<bool>)
    requires
        history.len() == 8,
        forall|i: int| 0 <= i < 6 ==> #[trigger] history[i],
        !history[7],
    ensures
        snapshot_stage_after(history) == SnapshotStage::Report,
{
    let front = history.drop_last();
    assert forall|i: int| 0 <= i < front.len() && i != 6 implies #[trigger] front[i] by {
        assert(front[i] == history[i]);
    }
    snapshots_keep_their_course(front);
    assert(history.last() == history[7]);
}

/// What is refused is named: a sync that did not arrive by both trees, a VM without an
/// address by its status, a hook by its code and its checkout, and a VM in use by its alias.
pub proof fn what_is_refused_is_named(a: Seq<char>, b: Seq<char>, code: int, vm: PrlVm)
    ensures
        text::contains(sync_differs(a, b), a),
        text::contains(sync_differs(a, b), b),
        text::contains(no_ip(vm), vm.name@),
        text::contains(no_ip(vm), vm.status@),
        text::contains(hook_failed(code, a, b), text::signed_decimal(code)),
        text::contains(hook_failed(code, a, b), a),
        text::contains(hook_failed(code, a, b), b),
        text::contains(in_use(a, b), a),
        text::contains(in_use(a, b), b),
{
    let none = Seq::<char>::empty();
    let (p, q) = ("sync verification failed: host tree "@, " but guest reports "@);
    assert(sync_differs(a, b) =~= p + a + (q + b));
    text::what_is_contained_is_there(p, a, q + b);
    assert(sync_differs(a, b) =~= (p + a + q) + b + none);
    text::what_is_contained_is_there(p + a + q, b, none);
    let (p, q, t) = ("VM '"@, "' has no IP (status: "@, "); `vm start` it first"@);
    assert(no_ip(vm) =~= p + vm.name@ + (q + vm.status@ + t));
    text::what_is_contained_is_there(p, vm.name@, q + vm.status@ + t);
    text::what_is_contained_is_there(p + vm.name@ + q, vm.status@, t);
    let n = text::signed_decimal(code);
    let head = "first-sync hook failed (exit "@;
    let middle = "\n  it ran in the guest checkout "@;
    let end = "; re-run with --guest-env none to skip it"@;
    assert(hook_failed(code, a, b) =~= head + n + ("): "@ + a + middle + b + end));
    text::what_is_contained_is_there(head, n, "): "@ + a + middle + b + end);
    assert(hook_failed(code, a, b) =~= (head + n + "): "@) + a + (middle + b + end));
    text::what_is_contained_is_there(head + n + "): "@, a, middle + b + end);
    text::what_is_contained_is_there(head + n + "): "@ + a + middle, b, end);
    let use_of = "' is in use by another vm process — "@;
    assert(in_use(a, b) =~= "'"@ + a + (use_of + b));
    text::what_is_contained_is_there("'"@, a, use_of + b);
    assert(in_use(a, b) =~= ("'"@ + a + use_of) + b + none);
    text::what_is_contained_is_there("'"@ + a + use_of, b, none);
}

/// A snapshot that is refused for want of space says what is free, what it wants and what
/// memory the VM has, all in gibibytes, and where the space is missing.
pub proof fn missing_space_is_shown_in_gibibytes(name: Seq<char>, details: VmDetails, free: int)
    ensures
        no_headroom(name, details, free) == "not enough disk space to snapshot '"@ + name + "': "@
            + with_point(tenths(free, 1_073_741_824)) + " GiB free on the volume holding "@
            + details.home@ + ", but a snapshot wants ~"@ + with_point(
            tenths(2 * (details.memory_mb * 1_048_576), 1_073_741_824),
        ) + " GiB (2× the VM's "@ + with_point(tenths(details.memory_mb as int, 1024))
            + " GiB RAM)"@,
{
}

proof fn columns_in_front(
    alias: Seq<char>,
    os: Seq<char>,
    name: Seq<char>,
    status: Seq<char>,
    ip: Seq<char>,
)
    requires
        alias.len() <= 7,
        os.len() <= 8,
        name.len() <= 14,
        status.len() <= 10,
        ip.len() <= 15,
    ensures
        " "@.len() == 1,
        column(alias, 7).len() == 7,
        column(os, 8).len() == 8,
        column(name, 14).len() == 14,
        column(status, 10).len() == 10,
        column(ip, 15).len() == 15,
{
    reveal_strlit(" ");
    blanks_are_spaces(7 - alias.len());
    blanks_are_spaces(8 - os.len());
    blanks_are_spaces(14 - name.len());
    blanks_are_spaces(10 - status.len());
    blanks_are_spaces(15 - ip.len());
}

/// What fits its column stands under the heading of that column, and where the checkout
/// stands the line is over with it.
pub proof fn columns_stand_under_their_headings(
    alias: Seq<char>,
    os: Seq<char>,
    name: Seq<char>,
    status: Seq<char>,
    ip: Seq<char>,
    end: Seq<char>,
)
    requires
        alias.len() <= 7,
        os.len() <= 8,
        name.len() <= 14,
        status.len() <= 10,
        ip.len() <= 15,
    ensures
        ({
            let line = row(alias, os, name, status, ip, end);
            &&& line.len() == 59 + end.len()
            &&& line.subrange(0, alias.len() as int) == alias
            &&& line.subrange(8, 8 + os.len() as int) == os
            &&& line.subrange(17, 17 + name.len() as int) == name
            &&& line.subrange(32, 32 + status.len() as int) == status
            &&& line.subrange(43, 43 + ip.len() as int) == ip
            &&& line.skip(59) == end
        }),
{
    columns_in_front(alias, os, name, status, ip);
    let line = row(alias, os, name, status, ip, end);
    let gap = " "@;
    let a = column(alias, 7) + gap;
    let b = a + column(os, 8) + gap;
    let c = b + column(name, 14) + gap;
    let d = c + column(status, 10) + gap;
    let e = d + column(ip, 15) + gap;
    assert(line == e + end);
    assert(line.skip(59) =~= end);
    assert(e.subrange(43, 43 + ip.len() as int) =~= ip);
    assert(line.subrange(43, 43 + ip.len() as int) =~= e.subrange(43, 43 + ip.len() as int));
    assert(d.subrange(32, 32 + status.len() as int) =~= status);
    assert(line.subrange(32, 32 + status.len() as int) =~= d.subrange(
        32,
        32 + status.len() as int,
    ));
    assert(c.subrange(17, 17 + name.len() as int) =~= name);
    assert(line.subrange(17, 17 + name.len() as int) =~= c.subrange(17, 17 + name.len() as int));
    assert(b.subrange(8, 8 + os.len() as int) =~= os);
    assert(line.subrange(8, 8 + os.len() as int) =~= b.subrange(8, 8 + os.len() as int));
    assert(a.subrange(0, alias.len() as int) =~= alias);
    assert(line.subrange(0, alias.len() as int) =~= a.subrange(0, alias.len() as int));
}

/// A hook is handed to its verb by these flags, and only the shell's own words tell that an
/// agent is missing.
pub proof fn a_verb_has_its_flags(
    vm: VmConfig,
    repo: RepoLocation,
    hook: Seq<char>,
    stderr: Seq<char>,
)
    ensures
        hook_remote(vm, repo, hook)[2] == "--repo"@,
        hook_remote(vm, repo, hook)[4] == "--cmd"@,
        agent_missing(stderr) <==> text::contains(stderr, "No such file"@) || text::contains(
            stderr,
            "not recognized"@,
        ) || text::contains(stderr, "not found"@),
        home_in_guest(vm) == (match vm.os {
            GuestOs::Windows => "C:\\Users\\"@,
            GuestOs::Linux => "/home/"@,
            GuestOs::Macos => "/Users/"@,
        }) + vm.user@,
{
}

} // verus!
