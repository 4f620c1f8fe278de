//! Guest environment managers: a dev-environment tool that a repo's commands run
//! under in the guest. Detection is never silent, and a flag forces or disables
//! it for one invocation.

use crate::text;
use vstd::prelude::*;

verus! {

/// The choices of `--guest-env`. Without the flag, the repo decides.
#[derive(Debug, Clone, Copy, PartialEq, Eq, Structural)]
pub enum GuestEnv {
    /// The repo's tools are managed by mise.
    Mise,
    /// No handling, even where detection would find some: `--guest-env none`.
    Off,
}

/// The repo-root files that mark a mise-managed repo, in the order in which they
/// are looked for.
pub open spec fn mise_markers() -> Seq<Seq<char>> {
    seq![
        "mise.toml"@,
        ".mise.toml"@,
        "mise.local.toml"@,
        ".mise/config.toml"@,
        ".config/mise/config.toml"@,
    ]
}

/// The guest environment in effect for one run, and where the decision came
/// from.
#[derive(Debug)]
pub struct ActiveEnv {
    pub env: GuestEnv,
    /// The marker file that was found; none for an explicit choice.
    pub detected_from: Option<&'static str>,
}

/// Whether the file system can answer that the marker at `i` is there, and none
/// before it.
pub open spec fn first_marker<F: Fn(&str) -> bool>(is_file: F, i: int) -> bool {
    &&& 0 <= i < mise_markers().len()
    &&& crate::exec::advise::file(is_file, mise_markers()[i])
    &&& no_marker_before(is_file, i)
}

/// Whether the file system can answer that none of the first `n` markers is
/// there.
pub open spec fn no_marker_before<F: Fn(&str) -> bool>(is_file: F, n: int) -> bool {
    forall|j: int|
        0 <= j < n ==> crate::exec::advise::no_file(is_file, #[trigger] mise_markers()[j])
}

fn marker(i: usize) -> (r: &'static str)
    requires
        i < 5,
    ensures
        r@ == mise_markers()[i as int],
{
    if i == 0 {
        "mise.toml"
    } else if i == 1 {
        ".mise.toml"
    } else if i == 2 {
        "mise.local.toml"
    } else if i == 3 {
        ".mise/config.toml"
    } else {
        ".config/mise/config.toml"
    }
}

/// The guest environment of a run: an explicit choice wins, else the repo root
/// is looked at. `is_file` answers for paths relative to that root.
pub fn resolve<F: Fn(&str) -> bool>(flag: Option<GuestEnv>, is_file: F) -> (r: ActiveEnv)
    requires
        forall|p: &str| call_requires(is_file, (p,)),
    ensures
        match flag {
            Some(env) => r.env == env && r.detected_from is None,
            None => match r.detected_from {
                Some(m) => r.env == GuestEnv::Mise && exists|i: int|
                    #[trigger] first_marker(is_file, i) && m@ == mise_markers()[i],
                None => r.env == GuestEnv::Off && no_marker_before(is_file, 5),
            },
        },
{
    if let Some(env) = flag {
        return ActiveEnv { env, detected_from: None };
    }
    let mut i: usize = 0;
    while i < 5
        invariant
            i <= 5,
            forall|p: &str| call_requires(is_file, (p,)),
            flag is None,
            no_marker_before(is_file, i as int),
        decreases 5 - i,
    {
        let m: &'static str = marker(i);
        if is_file(m) {
            assert(crate::exec::advise::file(is_file, mise_markers()[i as int]));
            assert(first_marker(is_file, i as int));
            return ActiveEnv { env: GuestEnv::Mise, detected_from: Some(m) };
        }
        assert(crate::exec::advise::no_file(is_file, mise_markers()[i as int]));
        i = i + 1;
    }
    ActiveEnv { env: GuestEnv::Off, detected_from: None }
}

impl ActiveEnv {
    /// What goes in front of a guest command.
    pub open spec fn prefix(self) -> Seq<Seq<char>> {
        match self.env {
            GuestEnv::Mise => seq!["mise"@, "exec"@, "--"@],
            GuestEnv::Off => Seq::empty(),
        }
    }

    /// The line that announces an active environment: what will be set up and
    /// wrapped, why, and how to turn it off. Whatever wraps a command is announced,
    /// and an inactive environment says nothing.
    pub fn announce(&self, alias: &str) -> (r: Option<String>)
        ensures
            match self.env {
                GuestEnv::Off => r is None,
                GuestEnv::Mise => r matches Some(line) && line@ == "vm ▸ "@ + alias@
                    + " ▸ guest env: mise ("@ + (match self.detected_from {
                    Some(m) => "detected "@ + m@
                        + ") — `mise trust` on first sync, exec commands wrapped `mise exec --`; --guest-env none disables"@,
                    None => "--guest-env)"@,
                }),
            },
            r is Some == (self.prefix().len() > 0),
    {
        match self.env {
            GuestEnv::Off => None,
            GuestEnv::Mise => {
                let mut line = "vm ▸ ".to_owned();
                line.append(alias);
                line.append(" ▸ guest env: mise (");
                let ghost head = line@;
                match self.detected_from {
                    Some(m) => {
                        line.append("detected ");
                        line.append(m);
                        line.append(
                            ") — `mise trust` on first sync, exec commands wrapped `mise exec --`; --guest-env none disables",
                        );
                        assert(line@ =~= head + ("detected "@ + m@
                            + ") — `mise trust` on first sync, exec commands wrapped `mise exec --`; --guest-env none disables"@));
                    },
                    None => {
                        line.append("--guest-env)");
                    },
                }
                Some(line)
            },
        }
    }

    /// The arguments put in front of a guest command.
    pub fn wrap(&self) -> (r: Vec<String>)
        ensures
            text::views(r@) == self.prefix(),
    {
        let mut out: Vec<String> = Vec::new();
        match self.env {
            GuestEnv::Mise => {
                out.push("mise".to_owned());
                out.push("exec".to_owned());
                out.push("--".to_owned());
            },
            GuestEnv::Off => {},
        }
        assert(text::views(out@) =~= self.prefix());
        out
    }

    /// The one-time setup of a freshly created guest checkout.
    pub fn first_sync_cmd(&self) -> (r: Option<&'static str>)
        ensures
            match self.env {
                GuestEnv::Mise => r matches Some(cmd) && cmd@ == "mise trust"@,
                GuestEnv::Off => r is None,
            },
    {
        match self.env {
            GuestEnv::Mise => Some("mise trust"),
            GuestEnv::Off => None,
        }
    }
}

/// What marks a repo, by name: a repo is one of mise's exactly where the file system
/// can answer that one of these files is there, the first in this order, and none
/// where it answers that no such file is.
pub proof fn a_repo_is_marked_by_these_files<F: Fn(&str) -> bool>(is_file: F, i: int)
    ensures
        first_marker(is_file, i) ==> {
            ||| mise_markers()[i] == "mise.toml"@
            ||| mise_markers()[i] == ".mise.toml"@
            ||| mise_markers()[i] == "mise.local.toml"@
            ||| mise_markers()[i] == ".mise/config.toml"@
            ||| mise_markers()[i] == ".config/mise/config.toml"@
        },
        first_marker(is_file, i) ==> exists|p: &str|
            p@ == mise_markers()[i] && #[trigger] call_ensures(is_file, (p,), true),
        first_marker(is_file, i) && i > 0 ==> exists|p: &str|
            p@ == "mise.toml"@ && #[trigger] call_ensures(is_file, (p,), false),
        no_marker_before(is_file, 5) ==> {
            &&& exists|p: &str| p@ == "mise.toml"@ && #[trigger] call_ensures(is_file, (p,), false)
            &&& exists|p: &str| p@ == ".mise.toml"@ && #[trigger] call_ensures(is_file, (p,), false)
            &&& exists|p: &str|
                p@ == "mise.local.toml"@ && #[trigger] call_ensures(is_file, (p,), false)
            &&& exists|p: &str|
                p@ == ".mise/config.toml"@ && #[trigger] call_ensures(is_file, (p,), false)
            &&& exists|p: &str|
                p@ == ".config/mise/config.toml"@ && #[trigger] call_ensures(is_file, (p,), false)
        },
{
    let m = mise_markers();
    if first_marker(is_file, i) {
        assert(crate::exec::advise::file(is_file, m[i]));
        if i > 0 {
            assert(crate::exec::advise::no_file(is_file, m[0]));
        }
    }
    if no_marker_before(is_file, 5) {
        assert(crate::exec::advise::no_file(is_file, m[0]));
        assert(crate::exec::advise::no_file(is_file, m[1]));
        assert(crate::exec::advise::no_file(is_file, m[2]));
        assert(crate::exec::advise::no_file(is_file, m[3]));
        assert(crate::exec::advise::no_file(is_file, m[4]));
    }
}

/// An environment of mise wraps a command in `mise exec --`, and no environment wraps
/// it in anything.
pub proof fn only_mise_wraps(env: ActiveEnv)
    ensures
        env.env == GuestEnv::Mise ==> env.prefix() == seq!["mise"@, "exec"@, "--"@],
        env.env == GuestEnv::Off ==> env.prefix().len() == 0,
{
}

} // verus!
