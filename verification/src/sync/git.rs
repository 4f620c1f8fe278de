//! Git invocations, and what is made of their outcome.

use crate::exit::{infra, Failure};
use crate::process::{self, Output};
use crate::text;
use vstd::prelude::*;

verus! {

/// A context for git: a directory, an index file in place of the usual one, and
/// an ssh command. The index is what keeps snapshots away from the user's
/// staging area; it is set for one call at a time.
#[derive(Debug)]
pub struct Git {
    pub cwd: String,
    pub index: Option<String>,
    pub ssh_command: Option<String>,
}

/// One git invocation: where it runs, its arguments, and the variables set for
/// it.
#[derive(Debug)]
pub struct GitCall {
    pub cwd: String,
    pub args: Vec<String>,
    pub env: Vec<(String, String)>,
}

/// The texts of some variables.
pub open spec fn env_views(env: Seq<(String, String)>) -> Seq<(Seq<char>, Seq<char>)> {
    env.map_values(|e: (String, String)| (e.0@, e.1@))
}

/// The variables that a context sets for each of its calls.
pub open spec fn context_env(git: Git) -> Seq<(Seq<char>, Seq<char>)> {
    (match git.index {
        Some(i) => seq![("GIT_INDEX_FILE"@, i@)],
        None => Seq::empty(),
    }) + (match git.ssh_command {
        Some(s) => seq![("GIT_SSH_COMMAND"@, s@)],
        None => Seq::empty(),
    })
}

/// Whether `call` is `args` in this context.
pub open spec fn calls(git: Git, args: Seq<Seq<char>>, call: GitCall) -> bool {
    &&& call.cwd@ == git.cwd@
    &&& text::views(call.args@) == args
    &&& env_views(call.env@) == context_env(git)
}

/// The fixed identity of a snapshot commit, so that the same content gives the
/// same commit.
pub open spec fn fixed_identity() -> Seq<(Seq<char>, Seq<char>)> {
    seq![
        ("GIT_AUTHOR_NAME"@, "vm-sync"@),
        ("GIT_AUTHOR_EMAIL"@, "vm-sync@local"@),
        ("GIT_AUTHOR_DATE"@, "2000-01-01T00:00:00+0000"@),
        ("GIT_COMMITTER_NAME"@, "vm-sync"@),
        ("GIT_COMMITTER_EMAIL"@, "vm-sync@local"@),
        ("GIT_COMMITTER_DATE"@, "2000-01-01T00:00:00+0000"@),
    ]
}

/// The arguments that make a commit of a tree.
pub open spec fn commit_args(tree: Seq<char>, parent: Option<Seq<char>>) -> Seq<Seq<char>> {
    seq!["commit-tree"@, tree, "-m"@, "vm sync snapshot"@] + (match parent {
        Some(p) => seq!["-p"@, p],
        None => Seq::empty(),
    })
}

/// Whether `call` makes a commit of a tree in this context.
pub open spec fn commits(
    git: Git,
    tree: Seq<char>,
    parent: Option<Seq<char>>,
    call: GitCall,
) -> bool {
    &&& call.cwd@ == git.cwd@
    &&& text::views(call.args@) == commit_args(tree, parent)
    &&& env_views(call.env@) == context_env(git) + fixed_identity()
}

/// The same tree on the same parent is committed by the same call, down to the
/// identity and the date: syncing an unchanged tree again makes nothing new.
pub proof fn an_unchanged_tree_is_committed_alike(
    git: Git,
    tree: Seq<char>,
    parent: Option<Seq<char>>,
    once: GitCall,
    again: GitCall,
)
    requires
        commits(git, tree, parent, once),
        commits(git, tree, parent, again),
    ensures
        once.cwd@ == again.cwd@,
        text::views(once.args@) == text::views(again.args@),
        env_views(once.env@) == env_views(again.env@),
{
}

fn push_var(env: &mut Vec<(String, String)>, name: &str, value: &str)
    ensures
        env_views(final(env)@) == env_views(old(env)@).push((name@, value@)),
{
    env.push((name.to_owned(), value.to_owned()));
    assert(env_views(env@) =~= env_views(old(env)@).push((name@, value@)));
}

/// `args` as owned strings.
pub fn owned(args: &[&str]) -> (r: Vec<String>)
    ensures
        text::views(r@) == text::str_views(args@),
{
    let mut out: Vec<String> = Vec::new();
    let ghost all = text::str_views(args@);
    let mut i: usize = 0;
    assert(text::views(out@) =~= all.take(0));
    while i < args.len()
        invariant
            i <= args@.len(),
            all == text::str_views(args@),
            text::views(out@) == all.take(i as int),
        decreases args@.len() - i,
    {
        let ghost before = out@;
        let arg = args[i].to_owned();
        out.push(arg);
        assert(text::views(out@) =~= text::views(before).push(arg@));
        assert(all.take(i + 1) =~= all.take(i as int).push(all[i as int]));
        i = i + 1;
    }
    assert(all.take(i as int) =~= all);
    out
}

impl Git {
    /// Git in a directory.
    pub fn in_dir(cwd: &str) -> (r: Git)
        ensures
            r.cwd@ == cwd@,
            r.index is None,
            r.ssh_command is None,
    {
        Git { cwd: cwd.to_owned(), index: None, ssh_command: None }
    }

    /// The same context with another index file.
    pub fn with_index(&self, index: &str) -> (r: Git)
        ensures
            r.cwd@ == self.cwd@,
            text::opt_string(r.index) == Some(index@),
            text::opt_string(r.ssh_command) == text::opt_string(self.ssh_command),
    {
        let ssh_command: Option<String> = match &self.ssh_command {
            Some(s) => Some(s.as_str().to_owned()),
            None => None,
        };
        Git { cwd: self.cwd.as_str().to_owned(), index: Some(index.to_owned()), ssh_command }
    }

    /// The same context with an ssh command.
    pub fn with_ssh_command(&self, ssh: &str) -> (r: Git)
        ensures
            r.cwd@ == self.cwd@,
            text::opt_string(r.index) == text::opt_string(self.index),
            text::opt_string(r.ssh_command) == Some(ssh@),
    {
        let index: Option<String> = match &self.index {
            Some(s) => Some(s.as_str().to_owned()),
            None => None,
        };
        Git { cwd: self.cwd.as_str().to_owned(), index, ssh_command: Some(ssh.to_owned()) }
    }

    /// One call in this context.
    pub fn command(&self, args: Vec<String>) -> (r: GitCall)
        ensures
            calls(*self, text::views(args@), r),
    {
        let mut env: Vec<(String, String)> = Vec::new();
        assert(env_views(env@) =~= Seq::<(Seq<char>, Seq<char>)>::empty());
        if let Some(index) = &self.index {
            push_var(&mut env, "GIT_INDEX_FILE", index.as_str());
        }
        if let Some(ssh) = &self.ssh_command {
            push_var(&mut env, "GIT_SSH_COMMAND", ssh.as_str());
        }
        assert(env_views(env@) =~= context_env(*self));
        GitCall { cwd: self.cwd.as_str().to_owned(), args, env }
    }

    /// What a call whose output is not needed comes to.
    pub fn run(&self, args: &[String], out: &Output) -> (r: Result<(), Failure>)
        ensures
            match r {
                Ok(_) => out.success,
                Err(e) => !out.success && e is Infra && e.says() == process::tool_failed(
                    "git"@,
                    text::views(args@),
                    out.stderr@,
                ),
            },
    {
        process::succeeded("git", args, out)
    }

    /// What a call printed, byte for byte. In a patch, newlines at the end count.
    pub fn out_raw(&self, args: &[String], out: Output) -> (r: Result<Vec<u8>, Failure>)
        ensures
            match r {
                Ok(bytes) => out.success && bytes@ == out.stdout@,
                Err(e) => !out.success && e is Infra && e.says() == process::tool_failed(
                    "git"@,
                    text::views(args@),
                    out.stderr@,
                ),
            },
    {
        match process::succeeded("git", args, &out) {
            Ok(_) => Ok(out.stdout),
            Err(e) => Err(e),
        }
    }

    /// What a call printed, without the white space it ends with.
    pub fn out(&self, args: &[String], out: Output) -> (r: Result<String, Failure>)
        ensures
            process::printed_trimmed("git"@, text::views(args@), out, r),
    {
        process::trimmed_stdout_of("git", args, out)
    }

    /// The arguments that ask for the git directory.
    pub fn git_dir_args() -> (r: Vec<String>)
        ensures
            text::views(r@) == seq!["rev-parse"@, "--absolute-git-dir"@],
    {
        let v = owned(&["rev-parse", "--absolute-git-dir"]);
        assert(text::views(v@) =~= seq!["rev-parse"@, "--absolute-git-dir"@]);
        v
    }

    /// The absolute path of the git directory, out of what git left.
    pub fn git_dir(&self, out: Output) -> (r: Result<String, Failure>)
        ensures
            process::printed_trimmed("git"@, seq!["rev-parse"@, "--absolute-git-dir"@], out, r),
    {
        self.out(&Git::git_dir_args(), out)
    }

    /// The arguments that ask for the commit that is checked out.
    pub fn head_args() -> (r: Vec<String>)
        ensures
            text::views(r@) == seq!["rev-parse"@, "--verify"@, "--quiet"@, "HEAD"@],
    {
        let v = owned(&["rev-parse", "--verify", "--quiet", "HEAD"]);
        assert(text::views(v@) =~= seq!["rev-parse"@, "--verify"@, "--quiet"@, "HEAD"@]);
        v
    }

    /// The commit that is checked out, out of what git left. A repo without
    /// commits has none.
    pub fn head(&self, out: Output) -> (r: Option<String>)
        ensures
            ({
                let printed = text::trim_end(vstd::utf8::decode_utf8(out.stdout@));
                if out.success && vstd::utf8::valid_utf8(out.stdout@) && printed.len() > 0 {
                    r matches Some(sha) && sha@ == printed
                } else {
                    r is None
                }
            }),
    {
        match self.out(&Git::head_args(), out) {
            Ok(sha) => {
                if sha.as_str().is_empty() {
                    None
                } else {
                    Some(sha)
                }
            },
            Err(_) => None,
        }
    }

    /// The call that makes a commit of a tree, with a fixed identity and date.
    pub fn commit_tree(&self, tree: &str, parent: Option<&str>) -> (r: GitCall)
        ensures
            commits(*self, tree@, text::opt(parent), r),
    {
        let mut args: Vec<String> = owned(&["commit-tree", tree, "-m", "vm sync snapshot"]);
        assert(text::views(args@) =~= commit_args(tree@, None));
        if let Some(p) = parent {
            let ghost before = args@;
            args.push("-p".to_owned());
            args.push(p.to_owned());
            assert(text::views(args@) =~= text::views(before) + seq!["-p"@, p@]);
            assert(text::views(args@) =~= commit_args(tree@, Some(p@)));
        }
        let call: GitCall = self.command(args);
        let mut env: Vec<(String, String)> = call.env;
        push_var(&mut env, "GIT_AUTHOR_NAME", "vm-sync");
        push_var(&mut env, "GIT_AUTHOR_EMAIL", "vm-sync@local");
        push_var(&mut env, "GIT_AUTHOR_DATE", "2000-01-01T00:00:00+0000");
        push_var(&mut env, "GIT_COMMITTER_NAME", "vm-sync");
        push_var(&mut env, "GIT_COMMITTER_EMAIL", "vm-sync@local");
        push_var(&mut env, "GIT_COMMITTER_DATE", "2000-01-01T00:00:00+0000");
        assert(env_views(env@) =~= context_env(*self) + fixed_identity());
        GitCall { cwd: call.cwd, args: call.args, env }
    }

    /// The commit that was made, out of what git left.
    pub fn committed(out: Output) -> (r: Result<String, Failure>)
        ensures
            match r {
                Ok(sha) => out.success && vstd::utf8::valid_utf8(out.stdout@) && sha@
                    == text::trim_end(vstd::utf8::decode_utf8(out.stdout@)),
                Err(e) => e is Infra && (if out.success {
                    !vstd::utf8::valid_utf8(out.stdout@) && e.says() == process::utf8_complaint(
                        out.stdout@,
                    )
                } else {
                    e.says() == "git commit-tree failed: "@ + text::trim(
                        process::lossy_text(out.stderr@),
                    )
                }),
            },
    {
        if !out.success {
            let mut msg = "git commit-tree failed: ".to_owned();
            msg.append(text::trimmed(process::lossy(&out.stderr).as_str()).as_str());
            return Err(infra(msg));
        }
        match process::utf8(out.stdout) {
            Ok(s) => Ok(text::trimmed_end(s.as_str())),
            Err(e) => Err(infra(e)),
        }
    }
}

/// A snapshot is always made by the same author and committer, at the same time, so
/// that nothing but its tree and its parent tells two apart.
pub proof fn a_snapshot_has_no_time_of_its_own(
    git: Git,
    tree: Seq<char>,
    parent: Option<Seq<char>>,
    call: GitCall,
)
    requires
        commits(git, tree, parent, call),
    ensures
        call.cwd@ == git.cwd@,
        text::views(call.args@)[0] == "commit-tree"@,
        text::views(call.args@)[1] == tree,
        parent is None ==> text::views(call.args@).len() == 4,
        parent matches Some(p) ==> text::views(call.args@).len() == 6 && text::views(call.args@)[4]
            == "-p"@ && text::views(call.args@)[5] == p,
        git.index is None && git.ssh_command is None ==> {
            let env = env_views(call.env@);
            &&& env.len() == 6
            &&& env[0] == ("GIT_AUTHOR_NAME"@, "vm-sync"@)
            &&& env[1] == ("GIT_AUTHOR_EMAIL"@, "vm-sync@local"@)
            &&& env[2] == ("GIT_AUTHOR_DATE"@, "2000-01-01T00:00:00+0000"@)
            &&& env[3] == ("GIT_COMMITTER_NAME"@, "vm-sync"@)
            &&& env[4] == ("GIT_COMMITTER_EMAIL"@, "vm-sync@local"@)
            &&& env[5] == ("GIT_COMMITTER_DATE"@, "2000-01-01T00:00:00+0000"@)
        },
{
}

/// A call of git is made in the directory and with the index and the ssh command of its
/// context, and with nothing else in its environment.
pub proof fn a_call_keeps_to_its_context(git: Git, args: Seq<Seq<char>>, call: GitCall)
    requires
        calls(git, args, call),
    ensures
        call.cwd@ == git.cwd@,
        text::views(call.args@) == args,
        git.index is None && git.ssh_command is None ==> call.env@.len() == 0,
        git.index matches Some(index) ==> env_views(call.env@)[0] == ("GIT_INDEX_FILE"@, index@),
        git.ssh_command matches Some(ssh) ==> env_views(call.env@).last() == (
            "GIT_SSH_COMMAND"@,
            ssh@,
        ),
        call.env@.len() == (if git.index is Some {
            1int
        } else {
            0
        }) + (if git.ssh_command is Some {
            1int
        } else {
            0
        }),
{
    assert(env_views(call.env@).len() == call.env@.len());
}

} // verus!
