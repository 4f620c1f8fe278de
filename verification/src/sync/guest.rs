//! The guest half of a sync: the checkout is made to match a commit, and its
//! tree is reported for the host to compare.

use super::git::{self, owned, Git, GitCall};
use crate::exit::{infra, Failure};
use crate::text;
use vstd::prelude::*;

verus! {

/// The steps that make a checkout match a commit.
#[derive(Debug, Clone, Copy, PartialEq, Eq, Structural)]
pub enum ApplyStage {
    /// Reset the working tree to the commit.
    Reset,
    /// Remove what is neither tracked nor ignored. Ignored files stay: they are
    /// the guest's build state.
    Clean,
    /// Look for anything that still differs.
    Status,
    /// Ask for the tree.
    Tree,
}

/// What follows a step.
#[derive(Debug)]
pub enum Applied {
    Next(ApplyStage),
    /// The checkout matches; this is its tree.
    Done(String),
    Fail(Failure),
}

/// The arguments of a step.
pub open spec fn apply_args(stage: ApplyStage, sha: Seq<char>) -> Seq<Seq<char>> {
    match stage {
        ApplyStage::Reset => seq!["reset"@, "--hard"@, sha, "--quiet"@],
        ApplyStage::Clean => seq!["clean"@, "-fd"@, "--quiet"@],
        ApplyStage::Status => seq!["status"@, "--porcelain"@],
        ApplyStage::Tree => seq!["rev-parse"@, sha + "^{tree}"@],
    }
}

/// The git call of a step.
pub fn apply_call(git: &Git, stage: ApplyStage, sha: &str) -> (r: GitCall)
    ensures
        git::calls(*git, apply_args(stage, sha@), r),
{
    let args: Vec<String> = match stage {
        ApplyStage::Reset => owned(&["reset", "--hard", sha, "--quiet"]),
        ApplyStage::Clean => owned(&["clean", "-fd", "--quiet"]),
        ApplyStage::Status => owned(&["status", "--porcelain"]),
        ApplyStage::Tree => {
            let mut rev = sha.to_owned();
            rev.append("^{tree}");
            owned(&["rev-parse", rev.as_str()])
        },
    };
    assert(text::views(args@) =~= apply_args(stage, sha@));
    git.command(args)
}

/// What follows a step, given what it printed or why it failed.
pub open spec fn applies(
    stage: ApplyStage,
    sha: Seq<char>,
    printed: Result<String, Failure>,
    r: Applied,
) -> bool {
    match printed {
        Err(e) => r matches Applied::Fail(f) && (if stage == ApplyStage::Reset {
            f is Usage == e is Usage && f.says() == "commit "@ + sha
                + " not present; was the push successful?"@ + ": "@ + e.says()
        } else {
            f == e
        }),
        Ok(out) => match stage {
            ApplyStage::Reset => r == Applied::Next(ApplyStage::Clean),
            ApplyStage::Clean => r == Applied::Next(ApplyStage::Status),
            ApplyStage::Status => if out@.len() == 0 {
                r == Applied::Next(ApplyStage::Tree)
            } else {
                r matches Applied::Fail(f) && f is Infra && f.says()
                    == "checkout is not clean after sync-apply (locked files?):\n"@ + out@
            },
            ApplyStage::Tree => r matches Applied::Done(tree) && tree@ == out@,
        },
    }
}

/// What follows a step, given what it printed or why it failed. The checkout has
/// to be clean before its tree is reported.
pub fn apply(stage: ApplyStage, sha: &str, printed: Result<String, Failure>) -> (r: Applied)
    ensures
        match printed {
            Err(e) => r matches Applied::Fail(f) && (if stage == ApplyStage::Reset {
                f is Usage == e is Usage && f.says() == "commit "@ + sha@
                    + " not present; was the push successful?"@ + ": "@ + e.says()
            } else {
                f == e
            }),
            Ok(out) => match stage {
                ApplyStage::Reset => r == Applied::Next(ApplyStage::Clean),
                ApplyStage::Clean => r == Applied::Next(ApplyStage::Status),
                ApplyStage::Status => if out@.len() == 0 {
                    r == Applied::Next(ApplyStage::Tree)
                } else {
                    r matches Applied::Fail(f) && f is Infra && f.says()
                        == "checkout is not clean after sync-apply (locked files?):\n"@ + out@
                },
                ApplyStage::Tree => r matches Applied::Done(tree) && tree@ == out@,
            },
        },
        applies(stage, sha@, printed, r),
{
    match printed {
        Err(e) => match stage {
            ApplyStage::Reset => {
                let mut ctx = "commit ".to_owned();
                ctx.append(sha);
                ctx.append(" not present; was the push successful?");
                Applied::Fail(e.context(ctx.as_str()))
            },
            _ => Applied::Fail(e),
        },
        Ok(out) => match stage {
            ApplyStage::Reset => Applied::Next(ApplyStage::Clean),
            ApplyStage::Clean => Applied::Next(ApplyStage::Status),
            ApplyStage::Status => {
                if out.as_str().is_empty() {
                    Applied::Next(ApplyStage::Tree)
                } else {
                    let mut msg =
                        "checkout is not clean after sync-apply (locked files?):\n".to_owned();
                    msg.append(out.as_str());
                    Applied::Fail(infra(msg))
                }
            },
            ApplyStage::Tree => Applied::Done(out),
        },
    }
}

/// The step that a checkout is at after what each step printed, if every one
/// went through.
pub open spec fn apply_stage_after(printed: Seq<Seq<char>>) -> Option<ApplyStage>
    decreases printed.len(),
{
    if printed.len() == 0 {
        Some(ApplyStage::Reset)
    } else {
        match apply_stage_after(printed.drop_last()) {
            Some(ApplyStage::Reset) => Some(ApplyStage::Clean),
            Some(ApplyStage::Clean) => Some(ApplyStage::Status),
            Some(ApplyStage::Status) => if printed.last().len() == 0 {
                Some(ApplyStage::Tree)
            } else {
                None
            },
            _ => None,
        }
    }
}

/// A tree is reported only of a checkout that was reset, cleaned and found to
/// differ in nothing.
pub proof fn only_a_clean_checkout_is_reported(printed: Seq<Seq<char>>)
    requires
        apply_stage_after(printed) == Some(ApplyStage::Tree),
    ensures
        printed.len() == 3,
        printed[2].len() == 0,
{
    reveal_with_fuel(apply_stage_after, 5);
    let a = printed.drop_last();
    let b = a.drop_last();
    let c = b.drop_last();
    assert(apply_stage_after(a) == Some(ApplyStage::Status));
    assert(apply_stage_after(b) == Some(ApplyStage::Clean));
    assert(apply_stage_after(c) == Some(ApplyStage::Reset));
    if c.len() > 0 {
        assert(apply_stage_after(c.drop_last()) is Some ==> false);
    }
}

/// The name of the index that a guest snapshots its checkout through.
pub const WRITEBACK_INDEX: &'static str = "vm-writeback-index";

/// The call that publishes a guest snapshot for the host to fetch.
pub fn tree(git: &Git, commit: &str) -> (r: GitCall)
    ensures
        git::calls(*git, seq!["update-ref"@, "refs/sync/writeback"@, commit@], r),
{
    let args = owned(&["update-ref", "refs/sync/writeback", commit]);
    assert(text::views(args@) =~= seq!["update-ref"@, "refs/sync/writeback"@, commit@]);
    git.command(args)
}

/// The calls that configure a fresh checkout: trees are the same on every
/// system, and commits have a fixed identity.
pub open spec fn init_args() -> Seq<Seq<Seq<char>>> {
    seq![
        seq!["init"@, "--quiet"@],
        seq!["config"@, "core.autocrlf"@, "false"@],
        seq!["config"@, "core.filemode"@, "false"@],
        seq!["config"@, "user.name"@, "vm-sync"@],
        seq!["config"@, "user.email"@, "vm-sync@local"@],
    ]
}

/// The calls that a checkout needs before objects can be pushed to it: none
/// where it is a repository already.
pub fn ensure_init(git: &Git, is_repository: bool) -> (r: Vec<GitCall>)
    ensures
        if is_repository {
            r@.len() == 0
        } else {
            r@.len() == 5 && forall|i: int|
                0 <= i < 5 ==> git::calls(*git, init_args()[i], #[trigger] r@[i])
        },
{
    let mut out: Vec<GitCall> = Vec::new();
    if is_repository {
        return out;
    }
    let a = owned(&["init", "--quiet"]);
    let b = owned(&["config", "core.autocrlf", "false"]);
    let c = owned(&["config", "core.filemode", "false"]);
    let d = owned(&["config", "user.name", "vm-sync"]);
    let e = owned(&["config", "user.email", "vm-sync@local"]);
    assert(text::views(a@) =~= init_args()[0]);
    assert(text::views(b@) =~= init_args()[1]);
    assert(text::views(c@) =~= init_args()[2]);
    assert(text::views(d@) =~= init_args()[3]);
    assert(text::views(e@) =~= init_args()[4]);
    out.push(git.command(a));
    out.push(git.command(b));
    out.push(git.command(c));
    out.push(git.command(d));
    out.push(git.command(e));
    out
}

/// What a fresh checkout is announced with.
pub fn initialized(path: &str) -> (r: String)
    ensures
        r@ == "vm ▸ initialized checkout at "@ + path@,
{
    let mut line = "vm ▸ initialized checkout at ".to_owned();
    line.append(path);
    line
}

/// What git is asked to do in the guest: the working tree becomes the commit's, what is
/// neither tracked nor ignored goes, and what is ignored stays.
pub proof fn a_checkout_is_made_the_commits(sha: Seq<char>)
    ensures
        apply_args(ApplyStage::Reset, sha) == seq!["reset"@, "--hard"@, sha, "--quiet"@],
        apply_args(ApplyStage::Clean, sha) == seq!["clean"@, "-fd"@, "--quiet"@],
        apply_args(ApplyStage::Status, sha) == seq!["status"@, "--porcelain"@],
        apply_args(ApplyStage::Tree, sha) == seq!["rev-parse"@, sha + "^{tree}"@],
{
}

/// A fresh checkout keeps line ends and modes as they come, and has an identity to commit
/// with.
pub proof fn a_fresh_checkout_keeps_bytes()
    ensures
        init_args().len() == 5,
        init_args()[0] == seq!["init"@, "--quiet"@],
        init_args().contains(seq!["config"@, "core.autocrlf"@, "false"@]),
        init_args().contains(seq!["config"@, "core.filemode"@, "false"@]),
        init_args().contains(seq!["config"@, "user.name"@, "vm-sync"@]),
        init_args().contains(seq!["config"@, "user.email"@, "vm-sync@local"@]),
{
    assert(init_args()[1] == seq!["config"@, "core.autocrlf"@, "false"@]);
    assert(init_args()[2] == seq!["config"@, "core.filemode"@, "false"@]);
    assert(init_args()[3] == seq!["config"@, "user.name"@, "vm-sync"@]);
    assert(init_args()[4] == seq!["config"@, "user.email"@, "vm-sync@local"@]);
}

/// A sync is applied step by step: the tree is reset, cleaned, looked at and then asked for,
/// each only after the step before it went through. A checkout that is not clean is never
/// reported, and the tree that is reported is the one that git printed.
pub proof fn a_checkout_is_looked_at_before_it_is_reported(
    history: Seq<Seq<char>>,
    stage: ApplyStage,
    sha: Seq<char>,
    out: String,
    e: Failure,
    r: Applied,
    failed: Applied,
)
    requires
        applies(stage, sha, Ok(out), r),
        applies(stage, sha, Err(e), failed),
    ensures
        stage == ApplyStage::Reset ==> r == Applied::Next(ApplyStage::Clean),
        stage == ApplyStage::Clean ==> r == Applied::Next(ApplyStage::Status),
        stage == ApplyStage::Status && out@.len() == 0 ==> r == Applied::Next(ApplyStage::Tree),
        stage == ApplyStage::Status && out@.len() > 0 ==> r is Fail,
        stage == ApplyStage::Tree ==> (r matches Applied::Done(tree) && tree@ == out@),
        r is Done ==> stage == ApplyStage::Tree,
        failed matches Applied::Fail(f) && f is Usage == e is Usage,
        apply_stage_after(history) == Some(stage) ==> apply_stage_after(history.push(out@)) == (
        match r {
            Applied::Next(next) => Some(next),
            _ => None,
        }),
{
    assert(history.push(out@).drop_last() =~= history);
}

} // verus!
