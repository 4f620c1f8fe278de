//! The host half of a sync, and the way back.

use super::git::{self, owned, Git, GitCall};
use super::Snapshot;
use crate::config;
use crate::exit::{infra, Failure};
use crate::text;
use vstd::prelude::*;

verus! {

/// The lock file that serialises the syncs of one repo to one peer, beside the
/// index it guards.
pub fn lock_sync(git_dir: &str, peer: &str) -> (r: String)
    ensures
        r@ == config::path_below(git_dir@, "vm-sync-"@ + peer@ + ".flock"@),
{
    let mut name = "vm-sync-".to_owned();
    name.append(peer);
    name.append(".flock");
    config::below(git_dir, name.as_str())
}

/// The line for a sync that has to wait for another one.
pub fn waiting_for_sync(peer: &str) -> (r: String)
    ensures
        r@ == "vm ▸ "@ + peer@ + " ▸ waiting for a concurrent sync of this repo…"@,
{
    let mut line = "vm ▸ ".to_owned();
    line.append(peer);
    line.append(" ▸ waiting for a concurrent sync of this repo…");
    line
}

/// The index that a peer's snapshots go through.
pub fn index_name(peer: &str) -> (r: String)
    ensures
        r@ == "vm-sync-index-"@ + peer@,
{
    let mut name = "vm-sync-index-".to_owned();
    name.append(peer);
    name
}

/// The arguments of a sync push: forced, for snapshots are never fast-forwards
/// of each other, and without the repo's hooks, for it is no publication.
pub open spec fn push_args(url: Seq<char>, commit: Seq<char>) -> Seq<Seq<char>> {
    seq!["push"@, "--quiet"@, "--no-verify"@, url, "+"@ + commit + ":refs/sync/head"@]
}

/// The call that pushes a snapshot to a guest.
pub fn sync_to(git: &Git, remote_url: &str, ssh_command: Option<&str>, snap: &Snapshot) -> (r:
    GitCall)
    ensures
        r.cwd@ == git.cwd@,
        text::views(r.args@) == push_args(remote_url@, snap.commit@),
        git::env_views(r.env@) == (match git.index {
            Some(i) => seq![("GIT_INDEX_FILE"@, i@)],
            None => Seq::empty(),
        }) + (match ssh_command {
            Some(s) => seq![("GIT_SSH_COMMAND"@, s@)],
            None => match git.ssh_command {
                Some(s) => seq![("GIT_SSH_COMMAND"@, s@)],
                None => Seq::empty(),
            },
        }),
{
    let mut refspec = "+".to_owned();
    refspec.append(snap.commit.as_str());
    refspec.append(":refs/sync/head");
    let args = owned(&["push", "--quiet", "--no-verify", remote_url, refspec.as_str()]);
    assert(text::views(args@) =~= push_args(remote_url@, snap.commit@));
    match ssh_command {
        Some(s) => git.with_ssh_command(s).command(args),
        None => git.command(args),
    }
}

/// What a push comes to: a failure says where it was going.
pub fn pushed(remote_url: &str, result: Result<(), Failure>) -> (r: Result<(), Failure>)
    ensures
        match result {
            Ok(_) => r is Ok,
            Err(e) => r matches Err(f) && f is Usage == e is Usage && f.says()
                == "pushing sync snapshot to "@ + remote_url@ + ": "@ + e.says(),
        },
{
    match result {
        Ok(_) => Ok(()),
        Err(e) => {
            let mut ctx = "pushing sync snapshot to ".to_owned();
            ctx.append(remote_url);
            Err(e.context(ctx.as_str()))
        },
    }
}

// ── Writeback ────────────────────────────────────────────────────────────────

/// The steps that bring a guest's changes back.
#[derive(Debug, Clone, Copy, PartialEq, Eq, Structural)]
pub enum WritebackStage {
    /// Compare the guest's tree with the one that was synced.
    Compare,
    /// Fetch what the guest published.
    Fetch,
    /// Ask which tree was fetched.
    FetchedTree,
    /// Compute the difference.
    Diff,
    /// Apply it to the working tree.
    Apply,
}

/// What was reported of a step.
#[derive(Debug)]
pub enum WritebackEvent {
    /// The two trees are known.
    Begin,
    /// The fetch went through.
    Fetched,
    /// The tree that was fetched.
    Tree(String),
    /// The difference, as a patch.
    Patch(Vec<u8>),
    /// Whether the patch was applied.
    Patched(bool),
    /// A git call failed.
    Failed(Failure),
}

/// What follows.
#[derive(Debug)]
pub enum WritebackNext {
    /// Run a step that takes no input.
    Run(WritebackStage),
    /// Run the step that applies this patch.
    Apply(Vec<u8>),
    /// Whether anything was applied.
    Done(bool),
    Fail(Failure),
}

/// What a fetched tree other than the reported one is refused with.
pub open spec fn mismatch(reported: Seq<char>, fetched: Seq<char>) -> Seq<char> {
    "writeback mismatch: guest reported tree "@ + reported + " but fetched "@ + fetched
}

/// Whether this can be reported of a step.
pub open spec fn reports(stage: WritebackStage, event: WritebackEvent) -> bool {
    match stage {
        WritebackStage::Compare => event is Begin,
        WritebackStage::Fetch => event is Fetched || event is Failed,
        WritebackStage::FetchedTree => event is Tree || event is Failed,
        WritebackStage::Diff => event is Patch || event is Failed,
        WritebackStage::Apply => event is Patched || event is Failed,
    }
}

/// What follows what was reported of a step.
pub open spec fn writeback_follows(
    remote_url: Seq<char>,
    base: Snapshot,
    wb: Snapshot,
    stage: WritebackStage,
    event: WritebackEvent,
    next: WritebackNext,
) -> bool {
    match event {
        WritebackEvent::Begin => if wb.tree@ == base.tree@ {
            next == WritebackNext::Done(false)
        } else {
            next == WritebackNext::Run(WritebackStage::Fetch)
        },
        WritebackEvent::Fetched => next == WritebackNext::Run(WritebackStage::FetchedTree),
        WritebackEvent::Tree(tree) => if tree@ == wb.tree@ {
            next == WritebackNext::Run(WritebackStage::Diff)
        } else {
            next matches WritebackNext::Fail(e) && e is Infra && e.says() == mismatch(
                wb.tree@,
                tree@,
            )
        },
        WritebackEvent::Patch(patch) => if patch@.len() == 0 {
            next == WritebackNext::Done(false)
        } else {
            next == WritebackNext::Apply(patch)
        },
        WritebackEvent::Patched(ok) => if ok {
            next == WritebackNext::Done(true)
        } else {
            next matches WritebackNext::Fail(e) && e is Infra && e.says()
                == "git apply of guest writeback failed (host tree changed during the run?)"@
        },
        WritebackEvent::Failed(e) => next matches WritebackNext::Fail(f) && (if stage
            == WritebackStage::Fetch {
            f is Usage == e is Usage && f.says() == "fetching writeback from "@ + remote_url + ": "@
                + e.says()
        } else {
            f == e
        }),
    }
}

/// What follows what was reported of a step of a writeback. What lands on the
/// host is what the guest published: a tree other than the reported one is
/// refused, and so is a patch that does not apply.
pub fn apply_writeback(
    remote_url: &str,
    base: &Snapshot,
    guest_writeback: &Snapshot,
    stage: WritebackStage,
    event: WritebackEvent,
) -> (r: WritebackNext)
    requires
        reports(stage, event),
    ensures
        writeback_follows(remote_url@, *base, *guest_writeback, stage, event, r),
{
    match event {
        WritebackEvent::Begin => {
            if text::same(guest_writeback.tree.as_str(), base.tree.as_str()) {
                WritebackNext::Done(false)
            } else {
                WritebackNext::Run(WritebackStage::Fetch)
            }
        },
        WritebackEvent::Fetched => WritebackNext::Run(WritebackStage::FetchedTree),
        WritebackEvent::Tree(tree) => {
            if text::same(tree.as_str(), guest_writeback.tree.as_str()) {
                WritebackNext::Run(WritebackStage::Diff)
            } else {
                let mut msg = "writeback mismatch: guest reported tree ".to_owned();
                msg.append(guest_writeback.tree.as_str());
                msg.append(" but fetched ");
                msg.append(tree.as_str());
                WritebackNext::Fail(infra(msg))
            }
        },
        WritebackEvent::Patch(patch) => {
            if patch.len() == 0 {
                WritebackNext::Done(false)
            } else {
                WritebackNext::Apply(patch)
            }
        },
        WritebackEvent::Patched(ok) => {
            if ok {
                WritebackNext::Done(true)
            } else {
                WritebackNext::Fail(
                    infra(
                        "git apply of guest writeback failed (host tree changed during the run?)".to_owned(),
                    ),
                )
            }
        },
        WritebackEvent::Failed(e) => match stage {
            WritebackStage::Fetch => {
                let mut ctx = "fetching writeback from ".to_owned();
                ctx.append(remote_url);
                WritebackNext::Fail(e.context(ctx.as_str()))
            },
            _ => WritebackNext::Fail(e),
        },
    }
}

/// The arguments of a step of a writeback. Comparing takes no call.
pub open spec fn writeback_args(
    stage: WritebackStage,
    remote_url: Seq<char>,
    base_commit: Seq<char>,
) -> Seq<Seq<char>> {
    match stage {
        WritebackStage::Compare => Seq::empty(),
        WritebackStage::Fetch => seq![
            "fetch"@,
            "--quiet"@,
            remote_url,
            "refs/sync/writeback"@,
        ],
        WritebackStage::FetchedTree => seq!["rev-parse"@, "FETCH_HEAD^{tree}"@],
        WritebackStage::Diff => seq!["diff"@, base_commit, "FETCH_HEAD"@],
        WritebackStage::Apply => seq!["apply"@, "--whitespace=nowarn"@],
    }
}

/// The git call of a step of a writeback. Only the fetch goes over ssh.
pub fn writeback_call(
    repo_root: &str,
    remote_url: &str,
    base: &Snapshot,
    ssh_command: Option<&str>,
    stage: WritebackStage,
) -> (r: GitCall)
    requires
        stage != WritebackStage::Compare,
    ensures
        r.cwd@ == repo_root@,
        text::views(r.args@) == writeback_args(stage, remote_url@, base.commit@),
        git::env_views(r.env@) == (if stage == WritebackStage::Fetch && ssh_command is Some {
            seq![("GIT_SSH_COMMAND"@, ssh_command->0@)]
        } else {
            Seq::empty()
        }),
{
    let git: Git = Git::in_dir(repo_root);
    let args: Vec<String> = match stage {
        WritebackStage::Compare => Vec::new(),
        WritebackStage::Fetch => owned(&["fetch", "--quiet", remote_url, "refs/sync/writeback"]),
        WritebackStage::FetchedTree => owned(&["rev-parse", "FETCH_HEAD^{tree}"]),
        WritebackStage::Diff => owned(&["diff", base.commit.as_str(), "FETCH_HEAD"]),
        WritebackStage::Apply => owned(&["apply", "--whitespace=nowarn"]),
    };
    assert(text::views(args@) =~= writeback_args(stage, remote_url@, base.commit@));
    let call = match (stage, ssh_command) {
        (WritebackStage::Fetch, Some(s)) => git.with_ssh_command(s).command(args),
        _ => git.command(args),
    };
    assert(git::env_views(call.env@) =~= (if stage == WritebackStage::Fetch && ssh_command is Some {
        seq![("GIT_SSH_COMMAND"@, ssh_command->0@)]
    } else {
        Seq::empty()
    }));
    call
}

/// The step that comes after what was reported of this one, if any.
pub open spec fn advance(
    base: Snapshot,
    wb: Snapshot,
    stage: WritebackStage,
    event: WritebackEvent,
) -> Option<WritebackStage> {
    match (stage, event) {
        (WritebackStage::Compare, WritebackEvent::Begin) => if wb.tree@ == base.tree@ {
            None
        } else {
            Some(WritebackStage::Fetch)
        },
        (WritebackStage::Fetch, WritebackEvent::Fetched) => Some(WritebackStage::FetchedTree),
        (WritebackStage::FetchedTree, WritebackEvent::Tree(tree)) => if tree@ == wb.tree@ {
            Some(WritebackStage::Diff)
        } else {
            None
        },
        (WritebackStage::Diff, WritebackEvent::Patch(patch)) => if patch@.len() == 0 {
            None
        } else {
            Some(WritebackStage::Apply)
        },
        _ => None,
    }
}

/// The step that a writeback is at after a history of reports, if it goes on.
pub open spec fn stage_after(
    base: Snapshot,
    wb: Snapshot,
    history: Seq<WritebackEvent>,
) -> Option<WritebackStage>
    decreases history.len(),
{
    if history.len() == 0 {
        Some(WritebackStage::Compare)
    } else {
        match stage_after(base, wb, history.drop_last()) {
            Some(stage) => advance(base, wb, stage, history.last()),
            None => None,
        }
    }
}

/// A writeback runs another step exactly where one comes after, and the patch that is
/// applied is the one that was computed.
pub proof fn runs_what_comes_after(
    remote_url: Seq<char>,
    base: Snapshot,
    wb: Snapshot,
    stage: WritebackStage,
    event: WritebackEvent,
    next: WritebackNext,
)
    requires
        reports(stage, event),
        writeback_follows(remote_url, base, wb, stage, event, next),
    ensures
        match advance(base, wb, stage, event) {
            Some(WritebackStage::Apply) => event matches WritebackEvent::Patch(patch) && next
                == WritebackNext::Apply(patch),
            Some(s) => next == WritebackNext::Run(s),
            None => !(next is Run) && !(next is Apply),
        },
{
}

/// Whether a history holds the report that this tree was fetched.
pub open spec fn fetched(history: Seq<WritebackEvent>, tree: Seq<char>) -> bool {
    exists|i: int|
        0 <= i < history.len() && (#[trigger] history[i] matches WritebackEvent::Tree(t) && t@
            == tree)
}

/// Nothing is applied to the host tree unless the tree that was fetched is the
/// one the guest reported, and that one differs from the tree that was synced.
pub proof fn only_the_reported_tree_is_applied(
    base: Snapshot,
    wb: Snapshot,
    history: Seq<WritebackEvent>,
)
    ensures
        ({
            let stage = stage_after(base, wb, history);
            &&& stage is Some && stage->0 != WritebackStage::Compare ==> wb.tree@ != base.tree@
            &&& stage == Some(WritebackStage::Diff) || stage == Some(WritebackStage::Apply)
                ==> fetched(history, wb.tree@)
        }),
    decreases history.len(),
{
    if history.len() > 0 {
        let front = history.drop_last();
        only_the_reported_tree_is_applied(base, wb, front);
        if fetched(front, wb.tree@) {
            let i = choose|i: int|
                0 <= i < front.len() && (#[trigger] front[i] matches WritebackEvent::Tree(t) && t@
                    == wb.tree@);
            assert(history[i] == front[i]);
        }
        assert(history[history.len() - 1] == history.last());
    }
}

/// A guest that changed nothing costs nothing: where its tree is the one that
/// was synced, no step is run.
pub proof fn unchanged_guest_is_a_noop(
    remote_url: Seq<char>,
    base: Snapshot,
    wb: Snapshot,
    next: WritebackNext,
)
    requires
        wb.tree@ == base.tree@,
        writeback_follows(
            remote_url,
            base,
            wb,
            WritebackStage::Compare,
            WritebackEvent::Begin,
            next,
        ),
    ensures
        next == WritebackNext::Done(false),
{
}

/// A writeback goes step by step: what the guest changed is fetched, only the tree that it
/// reported is taken, a difference is applied as it was computed, and whatever fails ends
/// it. It says that it changed something exactly where a patch went in.
pub proof fn a_writeback_goes_step_by_step(
    remote_url: Seq<char>,
    base: Snapshot,
    wb: Snapshot,
    stage: WritebackStage,
    event: WritebackEvent,
    next: WritebackNext,
)
    requires
        writeback_follows(remote_url, base, wb, stage, event, next),
    ensures
        event is Begin && wb.tree@ != base.tree@ ==> next == WritebackNext::Run(
            WritebackStage::Fetch,
        ),
        event is Fetched ==> next == WritebackNext::Run(WritebackStage::FetchedTree),
        event matches WritebackEvent::Tree(tree) ==> (if tree@ == wb.tree@ {
            next == WritebackNext::Run(WritebackStage::Diff)
        } else {
            next is Fail
        }),
        event matches WritebackEvent::Patch(patch) ==> (if patch@.len() > 0 {
            next == WritebackNext::Apply(patch)
        } else {
            next == WritebackNext::Done(false)
        }),
        event == WritebackEvent::Patched(true) <==> next == WritebackNext::Done(true),
        event == WritebackEvent::Patched(false) ==> next is Fail,
        event is Failed ==> next is Fail,
        event matches WritebackEvent::Failed(e) ==> next->Fail_0 is Usage == e is Usage,
{
}

/// What is pushed is the snapshot itself, to one fixed ref of the guest, over whatever
/// stands there, and no hook of the host sees it.
pub proof fn a_snapshot_is_pushed_over_the_last(url: Seq<char>, commit: Seq<char>)
    ensures
        push_args(url, commit) == seq![
            "push"@,
            "--quiet"@,
            "--no-verify"@,
            url,
            seq!['+'] + commit + ":refs/sync/head"@,
        ],
{
    reveal_strlit("+");
    assert("+"@ =~= seq!['+']);
}

/// What git is asked for in a writeback: it fetches the ref that the guest published,
/// and compares it with the commit that was synced.
pub proof fn a_writeback_compares_with_what_was_synced(url: Seq<char>, base_commit: Seq<char>)
    ensures
        writeback_args(WritebackStage::Fetch, url, base_commit) == seq![
            "fetch"@,
            "--quiet"@,
            url,
            "refs/sync/writeback"@,
        ],
        writeback_args(WritebackStage::FetchedTree, url, base_commit) == seq![
            "rev-parse"@,
            "FETCH_HEAD^{tree}"@,
        ],
        writeback_args(WritebackStage::Diff, url, base_commit) == seq![
            "diff"@,
            base_commit,
            "FETCH_HEAD"@,
        ],
        writeback_args(WritebackStage::Apply, url, base_commit) == seq![
            "apply"@,
            "--whitespace=nowarn"@,
        ],
{
}

/// A writeback that fails says why: another tree than was reported is named beside that one,
/// and a fetch that failed names where it was fetched from.
pub proof fn a_failed_writeback_says_why(
    remote_url: Seq<char>,
    base: Snapshot,
    wb: Snapshot,
    stage: WritebackStage,
    event: WritebackEvent,
    next: WritebackNext,
)
    requires
        writeback_follows(remote_url, base, wb, stage, event, next),
    ensures
        event matches WritebackEvent::Tree(tree) ==> (tree@ != wb.tree@ ==> next->Fail_0 is Infra
            && text::contains(next->Fail_0.says(), wb.tree@) && text::contains(
            next->Fail_0.says(),
            tree@,
        )),
        event == WritebackEvent::Patched(false) ==> next->Fail_0 is Infra && next->Fail_0.says()
            == "git apply of guest writeback failed (host tree changed during the run?)"@,
        event matches WritebackEvent::Failed(e) ==> (if stage == WritebackStage::Fetch {
            next->Fail_0.says() == "fetching writeback from "@ + remote_url + seq![':', ' ']
                + e.says()
        } else {
            next->Fail_0 == e
        }),
{
    reveal_strlit(": ");
    assert(": "@ =~= seq![':', ' ']);
    if let WritebackEvent::Tree(tree) = event {
        let none = Seq::<char>::empty();
        let (p, q) = ("writeback mismatch: guest reported tree "@, " but fetched "@);
        assert(mismatch(wb.tree@, tree@) =~= p + wb.tree@ + (q + tree@));
        text::what_is_contained_is_there(p, wb.tree@, q + tree@);
        assert(mismatch(wb.tree@, tree@) =~= (p + wb.tree@ + q) + tree@ + none);
        text::what_is_contained_is_there(p + wb.tree@ + q, tree@, none);
    }
}

/// Every step of a writeback may fail but the comparison, and else ends with its own result.
pub proof fn every_step_reports_its_own_result(event: WritebackEvent)
    ensures
        reports(WritebackStage::Compare, event) <==> event is Begin,
        event is Failed ==> reports(WritebackStage::Fetch, event) && reports(
            WritebackStage::FetchedTree,
            event,
        ) && reports(WritebackStage::Diff, event) && reports(WritebackStage::Apply, event),
        event is Fetched ==> reports(WritebackStage::Fetch, event),
        event is Tree ==> reports(WritebackStage::FetchedTree, event),
        event is Patch ==> reports(WritebackStage::Diff, event),
        event is Patched ==> reports(WritebackStage::Apply, event),
{
}

} // verus!
