//! Git-object sync: the host working tree is the source of truth.
//!
//! The dirty working tree becomes a commit object without touching the real
//! index, the objects go to the guest's own repository, and the guest resets to
//! the commit. A sync is proven by equality of tree hashes.

pub mod git;
pub mod guest;
pub mod host;
pub mod model;

use crate::config;
use crate::exit::{infra, Failure};
use crate::json::{self, Printed};
use crate::text;
use git::{owned, Git, GitCall};
use vstd::prelude::*;

verus! {

/// A snapshot of a working tree as unreferenced git objects.
#[derive(Debug, PartialEq, Eq)]
pub struct Snapshot {
    pub commit: String,
    pub tree: String,
}

/// The fields that a text gives of a snapshot, or what is wrong with it.
pub open spec fn snapshot_in(text: Seq<char>) -> Result<Seq<(Seq<char>, Seq<char>)>, Seq<char>> {
    json::record_in(text, "Snapshot"@, seq!["commit"@, "tree"@], 2, false)
}

/// What is wrong with the text of a snapshot, if anything.
pub open spec fn snapshot_trouble(text: Seq<char>) -> Option<Seq<char>> {
    match snapshot_in(text) {
        Err(e) => Some(e),
        Ok(fields) => if json::text_field(fields, "commit"@) is Err {
            Some(json::text_field(fields, "commit"@)->Err_0)
        } else if json::text_field(fields, "tree"@) is Err {
            Some(json::text_field(fields, "tree"@)->Err_0)
        } else {
            None
        },
    }
}

/// Whether a text is that of a snapshot.
pub open spec fn snapshot_reads_as(text: Seq<char>, snap: Snapshot) -> bool {
    snapshot_in(text) matches Ok(fields) && json::ok(
        json::text_field(fields, "commit"@),
        snap.commit@,
    ) && json::ok(json::text_field(fields, "tree"@), snap.tree@)
}

/// The texts of the fields of a snapshot, in their order.
pub open spec fn snapshot_fields(snap: Snapshot) -> Seq<(Seq<char>, Seq<char>)> {
    seq![("commit"@, json::string_text(snap.commit@)), ("tree"@, json::string_text(snap.tree@))]
}

/// Whether this is what is made of a guest's reply.
pub open spec fn snapshot_received(reply: Seq<char>, r: Result<Snapshot, Failure>) -> bool {
    match r {
        Ok(snap) => snapshot_trouble(reply) is None && snapshot_reads_as(reply, snap),
        Err(e) => e is Infra && (snapshot_trouble(reply) matches Some(why) && e.says()
            == "parsing _tree reply: "@ + why),
    }
}

impl Snapshot {
    /// The snapshot that a guest reported, or what is wrong with its reply.
    pub fn read_from(reply: &str) -> (r: Result<Snapshot, Failure>)
        ensures
            snapshot_received(reply@, r),
    {
        let keys: [&str; 2] = ["commit", "tree"];
        assert(text::str_views(keys@) =~= seq!["commit"@, "tree"@]);
        let read: Result<Snapshot, String> = match json::read_record(
            reply,
            "Snapshot",
            &keys,
            2,
            false,
        ) {
            Err(e) => Err(e),
            Ok(fields) => match json::need_text(&fields, "commit") {
                Err(e) => Err(e),
                Ok(commit) => match json::need_text(&fields, "tree") {
                    Err(e) => Err(e),
                    Ok(tree) => Ok(Snapshot { commit, tree }),
                },
            },
        };
        match read {
            Ok(snap) => Ok(snap),
            Err(why) => {
                let mut msg = "parsing _tree reply: ".to_owned();
                msg.append(why.as_str());
                Err(infra(msg))
            },
        }
    }

    /// The snapshot that a guest reported, where a parse into a typed record took its
    /// reply. Where it did not, its complaint stands: it says where in the reply it is.
    pub fn read_placed(reply: &str, typed: Result<(), String>) -> (r: Result<Snapshot, Failure>)
        ensures
            match typed {
                Ok(_) => snapshot_received(reply@, r),
                Err(why) => r matches Err(e) && e is Infra && e.says()
                    == "parsing _tree reply: "@ + why@,
            },
    {
        match typed {
            Ok(_) => Snapshot::read_from(reply),
            Err(why) => {
                let mut msg = "parsing _tree reply: ".to_owned();
                msg.append(why.as_str());
                Err(infra(msg))
            },
        }
    }

    /// The reply that reports the snapshot, on one line.
    pub fn write_to(&self) -> (r: String)
        ensures
            r@ == json::object_text(snapshot_fields(*self)),
            snapshot_reads_as(r@, *self),
            json::one_line(r@),
    {
        let commit: Printed = json::print_string(self.commit.as_str());
        let tree: Printed = json::print_string(self.tree.as_str());
        let mut fields: Vec<(String, Printed)> = Vec::new();
        fields.push(("commit".to_owned(), commit));
        fields.push(("tree".to_owned(), tree));
        proof {
            let laid = snapshot_fields(*self);
            assert(json::field_views(fields@) =~= laid);
            reveal_strlit("commit");
            reveal_strlit("tree");
            assert("commit"@[0] == 'c' && "tree"@[0] == 't');
            json::field_at(laid, 0);
            json::field_at(laid, 1);
            json::distinct_never_repeat(laid, seq!["commit"@, "tree"@]);
        }
        json::print_fields(&fields)
    }
}

/// What is written for a snapshot is received as that snapshot.
pub proof fn a_snapshot_reads_back(
    sent: Snapshot,
    reply: Seq<char>,
    r: Result<Snapshot, Failure>,
)
    requires
        snapshot_reads_as(reply, sent),
        snapshot_received(reply, r),
    ensures
        r matches Ok(got) && got.commit@ == sent.commit@ && got.tree@ == sent.tree@,
{
}

/// The git calls of a snapshot. The last of `tree` prints the tree; the commit
/// is then made of it.
#[derive(Debug)]
pub struct SnapshotPlan {
    /// What brings the persistent index up to date.
    pub prepare: Vec<GitCall>,
    /// The copy of the index that forced files go into, where there are any. It
    /// is copied afresh between the two lists of calls.
    pub scratch: Option<String>,
    /// What writes the tree.
    pub tree: Vec<GitCall>,
}

/// The calls that bring the persistent index up to date. The checked-out commit is
/// read into it each time: a file that is tracked travels although it is ignored,
/// and one that no longer is does not, whenever that changed. What the index knows
/// of files that are as they were committed is kept.
pub open spec fn prepare_args(head: Option<Seq<char>>) -> Seq<Seq<Seq<char>>> {
    (match head {
        Some(h) => seq![seq!["read-tree"@, "-m"@, h]],
        None => Seq::empty(),
    }) + seq![seq!["add"@, "-A"@]]
}

/// The calls that write the tree.
pub open spec fn tree_args(extra: Seq<Seq<char>>) -> Seq<Seq<Seq<char>>> {
    (if extra.len() > 0 {
        seq![seq!["add"@, "-f"@, "--"@] + extra]
    } else {
        Seq::empty()
    }) + seq![seq!["write-tree"@]]
}

/// Whether each of `made` is the call with those arguments, in the directory of
/// `git`, with this index file.
pub open spec fn all_calls(
    cwd: Seq<char>,
    index: Seq<char>,
    ssh_command: Option<Seq<char>>,
    args: Seq<Seq<Seq<char>>>,
    made: Seq<GitCall>,
) -> bool {
    made.len() == args.len() && forall|i: int|
        0 <= i < made.len() ==> {
            &&& (#[trigger] made[i]).cwd@ == cwd
            &&& text::views(made[i].args@) == args[i]
            &&& git::env_views(made[i].env@) == seq![("GIT_INDEX_FILE"@, index)] + (
            match ssh_command {
                Some(s) => seq![("GIT_SSH_COMMAND"@, s)],
                None => Seq::empty(),
            })
        }
}

/// Whether these are the calls that snapshot the working tree of `git`'s directory
/// through this index, with `extra` forced in.
pub open spec fn plans(
    git: Git,
    index: Seq<char>,
    head: Option<Seq<char>>,
    extra: Seq<Seq<char>>,
    plan: SnapshotPlan,
) -> bool {
    let scratch = index + "-forced"@;
    let ssh = text::opt_string(git.ssh_command);
    &&& all_calls(git.cwd@, index, ssh, prepare_args(head), plan.prepare@)
    &&& text::opt_string(plan.scratch) == (if extra.len() > 0 {
        Some(scratch)
    } else {
        None
    })
    &&& all_calls(
        git.cwd@,
        if extra.len() > 0 {
            scratch
        } else {
            index
        },
        ssh,
        tree_args(extra),
        plan.tree@,
    )
}

/// The git calls that snapshot the working tree of `git`'s directory, given the
/// path of the persistent index, the checked-out commit, and the paths to force in
/// although they are ignored.
///
/// Forced files live for one snapshot: they go into a scratch copy of the index,
/// never into the index itself.
pub fn snapshot(git: &Git, index: &str, head: Option<&str>, extra: &[String]) -> (r: SnapshotPlan)
    ensures
        plans(*git, index@, text::opt(head), text::views(extra@), r),
{
    let g: Git = git.with_index(index);
    let mut prepare: Vec<GitCall> = Vec::new();
    if let Some(h) = head {
        let args = owned(&["read-tree", "-m", h]);
        assert(text::views(args@) =~= seq!["read-tree"@, "-m"@, h@]);
        prepare.push(g.command(args));
    }
    let add = owned(&["add", "-A"]);
    assert(text::views(add@) =~= seq!["add"@, "-A"@]);
    prepare.push(g.command(add));
    let mut tree: Vec<GitCall> = Vec::new();
    let write = owned(&["write-tree"]);
    assert(text::views(write@) =~= seq!["write-tree"@]);
    if extra.len() == 0 {
        tree.push(g.command(write));
        assert(text::views(extra@).len() == 0);
        return SnapshotPlan { prepare, scratch: None, tree };
    }
    let mut scratch = index.to_owned();
    scratch.append("-forced");
    let s: Git = git.with_index(scratch.as_str());
    let mut args: Vec<String> = owned(&["add", "-f", "--"]);
    let ghost all = text::views(extra@);
    let ghost lead = seq!["add"@, "-f"@, "--"@];
    let mut i: usize = 0;
    assert(text::views(args@) =~= lead + all.take(0));
    while i < extra.len()
        invariant
            i <= extra@.len(),
            all == text::views(extra@),
            text::views(args@) == lead + all.take(i as int),
        decreases extra@.len() - i,
    {
        let ghost before = args@;
        let arg = extra[i].as_str().to_owned();
        args.push(arg);
        assert(text::views(args@) =~= text::views(before).push(arg@));
        assert(all.take(i + 1) =~= all.take(i as int).push(all[i as int]));
        i = i + 1;
    }
    assert(all.take(i as int) =~= all);
    tree.push(s.command(args));
    tree.push(s.command(write));
    SnapshotPlan { prepare, scratch: Some(scratch), tree }
}

/// How copying the index to the scratch file went.
#[derive(Debug, Clone, Copy, PartialEq, Eq, Structural)]
pub enum Copied {
    Done,
    /// There is no index yet: nothing was added in a fresh repo.
    NothingToCopy,
    Failed,
}

/// What to do before files are forced into the scratch index.
#[derive(Debug, Clone, Copy, PartialEq, Eq, Structural)]
pub enum Scratch {
    Use,
    /// What an earlier run left has to go first.
    RemoveStale,
    GiveUp,
}

/// What to do about the scratch index after the copy. It starts from the copy,
/// or from nothing: never from what an earlier run left.
pub fn tree_with_forced(copied: Copied, scratch_exists: bool) -> (r: Scratch)
    ensures
        r == (match copied {
            Copied::Done => Scratch::Use,
            Copied::NothingToCopy => if scratch_exists {
                Scratch::RemoveStale
            } else {
                Scratch::Use
            },
            Copied::Failed => Scratch::GiveUp,
        }),
{
    match copied {
        Copied::Done => Scratch::Use,
        Copied::NothingToCopy => if scratch_exists {
            Scratch::RemoveStale
        } else {
            Scratch::Use
        },
        Copied::Failed => Scratch::GiveUp,
    }
}

/// A home-relative path: what follows the tilde.
pub open spec fn below_home(path: Seq<char>) -> Option<Seq<char>> {
    if text::starts_with(path, "~/"@) || text::starts_with(path, "~\\"@) {
        Some(path.skip(2))
    } else {
        None
    }
}

/// The home directory: `HOME`, else `USERPROFILE`.
pub open spec fn home_of(home: Option<Seq<char>>, profile: Option<Seq<char>>) -> Option<Seq<char>> {
    if home is Some {
        home
    } else {
        profile
    }
}

/// `path` with a leading `~/` replaced by the home directory. An absolute path
/// after the tilde stands for itself.
pub fn expand_home(path: &str, home: Option<&str>, profile: Option<&str>) -> (r: Result<
    String,
    Failure,
>)
    ensures
        match below_home(path@) {
            None => r matches Ok(p) && p@ == path@,
            Some(rest) => match home_of(text::opt(home), text::opt(profile)) {
                Some(h) => r matches Ok(p) && p@ == (if rest.len() > 0 && rest[0] == '/' {
                    rest
                } else {
                    config::path_below(h, rest)
                }),
                None => r matches Err(e) && e is Infra && e.says()
                    == "cannot expand '~': no HOME or USERPROFILE set"@,
            },
        },
{
    proof {
        reveal_strlit("~/");
        reveal_strlit("~\\");
    }
    let rest: String = match text::strip_prefix(path, "~/") {
        Some(rest) => rest,
        None => match text::strip_prefix(path, "~\\") {
            Some(rest) => rest,
            None => {
                return Ok(path.to_owned());
            },
        },
    };
    let base: &str = match home {
        Some(h) => h,
        None => match profile {
            Some(p) => p,
            None => {
                return Err(infra("cannot expand '~': no HOME or USERPROFILE set".to_owned()));
            },
        },
    };
    let v: Vec<char> = text::chars_of(rest.as_str());
    if v.len() > 0 && v[0] == '/' {
        return Ok(rest);
    }
    Ok(config::below(base, rest.as_str()))
}

/// A snapshot never touches the staging area: each of its calls works on another
/// index file.
pub proof fn staging_area_is_untouched(
    cwd: Seq<char>,
    index: Seq<char>,
    ssh: Option<Seq<char>>,
    args: Seq<Seq<Seq<char>>>,
    made: Seq<GitCall>,
    i: int,
)
    requires
        all_calls(cwd, index, ssh, args, made),
        0 <= i < made.len(),
    ensures
        git::env_views(made[i].env@)[0] == ("GIT_INDEX_FILE"@, index),
{
}

/// Forced files never reach the persistent index: the scratch file is another
/// one.
pub proof fn forced_files_live_once(index: Seq<char>)
    ensures
        index + "-forced"@ != index,
{
    reveal_strlit("-forced");
    assert((index + "-forced"@).len() != index.len());
}

/// A path below the home is told by its tilde and either slash, and what stands behind
/// them is kept; any other path is none. The home is the one that is set, and the profile
/// stands in for it where it is not.
pub proof fn a_tilde_stands_for_the_home(rest: Seq<char>, home: Seq<char>, profile: Seq<char>)
    ensures
        below_home(seq!['~', '/'] + rest) == Some(rest),
        below_home(seq!['~', '\\'] + rest) == Some(rest),
        rest.len() == 0 || rest[0] != '~' ==> below_home(rest) is None,
        home_of(Some(home), Some(profile)) == Some(home),
        home_of(Some(home), None) == Some(home),
        home_of(None, Some(profile)) == Some(profile),
        home_of(None, None) is None,
{
    reveal_strlit("~/");
    reveal_strlit("~\\");
    let (a, b) = (seq!['~', '/'] + rest, seq!['~', '\\'] + rest);
    assert(a.take(2) =~= "~/"@);
    assert(b.take(2) =~= "~\\"@);
    assert(a.skip(2) =~= rest);
    assert(b.skip(2) =~= rest);
    if rest.len() == 0 || rest[0] != '~' {
        if text::starts_with(rest, "~/"@) {
            assert(rest.take(2)[0] == '~');
        }
        if text::starts_with(rest, "~\\"@) {
            assert(rest.take(2)[0] == '~');
        }
    }
}

/// A snapshot is prepared from the commit that is checked out, where there is one, and
/// everything that git sees is added; the files that are forced are added to a copy, and
/// named to git behind `--`.
pub proof fn a_snapshot_adds_what_is_there(head: Seq<char>, extra: Seq<Seq<char>>)
    ensures
        prepare_args(Some(head)) == seq![
            seq!["read-tree"@, "-m"@, head],
            seq!["add"@, "-A"@],
        ],
        prepare_args(None) == seq![seq!["add"@, "-A"@]],
        tree_args(Seq::empty()) == seq![seq!["write-tree"@]],
        extra.len() > 0 ==> tree_args(extra) == seq![
            seq!["add"@, "-f"@, "--"@] + extra,
            seq!["write-tree"@],
        ],
{
}

/// A snapshot is read from the two fields that bear these names, and written under them.
pub proof fn a_snapshot_is_read_by_its_fields(
    text: Seq<char>,
    fields: Seq<(Seq<char>, Seq<char>)>,
    i: int,
    j: int,
    snap: Snapshot,
)
    requires
        json::ok(json::members_in(text), fields),
        json::distinct(fields),
        0 <= i < fields.len(),
        0 <= j < fields.len(),
        fields[i].0 == "commit"@,
        fields[j].0 == "tree"@,
    ensures
        snapshot_reads_as(text, snap) <==> json::ok(json::string_in(fields[i].1), snap.commit@)
            && json::ok(json::string_in(fields[j].1), snap.tree@),
        snapshot_trouble(text) is None <==> json::string_in(fields[i].1) is Ok && json::string_in(
            fields[j].1,
        ) is Ok,
        snapshot_fields(snap) == seq![
            ("commit"@, json::string_text(snap.commit@)),
            ("tree"@, json::string_text(snap.tree@)),
        ],
{
    json::field_at(fields, i);
    json::field_at(fields, j);
    json::distinct_never_repeat(fields, seq!["commit"@, "tree"@]);
}

/// Every call of a snapshot is made in the repo, with its own arguments, and with the index
/// and the ssh command that it is given and nothing else.
pub proof fn every_call_is_made_in_the_repo(
    cwd: Seq<char>,
    index: Seq<char>,
    ssh: Option<Seq<char>>,
    args: Seq<Seq<Seq<char>>>,
    made: Seq<GitCall>,
    i: int,
)
    requires
        all_calls(cwd, index, ssh, args, made),
        0 <= i < args.len(),
    ensures
        made.len() == args.len(),
        made[i].cwd@ == cwd,
        text::views(made[i].args@) == args[i],
        ssh is None ==> git::env_views(made[i].env@) == seq![("GIT_INDEX_FILE"@, index)],
        ssh matches Some(s) ==> git::env_views(made[i].env@) == seq![
            ("GIT_INDEX_FILE"@, index),
            ("GIT_SSH_COMMAND"@, s),
        ],
{
}

/// A snapshot works on its own index, and files that are forced go into a copy of it, which
/// is there exactly where there are such files.
pub proof fn forced_files_have_their_own_index(
    git: Git,
    index: Seq<char>,
    head: Option<Seq<char>>,
    extra: Seq<Seq<char>>,
    plan: SnapshotPlan,
)
    requires
        plans(git, index, head, extra, plan),
    ensures
        extra.len() == 0 ==> plan.scratch is None,
        extra.len() > 0 ==> (plan.scratch matches Some(s) && s@ == index + "-forced"@),
        plan.prepare@.len() == (if head is Some {
            2int
        } else {
            1
        }),
        plan.tree@.len() == (if extra.len() > 0 {
            2int
        } else {
            1
        }),
        forall|i: int|
            0 <= i < plan.prepare@.len() ==> git::env_views((#[trigger] plan.prepare@[i]).env@)[0]
                == ("GIT_INDEX_FILE"@, index),
        forall|i: int|
            0 <= i < plan.tree@.len() ==> git::env_views((#[trigger] plan.tree@[i]).env@)[0] == (
                "GIT_INDEX_FILE"@,
                if extra.len() > 0 {
                    index + "-forced"@
                } else {
                    index
                },
            ),
{
}

/// A snapshot may be given as a list too, in the order of its fields, and of just as many.
pub proof fn a_snapshot_may_be_a_list(text: Seq<char>, items: Seq<Seq<char>>, snap: Snapshot)
    requires
        json::members_in(text) is Err,
        json::ok(json::elements_in(text), items),
    ensures
        items.len() != 2 ==> snapshot_trouble(text) is Some,
        items.len() == 2 ==> (snapshot_reads_as(text, snap) <==> json::ok(
            json::string_in(items[0]),
            snap.commit@,
        ) && json::ok(json::string_in(items[1]), snap.tree@)),
{
    reveal_strlit("commit");
    reveal_strlit("tree");
    if items.len() == 2 {
        let keys = seq!["commit"@, "tree"@];
        let fields = json::under_keys(keys, items);
        assert("commit"@[0] == 'c' && "tree"@[0] == 't');
        assert(fields[0] == (keys[0], items[0]) && fields[1] == (keys[1], items[1]));
        assert(json::distinct(fields));
        json::field_at(fields, 0);
        json::field_at(fields, 1);
    }
}

} // verus!
