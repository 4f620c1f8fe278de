//! What git does to a repository, as far as a sync rests on it, and what a sync
//! therefore comes to.
//!
//! Git is an outside program, so this is a model of it: trees and index files are
//! maps from paths to contents, and the calls that the rest of this module makes
//! are functions on them. A content is what git stores of a file. A path that is a
//! file in one place and a directory in another is not modelled.

use super::git::{self, Git, GitCall};
use super::guest::{self, ApplyStage};
use super::host::{self, WritebackEvent, WritebackStage};
use super::{all_calls, plans, prepare_args, tree_args, Snapshot, SnapshotPlan};
use crate::text;
use vstd::prelude::*;

verus! {

/// Files by their paths.
pub type Tree = Map<Seq<char>, Seq<u8>>;

/// What is fixed about git: which paths it ignores, given the files on disk, how it
/// names trees and commits, and what it prints and makes of patches.
pub struct Rules {
    pub ignores: spec_fn(Tree, Seq<char>) -> bool,
    pub tree_name: spec_fn(Tree) -> Seq<char>,
    /// A commit with the fixed identity, by the name of its tree and its parent.
    pub commit_name: spec_fn(Seq<char>, Option<Seq<char>>) -> Seq<char>,
    /// What `git status --porcelain` prints.
    pub status: spec_fn(Repo) -> Seq<char>,
    /// What `git diff` prints of two trees.
    pub diff: spec_fn(Tree, Tree) -> Seq<u8>,
    /// What `git apply` makes of files and a patch, if it takes the patch.
    pub apply: spec_fn(Tree, Seq<u8>) -> Option<Tree>,
    /// Whether a content is text, which a patch can carry.
    pub is_text: spec_fn(Seq<u8>) -> bool,
    /// What the change from one content to another makes of a third, if it fits.
    pub patched: spec_fn(Seq<u8>, Seq<u8>, Seq<u8>) -> Option<Seq<u8>>,
}

/// Whether a name is a hash in hexadecimal.
pub open spec fn is_hash(name: Seq<char>) -> bool {
    forall|i: int|
        0 <= i < name.len() ==> '0' <= #[trigger] name[i] <= '9' || 'a' <= name[i] <= 'f'
}

impl Rules {
    /// Different trees have different names, and so have commits of different
    /// trees: a name is a hash of what it names. A status is empty where all is in
    /// order, a difference where there is none, and a patch is made file by file.
    pub open spec fn true_to_git(self) -> bool {
        &&& forall|a: Tree, b: Tree|
            #![trigger (self.tree_name)(a), (self.tree_name)(b)]
            a.dom().finite() && b.dom().finite() && (self.tree_name)(a) == (self.tree_name)(b)
                ==> a == b
        &&& forall|t: Seq<char>, p: Option<Seq<char>>, u: Seq<char>, q: Option<Seq<char>>|
            #![trigger (self.commit_name)(t, p), (self.commit_name)(u, q)]
            (self.commit_name)(t, p) == (self.commit_name)(u, q) ==> t == u
        &&& forall|t: Seq<char>, p: Option<Seq<char>>| is_hash(#[trigger] (self.commit_name)(t, p))
        &&& forall|repo: Repo| #[trigger] (self.status)(repo).len() == 0 <==> in_order(self, repo)
        &&& forall|a: Tree, b: Tree|
            a.dom().finite() && b.dom().finite() ==> (#[trigger] (self.diff)(a, b).len() == 0
                <==> a == b)
        &&& forall|files: Tree, a: Tree, b: Tree|
            a.dom().finite() && b.dom().finite() && a != b ==> #[trigger] (self.apply)(
                files,
                (self.diff)(a, b),
            ) == patched_files(self, files, a, b)
        &&& forall|a: Seq<u8>, b: Seq<u8>|
            (self.is_text)(a) && (self.is_text)(b) ==> #[trigger] (self.patched)(a, b, a) == Some(b)
    }
}

/// A repository with its working tree.
pub struct Repo {
    pub files: Tree,
    /// The commit that is checked out.
    pub head: Option<Seq<char>>,
    /// The staging area.
    pub staged: Tree,
    /// Other index files, by their paths.
    pub indexes: Map<Seq<char>, Tree>,
    /// The trees and the commits that are stored, by their names.
    pub trees: Map<Seq<char>, Tree>,
    pub commits: Map<Seq<char>, Tree>,
    pub refs: Map<Seq<char>, Seq<char>>,
}

impl Repo {
    /// What an index file holds: nothing where there is none.
    pub open spec fn held(self, index: Option<Seq<char>>) -> Tree {
        match index {
            None => self.staged,
            Some(i) => if self.indexes.contains_key(i) {
                self.indexes[i]
            } else {
                Map::empty()
            },
        }
    }

    /// The repository with this in an index file.
    pub open spec fn with_held(self, index: Option<Seq<char>>, tree: Tree) -> Repo {
        match index {
            None => Repo { staged: tree, ..self },
            Some(i) => Repo { indexes: self.indexes.insert(i, tree), ..self },
        }
    }

    /// The files of the commit that is checked out, none where there is no commit.
    pub open spec fn at_head(self) -> Tree {
        match self.head {
            Some(h) => self.commits[h],
            None => Map::empty(),
        }
    }

    /// Whether there are only so many files, commits are named by hashes, the commit
    /// that is checked out is there, and a snapshot's commit holds the tree that it
    /// is named after.
    pub open spec fn sound(self, rules: Rules) -> bool {
        &&& self.files.dom().finite()
        &&& forall|c: Seq<char>| #[trigger]
            self.commits.contains_key(c) ==> self.commits[c].dom().finite() && is_hash(c)
        &&& self.head matches Some(h) ==> self.commits.contains_key(h)
        &&& forall|t: Seq<char>, p: Option<Seq<char>>|
            #![trigger (rules.commit_name)(t, p)]
            self.commits.contains_key((rules.commit_name)(t, p)) ==> (rules.tree_name)(
                self.commits[(rules.commit_name)(t, p)],
            ) == t
    }
}

/// What `git add -A` leaves in an index: what it held and is still on disk, and
/// what is on disk and not ignored, each as it is on disk.
pub open spec fn all_added(rules: Rules, files: Tree, held: Tree) -> Tree {
    Map::new(
        |p: Seq<char>|
            files.contains_key(p) && (held.contains_key(p) || !(rules.ignores)(files, p)),
        |p: Seq<char>| files[p],
    )
}

/// What `git add -f` of some paths leaves in an index: those as they are on disk,
/// and the others as they were.
pub open spec fn forced(files: Tree, held: Tree, paths: Seq<Seq<char>>) -> Tree {
    Map::new(
        |p: Seq<char>|
            if paths.contains(p) {
                files.contains_key(p)
            } else {
                held.contains_key(p)
            },
        |p: Seq<char>|
            if paths.contains(p) {
                files[p]
            } else {
                held[p]
            },
    )
}

/// The files that `git reset --hard` leaves: those of the commit, and what was not
/// tracked.
pub open spec fn reset_files(files: Tree, staged: Tree, tree: Tree) -> Tree {
    Map::new(
        |p: Seq<char>| tree.contains_key(p) || (files.contains_key(p) && !staged.contains_key(p)),
        |p: Seq<char>|
            if tree.contains_key(p) {
                tree[p]
            } else {
                files[p]
            },
    )
}

/// The files that `git clean -fd` leaves: what is tracked, and what is ignored.
pub open spec fn cleaned_files(rules: Rules, files: Tree, staged: Tree) -> Tree {
    Map::new(
        |p: Seq<char>|
            files.contains_key(p) && (staged.contains_key(p) || (rules.ignores)(files, p)),
        |p: Seq<char>| files[p],
    )
}

/// The parent in the arguments of `git commit-tree`.
pub open spec fn parent_in(args: Seq<Seq<char>>) -> Option<Seq<char>> {
    if args.len() == 6 {
        Some(args[5])
    } else {
        None
    }
}

/// What a call of git does to a repository, with an index file in place of the
/// staging area or without.
pub open spec fn step(
    rules: Rules,
    repo: Repo,
    index: Option<Seq<char>>,
    args: Seq<Seq<char>>,
) -> Repo {
    let held = repo.held(index);
    if args.len() == 0 {
        repo
    } else if args[0] == "read-tree"@ {
        repo.with_held(index, repo.commits[args[2]])
    } else if args[0] == "add"@ && args[1] == "-A"@ {
        repo.with_held(index, all_added(rules, repo.files, held))
    } else if args[0] == "add"@ {
        repo.with_held(index, forced(repo.files, held, args.skip(3)))
    } else if args[0] == "write-tree"@ {
        Repo { trees: repo.trees.insert((rules.tree_name)(held), held), ..repo }
    } else if args[0] == "commit-tree"@ {
        let name = (rules.commit_name)(args[1], parent_in(args));
        if repo.commits.contains_key(name) {
            repo
        } else {
            Repo { commits: repo.commits.insert(name, repo.trees[args[1]]), ..repo }
        }
    } else if args[0] == "reset"@ {
        let tree = repo.commits[args[2]];
        Repo {
            files: reset_files(repo.files, repo.staged, tree),
            head: Some(args[2]),
            staged: tree,
            ..repo
        }
    } else if args[0] == "clean"@ {
        Repo { files: cleaned_files(rules, repo.files, repo.staged), ..repo }
    } else if args[0] == "update-ref"@ {
        Repo { refs: repo.refs.insert(args[1], args[2]), ..repo }
    } else {
        repo
    }
}

/// The index file that a call is made with.
pub open spec fn index_of(env: Seq<(Seq<char>, Seq<char>)>) -> Option<Seq<char>> {
    if env.len() > 0 && env[0].0 == "GIT_INDEX_FILE"@ {
        Some(env[0].1)
    } else {
        None
    }
}

/// What a call does to the repository that it is made in.
pub open spec fn run(rules: Rules, repo: Repo, call: GitCall) -> Repo {
    step(rules, repo, index_of(git::env_views(call.env@)), text::views(call.args@))
}

/// What some calls do, one after the other.
pub open spec fn run_all(rules: Rules, repo: Repo, calls: Seq<GitCall>) -> Repo
    decreases calls.len(),
{
    if calls.len() == 0 {
        repo
    } else {
        run(rules, run_all(rules, repo, calls.drop_last()), calls.last())
    }
}

// ── Snapshots ────────────────────────────────────────────────────────────────

/// The repository with the scratch index copied afresh, where there is one.
pub open spec fn copied(repo: Repo, index: Seq<char>, scratch: Option<Seq<char>>) -> Repo {
    match scratch {
        None => repo,
        Some(s) => Repo { indexes: repo.indexes.insert(s, repo.held(Some(index))), ..repo },
    }
}

/// What the calls of a snapshot do to a repository, but for its commit.
pub open spec fn snapshotted(
    rules: Rules,
    repo: Repo,
    index: Seq<char>,
    plan: SnapshotPlan,
) -> Repo {
    let ready = copied(
        run_all(rules, repo, plan.prepare@),
        index,
        text::opt_string(plan.scratch),
    );
    run_all(rules, ready, plan.tree@)
}

/// The tree that the calls of a snapshot write.
pub open spec fn written(rules: Rules, repo: Repo, index: Seq<char>, plan: SnapshotPlan) -> Tree {
    let last = plan.tree@.last();
    snapshotted(rules, repo, index, plan).held(index_of(git::env_views(last.env@)))
}

/// What a snapshot builds on: the commit that is checked out, or, before there is
/// one, what the index holds.
pub open spec fn ground(repo: Repo, index: Seq<char>) -> Tree {
    match repo.head {
        Some(h) => repo.commits[h],
        None => repo.held(Some(index)),
    }
}

/// The files that travel: of those on disk the ones that are tracked, not ignored,
/// or forced.
pub open spec fn travelling(
    rules: Rules,
    files: Tree,
    known: Tree,
    extra: Seq<Seq<char>>,
) -> Tree {
    Map::new(
        |p: Seq<char>|
            files.contains_key(p) && (known.contains_key(p) || !(rules.ignores)(files, p)
                || extra.contains(p)),
        |p: Seq<char>| files[p],
    )
}

/// The words that tell the calls apart.
proof fn words_differ()
    ensures
        "add"@ != "read-tree"@,
        "-f"@ != "-A"@,
        "write-tree"@ != "read-tree"@,
        "write-tree"@ != "add"@,
        "commit-tree"@ != "read-tree"@,
        "commit-tree"@ != "add"@,
        "commit-tree"@ != "write-tree"@,
        "reset"@ != "read-tree"@,
        "reset"@ != "add"@,
        "reset"@ != "write-tree"@,
        "reset"@ != "commit-tree"@,
        "clean"@ != "read-tree"@,
        "clean"@ != "add"@,
        "clean"@ != "write-tree"@,
        "clean"@ != "commit-tree"@,
        "clean"@ != "reset"@,
        "update-ref"@ != "read-tree"@,
        "update-ref"@ != "add"@,
        "update-ref"@ != "write-tree"@,
        "update-ref"@ != "commit-tree"@,
        "update-ref"@ != "reset"@,
        "update-ref"@ != "clean"@,
{
    reveal_strlit("add");
    reveal_strlit("-f");
    reveal_strlit("-A");
    reveal_strlit("read-tree");
    reveal_strlit("write-tree");
    reveal_strlit("commit-tree");
    reveal_strlit("reset");
    reveal_strlit("clean");
    reveal_strlit("update-ref");
    assert("add"@.len() == 3 && "read-tree"@.len() == 9 && "commit-tree"@.len() == 11);
    assert("write-tree"@.len() == 10 && "update-ref"@.len() == 10);
    assert("reset"@.len() == 5 && "clean"@.len() == 5);
    assert("-f"@[1] == 'f' && "-A"@[1] == 'A');
    assert("reset"@[0] == 'r' && "clean"@[0] == 'c');
    assert("update-ref"@[0] == 'u' && "write-tree"@[0] == 'w');
}

proof fn preparing(
    rules: Rules,
    repo: Repo,
    cwd: Seq<char>,
    index: Seq<char>,
    ssh: Option<Seq<char>>,
    made: Seq<GitCall>,
)
    requires
        all_calls(cwd, index, ssh, prepare_args(repo.head), made),
    ensures
        run_all(rules, repo, made) == repo.with_held(
            Some(index),
            all_added(rules, repo.files, ground(repo, index)),
        ),
{
    words_differ();
    reveal_with_fuel(run_all, 3);
    let args = prepare_args(repo.head);
    let n = made.len() as int;
    let last = made.last();
    assert(made[n - 1] == last);
    assert(text::views(last.args@) == args[n - 1]);
    assert(args[n - 1] == seq!["add"@, "-A"@]);
    assert(index_of(git::env_views(last.env@)) == Some(index));
    match repo.head {
        Some(h) => {
            let first = made[0];
            assert(made.drop_last() =~= seq![first]);
            assert(seq![first].drop_last() =~= Seq::<GitCall>::empty());
            assert(text::views(first.args@) == args[0]);
            assert(args[0] == seq!["read-tree"@, "-m"@, h]);
            assert(index_of(git::env_views(first.env@)) == Some(index));
            let read = run(rules, repo, first);
            assert(read == repo.with_held(Some(index), repo.commits[h]));
            let tree = all_added(rules, repo.files, repo.commits[h]);
            assert(read.indexes.insert(index, tree) =~= repo.indexes.insert(index, tree));
        },
        None => {
            assert(made.drop_last() =~= Seq::<GitCall>::empty());
        },
    }
}

/// The repository with a tree stored.
pub open spec fn storing(rules: Rules, repo: Repo, tree: Tree) -> Repo {
    Repo { trees: repo.trees.insert((rules.tree_name)(tree), tree), ..repo }
}

proof fn writing(
    rules: Rules,
    repo: Repo,
    cwd: Seq<char>,
    index: Seq<char>,
    ssh: Option<Seq<char>>,
    extra: Seq<Seq<char>>,
    made: Seq<GitCall>,
)
    requires
        all_calls(cwd, index, ssh, tree_args(extra), made),
    ensures
        made.len() > 0,
        index_of(git::env_views(made.last().env@)) == Some(index),
        run_all(rules, repo, made) == (if extra.len() > 0 {
            let tree = forced(repo.files, repo.held(Some(index)), extra);
            storing(rules, repo.with_held(Some(index), tree), tree)
        } else {
            storing(rules, repo, repo.held(Some(index)))
        }),
{
    words_differ();
    reveal_with_fuel(run_all, 3);
    let args = tree_args(extra);
    let n = made.len() as int;
    let last = made.last();
    assert(made[n - 1] == last);
    assert(text::views(last.args@) == args[n - 1]);
    assert(args[n - 1] == seq!["write-tree"@]);
    assert(index_of(git::env_views(last.env@)) == Some(index));
    if extra.len() > 0 {
        let first = made[0];
        assert(made.drop_last() =~= seq![first]);
        assert(seq![first].drop_last() =~= Seq::<GitCall>::empty());
        assert(text::views(first.args@) == args[0]);
        assert(args[0] == seq!["add"@, "-f"@, "--"@] + extra);
        assert(args[0].skip(3) =~= extra);
        assert(index_of(git::env_views(first.env@)) == Some(index));
    } else {
        assert(made.drop_last() =~= Seq::<GitCall>::empty());
    }
}

/// A snapshot writes the files that travel: what is on disk and tracked, not
/// ignored, or forced, whatever the index held before. It leaves the files, the
/// checked-out commit, the staging area and every ref alone, and in its index no
/// trace of what was forced.
pub proof fn a_snapshot_holds_what_travels(
    rules: Rules,
    repo: Repo,
    git: Git,
    index: Seq<char>,
    extra: Seq<Seq<char>>,
    plan: SnapshotPlan,
)
    requires
        plans(git, index, repo.head, extra, plan),
    ensures
        ({
            let after = snapshotted(rules, repo, index, plan);
            let tree = written(rules, repo, index, plan);
            &&& tree == travelling(rules, repo.files, ground(repo, index), extra)
            &&& after.files == repo.files
            &&& after.head == repo.head
            &&& after.staged == repo.staged
            &&& after.commits == repo.commits
            &&& after.refs == repo.refs
            &&& after.held(Some(index)) == travelling(
                rules,
                repo.files,
                ground(repo, index),
                Seq::empty(),
            )
            &&& after.trees == repo.trees.insert((rules.tree_name)(tree), tree)
        }),
{
    let scratch = index + "-forced"@;
    let ssh = text::opt_string(git.ssh_command);
    let known = ground(repo, index);
    let plain = all_added(rules, repo.files, known);
    super::forced_files_live_once(index);
    preparing(rules, repo, git.cwd@, index, ssh, plan.prepare@);
    assert(plain =~= travelling(rules, repo.files, known, Seq::empty()));
    let ready = copied(
        run_all(rules, repo, plan.prepare@),
        index,
        text::opt_string(plan.scratch),
    );
    if extra.len() > 0 {
        writing(rules, ready, git.cwd@, scratch, ssh, extra, plan.tree@);
        assert(ready.held(Some(scratch)) == plain);
        assert(forced(repo.files, plain, extra) =~= travelling(rules, repo.files, known, extra));
    } else {
        writing(rules, ready, git.cwd@, index, ssh, extra, plan.tree@);
        assert(extra =~= Seq::empty());
    }
}

proof fn what_travels_is_finite(rules: Rules, files: Tree, known: Tree, extra: Seq<Seq<char>>)
    requires
        files.dom().finite(),
    ensures
        travelling(rules, files, known, extra).dom().finite(),
{
    let some = travelling(rules, files, known, extra).dom();
    assert(some.subset_of(files.dom()));
    vstd::set_lib::lemma_set_subset_finite(files.dom(), some);
}

/// The name of the commit that a snapshot of a tree is.
pub open spec fn commit_of(rules: Rules, tree: Tree, head: Option<Seq<char>>) -> Seq<char> {
    (rules.commit_name)((rules.tree_name)(tree), head)
}

proof fn committing(rules: Rules, repo: Repo, git: Git, tree: Tree, call: GitCall)
    requires
        rules.true_to_git(),
        repo.sound(rules),
        tree.dom().finite(),
        git::commits(git, (rules.tree_name)(tree), repo.head, call),
        repo.trees.contains_key((rules.tree_name)(tree)),
        repo.trees[(rules.tree_name)(tree)] == tree,
    ensures
        ({
            let after = run(rules, repo, call);
            let name = commit_of(rules, tree, repo.head);
            &&& after.commits.contains_key(name)
            &&& after.commits[name] == tree
            &&& after.sound(rules)
            &&& after.files == repo.files
            &&& after.head == repo.head
            &&& after.staged == repo.staged
            &&& after.indexes == repo.indexes
            &&& after.refs == repo.refs
            &&& repo.head matches Some(h) ==> after.commits[h] == repo.commits[h]
        }),
{
    words_differ();
    let id = (rules.tree_name)(tree);
    let args = text::views(call.args@);
    assert(args == git::commit_args(id, repo.head));
    assert(args[0] == "commit-tree"@ && args[1] == id);
    assert(parent_in(args) == repo.head);
    let name = (rules.commit_name)(id, repo.head);
    let after = run(rules, repo, call);
    if repo.commits.contains_key(name) {
        assert((rules.tree_name)(repo.commits[name]) == id);
    } else {
        assert(after.commits == repo.commits.insert(name, tree));
    }
}

/// Whether this is a whole snapshot: its calls, and then the commit of the tree that
/// they wrote.
pub open spec fn snapshots(
    rules: Rules,
    repo: Repo,
    git: Git,
    index: Seq<char>,
    extra: Seq<Seq<char>>,
    plan: SnapshotPlan,
    commit: GitCall,
) -> bool {
    &&& plans(git, index, repo.head, extra, plan)
    &&& exists|g: Git|
        #[trigger] git::commits(
            g,
            (rules.tree_name)(written(rules, repo, index, plan)),
            repo.head,
            commit,
        )
}

/// The repository after a whole snapshot.
pub open spec fn after_snapshot(
    rules: Rules,
    repo: Repo,
    index: Seq<char>,
    plan: SnapshotPlan,
    commit: GitCall,
) -> Repo {
    run(rules, snapshotted(rules, repo, index, plan), commit)
}

/// A whole snapshot leaves a commit that holds the tree it wrote, and nothing else
/// that a user could see: the files, the checked-out commit, the staging area and
/// the refs are as they were.
pub proof fn a_snapshot_is_its_commit(
    rules: Rules,
    repo: Repo,
    git: Git,
    index: Seq<char>,
    extra: Seq<Seq<char>>,
    plan: SnapshotPlan,
    commit: GitCall,
)
    requires
        rules.true_to_git(),
        repo.sound(rules),
        snapshots(rules, repo, git, index, extra, plan, commit),
    ensures
        ({
            let after = after_snapshot(rules, repo, index, plan, commit);
            let tree = written(rules, repo, index, plan);
            let name = commit_of(rules, tree, repo.head);
            &&& after.commits.contains_key(name)
            &&& after.commits[name] == tree
            &&& after.sound(rules)
            &&& after.files == repo.files
            &&& after.head == repo.head
            &&& after.staged == repo.staged
            &&& after.refs == repo.refs
            &&& after.at_head() == repo.at_head()
            &&& after.held(Some(index)) == travelling(
                rules,
                repo.files,
                ground(repo, index),
                Seq::empty(),
            )
        }),
{
    a_snapshot_holds_what_travels(rules, repo, git, index, extra, plan);
    let made = snapshotted(rules, repo, index, plan);
    let tree = written(rules, repo, index, plan);
    let g = choose|g: Git|
        #[trigger] git::commits(g, (rules.tree_name)(tree), repo.head, commit);
    what_travels_is_finite(rules, repo.files, ground(repo, index), extra);
    committing(rules, made, g, tree, commit);
}

/// Two snapshots of one state are one snapshot: the same tree and the same commit,
/// whatever the first left behind in the index.
pub proof fn two_snapshots_are_one(
    rules: Rules,
    repo: Repo,
    git: Git,
    index: Seq<char>,
    extra: Seq<Seq<char>>,
    plan: SnapshotPlan,
    commit: GitCall,
    again: SnapshotPlan,
)
    requires
        rules.true_to_git(),
        repo.sound(rules),
        snapshots(rules, repo, git, index, extra, plan, commit),
        plans(git, index, repo.head, extra, again),
    ensures
        ({
            let between = after_snapshot(rules, repo, index, plan, commit);
            let first = written(rules, repo, index, plan);
            let second = written(rules, between, index, again);
            &&& first == second
            &&& commit_of(rules, first, repo.head) == commit_of(rules, second, between.head)
        }),
{
    let between = after_snapshot(rules, repo, index, plan, commit);
    a_snapshot_is_its_commit(rules, repo, git, index, extra, plan, commit);
    a_snapshot_holds_what_travels(rules, repo, git, index, extra, plan);
    a_snapshot_holds_what_travels(rules, between, git, index, extra, again);
    assert(travelling(rules, repo.files, ground(between, index), extra) =~= travelling(
        rules,
        repo.files,
        ground(repo, index),
        extra,
    ));
}

/// A forced file is in the snapshot that names it, and leaves no trace: the next
/// plain snapshot is the one that a repository where it was never forced would
/// give.
pub proof fn a_forced_file_leaves_no_trace(
    rules: Rules,
    repo: Repo,
    git: Git,
    index: Seq<char>,
    extra: Seq<Seq<char>>,
    plan: SnapshotPlan,
    commit: GitCall,
    plain: SnapshotPlan,
    path: Seq<char>,
)
    requires
        rules.true_to_git(),
        repo.sound(rules),
        snapshots(rules, repo, git, index, extra, plan, commit),
        plans(git, index, repo.head, Seq::empty(), plain),
        extra.contains(path),
        repo.files.contains_key(path),
    ensures
        ({
            let between = after_snapshot(rules, repo, index, plan, commit);
            let with = written(rules, repo, index, plan);
            let next = written(rules, between, index, plain);
            &&& with.contains_key(path)
            &&& with[path] == repo.files[path]
            &&& next == written(rules, repo, index, plain)
            &&& (rules.ignores)(repo.files, path) && !ground(repo, index).contains_key(path)
                ==> !next.contains_key(path)
        }),
{
    let between = after_snapshot(rules, repo, index, plan, commit);
    a_snapshot_is_its_commit(rules, repo, git, index, extra, plan, commit);
    a_snapshot_holds_what_travels(rules, repo, git, index, extra, plan);
    a_snapshot_holds_what_travels(rules, repo, git, index, Seq::empty(), plain);
    a_snapshot_holds_what_travels(rules, between, git, index, Seq::empty(), plain);
    assert(travelling(rules, repo.files, ground(between, index), Seq::empty()) =~= travelling(
        rules,
        repo.files,
        ground(repo, index),
        Seq::empty(),
    ));
}

/// A file that is checked in travels although it is ignored, and one that is
/// ignored and not checked in does not, whatever an earlier snapshot left in the
/// index.
pub proof fn what_is_checked_in_travels(
    rules: Rules,
    repo: Repo,
    git: Git,
    index: Seq<char>,
    plan: SnapshotPlan,
    path: Seq<char>,
)
    requires
        repo.head is Some,
        plans(git, index, repo.head, Seq::empty(), plan),
        repo.files.contains_key(path),
        (rules.ignores)(repo.files, path),
    ensures
        written(rules, repo, index, plan).contains_key(path) <==> repo.at_head().contains_key(path),
{
    a_snapshot_holds_what_travels(rules, repo, git, index, Seq::empty(), plan);
}

// ── The way to a guest ───────────────────────────────────────────────────────

/// What a push brings to the repository it goes to: the commit with its tree, and
/// the ref that names it.
pub open spec fn received(remote: Repo, sender: Repo, args: Seq<Seq<char>>) -> Repo {
    let spec = args[4];
    let at = text::first_index(spec, ':');
    let commit = spec.subrange(1, at);
    Repo {
        commits: remote.commits.insert(commit, sender.commits[commit]),
        refs: remote.refs.insert(spec.skip(at + 1), commit),
        ..remote
    }
}

proof fn receiving(remote: Repo, sender: Repo, url: Seq<char>, commit: Seq<char>)
    requires
        is_hash(commit),
    ensures
        received(remote, sender, host::push_args(url, commit)) == (Repo {
            commits: remote.commits.insert(commit, sender.commits[commit]),
            refs: remote.refs.insert("refs/sync/head"@, commit),
            ..remote
        }),
{
    reveal_strlit("+");
    reveal_strlit(":refs/sync/head");
    reveal_strlit("refs/sync/head");
    assert(!commit.contains(':'));
    let spec = "+"@ + commit + ":refs/sync/head"@;
    let at = 1 + commit.len() as int;
    assert(spec[at] == ':');
    text::first_index_is_first(spec, ':');
    let found = text::first_index(spec, ':');
    if found < at {
        assert(found > 0);
        assert(spec[found] == commit[found - 1]);
    }
    assert(found == at);
    assert(spec.subrange(1, at) =~= commit);
    assert(spec.skip(at + 1) =~= "refs/sync/head"@);
}

/// A push leaves the guest with the snapshot's commit under the sync ref, runs no
/// hook of the repo, and changes none of the guest's files.
pub proof fn a_push_brings_the_snapshot(
    rules: Rules,
    remote: Repo,
    sender: Repo,
    url: Seq<char>,
    tree: Tree,
    head: Option<Seq<char>>,
)
    requires
        rules.true_to_git(),
    ensures
        ({
            let commit = commit_of(rules, tree, head);
            let args = host::push_args(url, commit);
            let after = received(remote, sender, args);
            &&& args.contains("--no-verify"@)
            &&& after.refs["refs/sync/head"@] == commit
            &&& after.commits.contains_key(commit)
            &&& after.commits[commit] == sender.commits[commit]
            &&& after.files == remote.files
        }),
{
    let commit = commit_of(rules, tree, head);
    assert(is_hash(commit));
    receiving(remote, sender, url, commit);
    assert(host::push_args(url, commit)[2] == "--no-verify"@);
}

/// What making a checkout match a commit does to its repository.
pub open spec fn applied(rules: Rules, repo: Repo, sha: Seq<char>) -> Repo {
    let reset = step(rules, repo, None, guest::apply_args(ApplyStage::Reset, sha));
    step(rules, reset, None, guest::apply_args(ApplyStage::Clean, sha))
}

/// Whether `git status` finds nothing: the staging area is the commit, the files of
/// the commit are on disk, and every other file is ignored.
pub open spec fn in_order(rules: Rules, repo: Repo) -> bool {
    &&& repo.staged == repo.at_head()
    &&& forall|p: Seq<char>|
        #[trigger] repo.staged.contains_key(p) ==> repo.files.contains_key(p) && repo.files[p]
            == repo.staged[p]
    &&& forall|p: Seq<char>|
        #[trigger] repo.files.contains_key(p) && !repo.staged.contains_key(p)
            ==> (rules.ignores)(repo.files, p)
}

/// What `git rev-parse` prints of the tree of a commit.
pub open spec fn tree_named(rules: Rules, repo: Repo, rev: Seq<char>) -> Seq<char> {
    (rules.tree_name)(
        repo.commits[commit_at(repo, rev.take(rev.len() - "^{tree}"@.len()))],
    )
}

/// The files of a checkout that count: those that are checked in, and those that are
/// not ignored.
pub open spec fn counted(rules: Rules, repo: Repo) -> Tree {
    travelling(rules, repo.files, repo.at_head(), Seq::empty())
}

proof fn applying(rules: Rules, repo: Repo, sha: Seq<char>)
    requires
        repo.commits.contains_key(sha),
    ensures
        ({
            let after = applied(rules, repo, sha);
            let tree = repo.commits[sha];
            let reset = reset_files(repo.files, repo.staged, tree);
            &&& after.head == Some(sha)
            &&& after.staged == tree
            &&& after.commits == repo.commits
            &&& after.indexes == repo.indexes
            &&& after.files == cleaned_files(rules, reset, tree)
        }),
{
    words_differ();
}

/// A checkout that a commit was applied to and that git then finds in order is that
/// commit: the files that count are exactly its tree, so that what the host deleted
/// is gone and strays are removed. Its tree is the one that is reported. Ignored
/// files that were never checked in stay.
pub proof fn a_checkout_is_its_commit(rules: Rules, repo: Repo, sha: Seq<char>, path: Seq<char>)
    requires
        repo.commits.contains_key(sha),
        in_order(rules, applied(rules, repo, sha)),
    ensures
        ({
            let after = applied(rules, repo, sha);
            let tree = repo.commits[sha];
            let reset = reset_files(repo.files, repo.staged, tree);
            &&& counted(rules, after) == tree
            &&& tree_named(rules, after, guest::apply_args(ApplyStage::Tree, sha)[1])
                == (rules.tree_name)(tree)
            &&& after.files.contains_key(path) && !(rules.ignores)(after.files, path)
                ==> tree.contains_key(path)
            &&& repo.files.contains_key(path) && !repo.staged.contains_key(path)
                && !tree.contains_key(path) && (rules.ignores)(reset, path)
                ==> after.files.contains_key(path) && after.files[path] == repo.files[path]
        }),
{
    applying(rules, repo, sha);
    let after = applied(rules, repo, sha);
    let tree = repo.commits[sha];
    assert(counted(rules, after) =~= tree);
    let rev = sha + "^{tree}"@;
    assert(rev.take(rev.len() - "^{tree}"@.len()) =~= sha);
}

/// What the steps that make a checkout match a commit print, up to the status: the
/// first two are told to be quiet.
pub open spec fn apply_prints(rules: Rules, repo: Repo, sha: Seq<char>) -> Seq<Seq<char>> {
    seq![Seq::empty(), Seq::empty(), (rules.status)(applied(rules, repo, sha))]
}

/// Whether a checkout gets as far as reporting its tree.
pub open spec fn reports_its_tree(rules: Rules, repo: Repo, sha: Seq<char>) -> bool {
    guest::apply_stage_after(apply_prints(rules, repo, sha)) == Some(ApplyStage::Tree)
}

/// A checkout gets as far as reporting its tree exactly where git finds it in order,
/// and then its files that count are exactly those of the commit; else applying
/// fails.
pub proof fn only_its_commit_is_reported(rules: Rules, repo: Repo, sha: Seq<char>)
    requires
        rules.true_to_git(),
        repo.commits.contains_key(sha),
    ensures
        reports_its_tree(rules, repo, sha) <==> in_order(rules, applied(rules, repo, sha)),
        reports_its_tree(rules, repo, sha) ==> counted(rules, applied(rules, repo, sha))
            == repo.commits[sha],
        !reports_its_tree(rules, repo, sha) ==> guest::apply_stage_after(
            apply_prints(rules, repo, sha),
        ) is None,
{
    reveal_with_fuel(guest::apply_stage_after, 5);
    let all = apply_prints(rules, repo, sha);
    let a = all.drop_last();
    let b = a.drop_last();
    assert(b.drop_last() =~= Seq::<Seq<char>>::empty());
    assert(guest::apply_stage_after(b) == Some(ApplyStage::Clean));
    assert(guest::apply_stage_after(a) == Some(ApplyStage::Status));
    if in_order(rules, applied(rules, repo, sha)) {
        a_checkout_is_its_commit(rules, repo, sha, Seq::empty());
    }
}

/// Applying a commit leaves the checkout in order wherever the strays that it
/// removes have no say in what is ignored.
pub proof fn applying_leaves_order(rules: Rules, repo: Repo, sha: Seq<char>)
    requires
        repo.commits.contains_key(sha),
        ({
            let reset = reset_files(repo.files, repo.staged, repo.commits[sha]);
            forall|p: Seq<char>|
                (rules.ignores)(reset, p) == #[trigger] (rules.ignores)(
                    applied(rules, repo, sha).files,
                    p,
                )
        }),
    ensures
        in_order(rules, applied(rules, repo, sha)),
{
    applying(rules, repo, sha);
    let after = applied(rules, repo, sha);
    let tree = repo.commits[sha];
    let reset = reset_files(repo.files, repo.staged, tree);
    assert forall|p: Seq<char>| #[trigger]
        after.files.contains_key(p) && !after.staged.contains_key(p) implies (rules.ignores)(
        after.files,
        p,
    ) by {
        assert((rules.ignores)(reset, p) == (rules.ignores)(after.files, p));
    }
}

/// The tree that is reported of a checkout that was found in order is the one that
/// the host sent, and the checkout holds exactly the files that travelled.
pub proof fn a_guest_has_what_git_sees(
    rules: Rules,
    repo: Repo,
    git: Git,
    index: Seq<char>,
    extra: Seq<Seq<char>>,
    plan: SnapshotPlan,
    commit: GitCall,
    remote: Repo,
    url: Seq<char>,
)
    requires
        rules.true_to_git(),
        repo.sound(rules),
        snapshots(rules, repo, git, index, extra, plan, commit),
        ({
            let sha = commit_of(rules, written(rules, repo, index, plan), repo.head);
            let sender = after_snapshot(rules, repo, index, plan, commit);
            let got = received(remote, sender, host::push_args(url, sha));
            reports_its_tree(rules, got, sha)
        }),
    ensures
        ({
            let sha = commit_of(rules, written(rules, repo, index, plan), repo.head);
            let sender = after_snapshot(rules, repo, index, plan, commit);
            let got = received(remote, sender, host::push_args(url, sha));
            let after = applied(rules, got, sha);
            &&& counted(rules, after) == travelling(rules, repo.files, ground(repo, index), extra)
            &&& tree_named(rules, after, guest::apply_args(ApplyStage::Tree, sha)[1])
                == (rules.tree_name)(written(rules, repo, index, plan))
        }),
{
    let tree = written(rules, repo, index, plan);
    let sha = commit_of(rules, tree, repo.head);
    let sender = after_snapshot(rules, repo, index, plan, commit);
    let got = received(remote, sender, host::push_args(url, sha));
    a_snapshot_holds_what_travels(rules, repo, git, index, extra, plan);
    a_snapshot_is_its_commit(rules, repo, git, index, extra, plan, commit);
    assert(is_hash(sha));
    receiving(remote, sender, url, sha);
    only_its_commit_is_reported(rules, got, sha);
    a_checkout_is_its_commit(rules, got, sha, Seq::empty());
}

// ── The way back ─────────────────────────────────────────────────────────────

/// Whether a checkout's files that count are those of the commit that was applied.
pub open spec fn unchanged(rules: Rules, repo: Repo) -> bool {
    &&& forall|p: Seq<char>|
        #[trigger] repo.at_head().contains_key(p) ==> repo.files.contains_key(p) && repo.files[p]
            == repo.at_head()[p]
    &&& forall|p: Seq<char>|
        #[trigger] repo.files.contains_key(p) && !repo.at_head().contains_key(p)
            ==> (rules.ignores)(repo.files, p)
}

/// The tree that a guest reports for writeback is the one that was synced exactly
/// where no file that counts was changed, added or removed since.
pub proof fn only_a_change_is_written_back(
    rules: Rules,
    repo: Repo,
    git: Git,
    index: Seq<char>,
    plan: SnapshotPlan,
)
    requires
        rules.true_to_git(),
        repo.sound(rules),
        repo.head is Some,
        plans(git, index, repo.head, Seq::empty(), plan),
    ensures
        (rules.tree_name)(written(rules, repo, index, plan)) == (rules.tree_name)(repo.at_head())
            <==> unchanged(rules, repo),
{
    a_snapshot_holds_what_travels(rules, repo, git, index, Seq::empty(), plan);
    let tree = written(rules, repo, index, plan);
    let base = repo.at_head();
    if unchanged(rules, repo) {
        assert(tree =~= base);
    }
    what_travels_is_finite(rules, repo.files, base, Seq::empty());
    if (rules.tree_name)(tree) == (rules.tree_name)(base) {
        assert(tree == base);
        assert forall|p: Seq<char>| #[trigger] base.contains_key(p) implies repo.files.contains_key(
            p,
        ) && repo.files[p] == base[p] by {
            assert(tree.contains_key(p));
        }
        assert forall|p: Seq<char>| #[trigger]
            repo.files.contains_key(p) && !base.contains_key(p) implies (rules.ignores)(
            repo.files,
            p,
        ) by {
            assert(!tree.contains_key(p));
        }
    }
}

/// A checkout that a commit was just applied to, and found in order, is unchanged.
pub proof fn an_applied_commit_is_unchanged(rules: Rules, repo: Repo, sha: Seq<char>)
    requires
        repo.commits.contains_key(sha),
        in_order(rules, applied(rules, repo, sha)),
    ensures
        unchanged(rules, applied(rules, repo, sha)),
{
    applying(rules, repo, sha);
}

/// A guest that changed nothing since a commit was applied reports the tree that it
/// was sent.
pub proof fn an_idle_guest_writes_back_nothing(
    rules: Rules,
    repo: Repo,
    sha: Seq<char>,
    git: Git,
    index: Seq<char>,
    plan: SnapshotPlan,
)
    requires
        repo.commits.contains_key(sha),
        in_order(rules, applied(rules, repo, sha)),
        plans(git, index, Some(sha), Seq::empty(), plan),
    ensures
        written(rules, applied(rules, repo, sha), index, plan) == repo.commits[sha],
{
    let after = applied(rules, repo, sha);
    applying(rules, repo, sha);
    a_checkout_is_its_commit(rules, repo, sha, Seq::empty());
    a_snapshot_holds_what_travels(rules, after, git, index, Seq::empty(), plan);
}

/// What a guest publishes is what it reports: the ref that the host fetches names
/// the commit of its snapshot.
pub proof fn a_guest_publishes_its_snapshot(
    rules: Rules,
    repo: Repo,
    git: Git,
    commit: Seq<char>,
    call: GitCall,
)
    requires
        git::calls(git, seq!["update-ref"@, "refs/sync/writeback"@, commit], call),
    ensures
        run(rules, repo, call).refs["refs/sync/writeback"@] == commit,
        run(rules, repo, call).files == repo.files,
{
    words_differ();
}

// ── The guest's changes on the host ──────────────────────────────────────────

/// A file of a tree, if it is there.
pub open spec fn at(tree: Tree, path: Seq<char>) -> Option<Seq<u8>> {
    if tree.contains_key(path) {
        Some(tree[path])
    } else {
        None
    }
}

/// What a change of a file from one state to another makes of a third: nothing where
/// it does not fit. A file that is to appear must not be there, and one that is to go
/// must be as it was.
pub open spec fn changed(
    rules: Rules,
    from: Option<Seq<u8>>,
    to: Option<Seq<u8>>,
    file: Option<Seq<u8>>,
) -> Option<Option<Seq<u8>>> {
    if from == to {
        Some(file)
    } else {
        match (from, to) {
            (Some(a), Some(b)) => match file {
                Some(c) => match (rules.patched)(a, b, c) {
                    Some(d) => Some(Some(d)),
                    None => None,
                },
                None => None,
            },
            (None, Some(b)) => if file is None && (rules.is_text)(b) {
                Some(to)
            } else {
                None
            },
            (Some(a), None) => if file == from && (rules.is_text)(a) {
                Some(to)
            } else {
                None
            },
            (None, None) => Some(file),
        }
    }
}

/// Whether the change from one tree to another fits some files: all of it.
pub open spec fn fits(rules: Rules, files: Tree, from: Tree, to: Tree) -> bool {
    forall|p: Seq<char>| #[trigger] changed(rules, at(from, p), at(to, p), at(files, p)) is Some
}

/// What the change from one tree to another makes of some files, where it fits.
pub open spec fn patched_files(rules: Rules, files: Tree, from: Tree, to: Tree) -> Option<Tree> {
    if fits(rules, files, from, to) {
        Some(
            Map::new(
                |p: Seq<char>| changed(rules, at(from, p), at(to, p), at(files, p))->0 is Some,
                |p: Seq<char>| changed(rules, at(from, p), at(to, p), at(files, p))->0->0,
            ),
        )
    } else {
        None
    }
}

/// The commit that a name stands for: itself, or what the ref of that name holds.
pub open spec fn commit_at(repo: Repo, rev: Seq<char>) -> Seq<char> {
    if repo.commits.contains_key(rev) {
        rev
    } else {
        repo.refs[rev]
    }
}

/// What a fetch brings: the commit that the other repository's ref names, under
/// `FETCH_HEAD`.
pub open spec fn fetched(repo: Repo, remote: Repo, args: Seq<Seq<char>>) -> Repo {
    let commit = remote.refs[args[3]];
    Repo {
        commits: repo.commits.insert(commit, remote.commits[commit]),
        refs: repo.refs.insert("FETCH_HEAD"@, commit),
        ..repo
    }
}

/// What a diff of two commits prints.
pub open spec fn diffed(rules: Rules, repo: Repo, args: Seq<Seq<char>>) -> Seq<u8> {
    (rules.diff)(
        repo.commits[commit_at(repo, args[1])],
        repo.commits[commit_at(repo, args[2])],
    )
}

/// What applying a patch does to a repository, and whether git took it.
pub open spec fn patch_applied(rules: Rules, repo: Repo, patch: Seq<u8>) -> (Repo, bool) {
    match (rules.apply)(repo.files, patch) {
        Some(files) => (Repo { files, ..repo }, true),
        None => (repo, false),
    }
}

/// Whether this commit is what a guest published: a snapshot's, under the ref that
/// the host fetches.
pub open spec fn publishes(rules: Rules, remote: Repo, commit: Seq<char>) -> bool {
    &&& remote.refs["refs/sync/writeback"@] == commit
    &&& remote.commits.contains_key(commit)
    &&& exists|t: Seq<char>, p: Option<Seq<char>>| commit == #[trigger] (rules.commit_name)(t, p)
}

/// The host after it fetched what a guest published.
pub open spec fn after_fetch(repo: Repo, remote: Repo, url: Seq<char>, base: Seq<char>) -> Repo {
    fetched(repo, remote, host::writeback_args(WritebackStage::Fetch, url, base))
}

/// The patch that the host computes of what it fetched.
pub open spec fn patch_of(
    rules: Rules,
    repo: Repo,
    remote: Repo,
    url: Seq<char>,
    base: Seq<char>,
) -> Seq<u8> {
    diffed(
        rules,
        after_fetch(repo, remote, url, base),
        host::writeback_args(WritebackStage::Diff, url, base),
    )
}

/// The host after it applied that patch, and whether git took it.
pub open spec fn after_writeback(
    rules: Rules,
    repo: Repo,
    remote: Repo,
    url: Seq<char>,
    base: Seq<char>,
) -> (Repo, bool) {
    patch_applied(
        rules,
        after_fetch(repo, remote, url, base),
        patch_of(rules, repo, remote, url, base),
    )
}

proof fn fetching(
    rules: Rules,
    repo: Repo,
    remote: Repo,
    url: Seq<char>,
    base: Seq<char>,
    commit: Seq<char>,
)
    requires
        rules.true_to_git(),
        repo.sound(rules),
        remote.sound(rules),
        repo.commits.contains_key(base),
        publishes(rules, remote, commit),
    ensures
        ({
            let got = after_fetch(repo, remote, url, base);
            &&& got.files == repo.files
            &&& got.head == repo.head
            &&& got.staged == repo.staged
            &&& got.commits[base] == repo.commits[base]
            &&& got.commits[commit_at(got, "FETCH_HEAD"@)] == remote.commits[commit]
            &&& patch_of(rules, repo, remote, url, base) == (rules.diff)(
                repo.commits[base],
                remote.commits[commit],
            )
        }),
{
    reveal_strlit("FETCH_HEAD");
    let got = after_fetch(repo, remote, url, base);
    let (t, p) = choose|t: Seq<char>, p: Option<Seq<char>>|
        commit == #[trigger] (rules.commit_name)(t, p);
    assert(commit == (rules.commit_name)(t, p));
    if base == commit {
        let (here, there) = (repo.commits[base], remote.commits[commit]);
        assert((rules.tree_name)(here) == t && (rules.tree_name)(there) == t);
        assert(here == there);
    }
    assert("FETCH_HEAD"@[0] == 'F');
    assert(!is_hash("FETCH_HEAD"@));
    assert(is_hash(commit));
    assert(!got.commits.contains_key("FETCH_HEAD"@));
}

/// The tree that the host asks for after a fetch is the one of the commit that the
/// guest published.
pub proof fn a_fetch_names_the_published_tree(
    rules: Rules,
    repo: Repo,
    remote: Repo,
    url: Seq<char>,
    base: Seq<char>,
    commit: Seq<char>,
)
    requires
        rules.true_to_git(),
        repo.sound(rules),
        remote.sound(rules),
        repo.commits.contains_key(base),
        publishes(rules, remote, commit),
    ensures
        tree_named(
            rules,
            after_fetch(repo, remote, url, base),
            host::writeback_args(WritebackStage::FetchedTree, url, base)[1],
        ) == (rules.tree_name)(remote.commits[commit]),
{
    fetching(rules, repo, remote, url, base, commit);
    reveal_strlit("FETCH_HEAD^{tree}");
    reveal_strlit("FETCH_HEAD");
    reveal_strlit("^{tree}");
    let asked = "FETCH_HEAD^{tree}"@;
    assert(asked.take(asked.len() - "^{tree}"@.len()) =~= "FETCH_HEAD"@);
}

/// Whether some files are as they were wherever two trees differ, and the
/// differences are in text.
pub open spec fn untouched(rules: Rules, files: Tree, from: Tree, to: Tree) -> bool {
    forall|p: Seq<char>| #[trigger]
        at(from, p) != at(to, p) ==> {
            &&& at(files, p) == at(from, p)
            &&& from.contains_key(p) ==> (rules.is_text)(from[p])
            &&& to.contains_key(p) ==> (rules.is_text)(to[p])
        }
}

/// The host gets the guest's changes: where it has not touched the files that the
/// guest changed, and those are text, the patch is taken, and each of them is then
/// as the guest published it. Every other file of the host is as it was, edited
/// meanwhile or not.
pub proof fn the_host_gets_the_guests_changes(
    rules: Rules,
    repo: Repo,
    remote: Repo,
    url: Seq<char>,
    base: Seq<char>,
    commit: Seq<char>,
    path: Seq<char>,
)
    requires
        rules.true_to_git(),
        repo.sound(rules),
        remote.sound(rules),
        repo.commits.contains_key(base),
        publishes(rules, remote, commit),
        repo.commits[base] != remote.commits[commit],
        untouched(rules, repo.files, repo.commits[base], remote.commits[commit]),
    ensures
        ({
            let (from, to) = (repo.commits[base], remote.commits[commit]);
            let (after, taken) = after_writeback(rules, repo, remote, url, base);
            &&& patch_of(rules, repo, remote, url, base).len() > 0
            &&& taken
            &&& at(from, path) != at(to, path) ==> at(after.files, path) == at(to, path)
            &&& at(from, path) == at(to, path) ==> at(after.files, path) == at(repo.files, path)
        }),
{
    fetching(rules, repo, remote, url, base, commit);
    let (from, to) = (repo.commits[base], remote.commits[commit]);
    let got = after_fetch(repo, remote, url, base);
    let patch = (rules.diff)(from, to);
    assert((rules.apply)(got.files, patch) == patched_files(rules, got.files, from, to));
    assert forall|p: Seq<char>| #[trigger]
        changed(rules, at(from, p), at(to, p), at(got.files, p)) is Some by {
        if at(from, p) != at(to, p) {
            assert(at(repo.files, p) == at(from, p));
        }
    }
    assert(fits(rules, got.files, from, to));
    if at(from, path) != at(to, path) {
        assert(at(repo.files, path) == at(from, path));
    }
    assert(changed(rules, at(from, path), at(to, path), at(got.files, path)) is Some);
}

/// Whatever the host has edited meanwhile in files that the guest did not change
/// survives, whether or not the patch is taken. It is taken exactly where all of it
/// fits, and one that is not taken changes nothing. The checked-out commit and the
/// staging area stay as they are either way.
pub proof fn other_edits_survive(
    rules: Rules,
    repo: Repo,
    remote: Repo,
    url: Seq<char>,
    base: Seq<char>,
    commit: Seq<char>,
    path: Seq<char>,
)
    requires
        rules.true_to_git(),
        repo.sound(rules),
        remote.sound(rules),
        repo.commits.contains_key(base),
        publishes(rules, remote, commit),
        repo.commits[base] != remote.commits[commit],
    ensures
        ({
            let (from, to) = (repo.commits[base], remote.commits[commit]);
            let (after, taken) = after_writeback(rules, repo, remote, url, base);
            &&& at(from, path) == at(to, path) ==> at(after.files, path) == at(repo.files, path)
            &&& taken <==> fits(rules, repo.files, from, to)
            &&& !taken ==> after.files == repo.files
            &&& after.head == repo.head
            &&& after.staged == repo.staged
        }),
{
    fetching(rules, repo, remote, url, base, commit);
    let (from, to) = (repo.commits[base], remote.commits[commit]);
    let patch = (rules.diff)(from, to);
    assert((rules.apply)(repo.files, patch) == patched_files(rules, repo.files, from, to));
    if fits(rules, repo.files, from, to) {
        assert(changed(rules, at(from, path), at(to, path), at(repo.files, path)) is Some);
    }
}

/// Whether a history is what git reports of a writeback up to its patch.
pub open spec fn git_reports(
    rules: Rules,
    repo: Repo,
    remote: Repo,
    url: Seq<char>,
    base: Seq<char>,
    history: Seq<WritebackEvent>,
) -> bool {
    let named = tree_named(
        rules,
        after_fetch(repo, remote, url, base),
        host::writeback_args(WritebackStage::FetchedTree, url, base)[1],
    );
    &&& history.len() == 4
    &&& history[0] is Begin
    &&& history[1] is Fetched
    &&& history[2] matches WritebackEvent::Tree(tree) && tree@ == named
    &&& history[3] matches WritebackEvent::Patch(patch) && patch@ == patch_of(
        rules,
        repo,
        remote,
        url,
        base,
    )
}

/// What a guest changed reaches the host. The guest was sent the commit `base`, and
/// snapshots and publishes what it made of it. Where it changed no file that counts,
/// the writeback is over at once. Where it did, the writeback goes through to its
/// patch, and, where the host has not touched the same files and they are text,
/// every file that counts and that the guest changed, added or removed is then on
/// the host as it is on the guest, and every other file of the host is as it was.
pub proof fn a_change_reaches_the_host(
    rules: Rules,
    repo: Repo,
    guest: Repo,
    git: Git,
    index: Seq<char>,
    plan: SnapshotPlan,
    commit: GitCall,
    publish: GitCall,
    url: Seq<char>,
    base: Snapshot,
    reported: Snapshot,
    history: Seq<WritebackEvent>,
    path: Seq<char>,
)
    requires
        rules.true_to_git(),
        repo.sound(rules),
        guest.sound(rules),
        guest.head == Some(base.commit@),
        repo.commits.contains_key(base.commit@),
        repo.commits[base.commit@] == guest.at_head(),
        base.tree@ == (rules.tree_name)(guest.at_head()),
        snapshots(rules, guest, git, index, Seq::empty(), plan, commit),
        reported.tree@ == (rules.tree_name)(written(rules, guest, index, plan)),
        git::calls(
            git,
            seq![
                "update-ref"@,
                "refs/sync/writeback"@,
                commit_of(rules, written(rules, guest, index, plan), guest.head),
            ],
            publish,
        ),
        git_reports(
            rules,
            repo,
            run(rules, after_snapshot(rules, guest, index, plan, commit), publish),
            url,
            base.commit@,
            history,
        ),
    ensures
        ({
            let remote = run(rules, after_snapshot(rules, guest, index, plan, commit), publish);
            let from = guest.at_head();
            let to = travelling(rules, guest.files, from, Seq::empty());
            let (after, taken) = after_writeback(rules, repo, remote, url, base.commit@);
            &&& unchanged(rules, guest) <==> host::stage_after(base, reported, history.take(1))
                is None
            &&& !unchanged(rules, guest) ==> host::stage_after(base, reported, history) == Some(
                WritebackStage::Apply,
            )
            &&& !unchanged(rules, guest) && untouched(rules, repo.files, from, to) ==> taken
                && at(after.files, path) == (if at(from, path) != at(to, path) {
                at(to, path)
            } else {
                at(repo.files, path)
            })
        }),
{
    let made = after_snapshot(rules, guest, index, plan, commit);
    let remote = run(rules, made, publish);
    let from = guest.at_head();
    let to = written(rules, guest, index, plan);
    let sha = commit_of(rules, to, guest.head);
    a_snapshot_holds_what_travels(rules, guest, git, index, Seq::empty(), plan);
    a_snapshot_is_its_commit(rules, guest, git, index, Seq::empty(), plan, commit);
    a_guest_publishes_its_snapshot(rules, made, git, sha, publish);
    assert(remote.commits == made.commits && remote.head == made.head) by {
        words_differ();
    }
    assert(remote.sound(rules));
    assert(sha == (rules.commit_name)((rules.tree_name)(to), guest.head));
    assert(publishes(rules, remote, sha));
    only_a_change_is_written_back(rules, guest, git, index, plan);
    a_fetch_names_the_published_tree(rules, repo, remote, url, base.commit@, sha);
    fetching(rules, repo, remote, url, base.commit@, sha);
    reveal_with_fuel(host::stage_after, 6);
    let (h3, h2, h1) = (history.take(3), history.take(2), history.take(1));
    assert(history.drop_last() =~= h3);
    assert(h3.drop_last() =~= h2);
    assert(h2.drop_last() =~= h1);
    assert(h1.drop_last() =~= Seq::<WritebackEvent>::empty());
    if !unchanged(rules, guest) {
        what_travels_is_finite(rules, guest.files, from, Seq::empty());
        assert(from != to);
        assert((rules.diff)(from, to).len() > 0);
        if untouched(rules, repo.files, from, to) {
            the_host_gets_the_guests_changes(rules, repo, remote, url, base.commit@, sha, path);
        }
    }
}

} // verus!
