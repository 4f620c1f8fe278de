//! Syncing a checkout, and bringing its changes back.

use vm::exit::Failure;
use vm::process::Output;
use vm::sync::git::{Git, GitCall};
use vm::sync::guest::{self, Applied, ApplyStage, WRITEBACK_INDEX};
use vm::sync::host::{
    self, apply_writeback, index_name, lock_sync, pushed, sync_to, waiting_for_sync,
    writeback_call, WritebackEvent, WritebackNext, WritebackStage,
};
use vm::sync::{expand_home, snapshot, tree_with_forced, Copied, Scratch, Snapshot};

fn strings(v: &[&str]) -> Vec<String> {
    v.iter().map(|s| s.to_string()).collect()
}

fn args(calls: &[GitCall]) -> Vec<String> {
    calls.iter().map(|c| c.args.join(" ")).collect()
}

fn index_of(call: &GitCall) -> &str {
    assert_eq!(call.env[0].0, "GIT_INDEX_FILE");
    call.env[0].1.as_str()
}

fn base() -> Snapshot {
    Snapshot {
        commit: "c0".into(),
        tree: "t0".into(),
    }
}

fn changed() -> Snapshot {
    Snapshot {
        commit: "c1".into(),
        tree: "t1".into(),
    }
}

#[test]
fn expand_home_leaves_absolute_paths() {
    assert_eq!(expand_home("/abs/path", Some("/h"), None).unwrap(), "/abs/path");
    assert_eq!(expand_home(r"C:\work", Some("/h"), None).unwrap(), r"C:\work");
}

#[test]
fn expand_home_expands_tilde() {
    let p = expand_home("~/work/repo", Some("/home/me"), None).unwrap();
    assert!(!p.contains('~'));
    assert!(p.ends_with("work/repo"));
    assert_eq!(p, "/home/me/work/repo");
    assert_eq!(expand_home(r"~\work", None, Some("/u")).unwrap(), "/u/work");
    let err = expand_home("~/work", None, None).unwrap_err();
    assert_eq!(err.text(), "cannot expand '~': no HOME or USERPROFILE set");
}

#[test]
fn staging_area_is_untouched() {
    let git = Git::in_dir("/repo");
    for extra in [strings(&[]), strings(&[".env"])] {
        let plan = snapshot(&git, "/g/vm-index", Some("abc"), &extra);
        for call in plan.prepare.iter().chain(&plan.tree) {
            assert!(index_of(call).starts_with("/g/vm-index"), "{call:?}");
            assert_eq!(call.cwd, "/repo");
        }
    }
}

#[test]
fn tracked_but_ignored_files_survive_snapshot() {
    let git = Git::in_dir("/repo");
    // The commit is read each time, so it does not matter when a file was tracked.
    for _ in 0..2 {
        let plan = snapshot(&git, "/g/i", Some("abc"), &[]);
        assert_eq!(args(&plan.prepare), ["read-tree -m abc", "add -A"]);
        assert_eq!(args(&plan.tree), ["write-tree"]);
    }
}

#[test]
fn sync_works_in_repo_with_no_commits() {
    let git = Git::in_dir("/repo");
    let plan = snapshot(&git, "/g/i", None, &[]);
    assert_eq!(args(&plan.prepare), ["add -A"]);
    let commit = git.commit_tree("t0", None);
    assert_eq!(commit.args, ["commit-tree", "t0", "-m", "vm sync snapshot"]);
}

#[test]
fn several_files_can_be_forced_at_once() {
    let git = Git::in_dir("/repo");
    let plan = snapshot(&git, "/g/i", None, &strings(&[".env", ".env.local"]));
    assert_eq!(args(&plan.tree), ["add -f -- .env .env.local", "write-tree"]);
}

#[test]
fn forcing_a_file_does_not_pollute_later_snapshots() {
    let git = Git::in_dir("/repo");
    let plan = snapshot(&git, "/g/i", None, &strings(&[".env"]));
    assert_eq!(plan.scratch.as_deref(), Some("/g/i-forced"));
    for call in &plan.prepare {
        assert_eq!(index_of(call), "/g/i");
    }
    for call in &plan.tree {
        assert_eq!(index_of(call), "/g/i-forced");
    }
    assert_eq!(snapshot(&git, "/g/i", None, &[]).scratch, None);
}

#[test]
fn a_scratch_index_never_starts_from_an_earlier_run() {
    assert_eq!(tree_with_forced(Copied::Done, true), Scratch::Use);
    assert_eq!(tree_with_forced(Copied::NothingToCopy, true), Scratch::RemoveStale);
    assert_eq!(tree_with_forced(Copied::NothingToCopy, false), Scratch::Use);
    assert_eq!(tree_with_forced(Copied::Failed, false), Scratch::GiveUp);
}

#[test]
fn resync_of_unchanged_tree_is_identical_and_cheap() {
    let git = Git::in_dir("/repo");
    let (a, b) = (git.commit_tree("t", Some("p")), git.commit_tree("t", Some("p")));
    assert_eq!(a.args, b.args);
    assert_eq!(a.env, b.env);
    assert_eq!(
        a.args,
        ["commit-tree", "t", "-m", "vm sync snapshot", "-p", "p"]
    );
    for var in ["GIT_AUTHOR_DATE", "GIT_COMMITTER_DATE"] {
        let date = a.env.iter().find(|(k, _)| k == var).unwrap();
        assert_eq!(date.1, "2000-01-01T00:00:00+0000");
    }
}

#[test]
fn sync_push_skips_pre_push_hooks() {
    let git = Git::in_dir("/repo");
    let call = sync_to(&git, "u@h:work/r", Some("ssh -x"), &base());
    assert_eq!(
        call.args,
        ["push", "--quiet", "--no-verify", "u@h:work/r", "+c0:refs/sync/head"]
    );
    assert_eq!(call.env, [("GIT_SSH_COMMAND".to_string(), "ssh -x".to_string())]);
    assert!(sync_to(&git, "u", None, &base()).env.is_empty());
    let err = pushed("u@h:r", Err(Failure::Infra("refused".into()))).unwrap_err();
    assert_eq!(err.text(), "pushing sync snapshot to u@h:r: refused");
}

#[test]
fn syncs_of_one_repo_to_one_peer_share_a_lock() {
    assert_eq!(lock_sync("/r/.git", "lin"), "/r/.git/vm-sync-lin.flock");
    assert_ne!(lock_sync("/r/.git", "lin"), lock_sync("/r/.git", "mac"));
    assert_eq!(index_name("lin"), "vm-sync-index-lin");
    assert_eq!(
        waiting_for_sync("lin"),
        "vm ▸ lin ▸ waiting for a concurrent sync of this repo…"
    );
}

// ── In the guest ─────────────────────────────────────────────────────────────

#[test]
fn guest_build_dir_survives_syncs() {
    let git = Git::in_dir("/w/r");
    let clean = guest::apply_call(&git, ApplyStage::Clean, "c0");
    assert_eq!(clean.args, ["clean", "-fd", "--quiet"]);
}

#[test]
fn crlf_bytes_arrive_unconverted() {
    let git = Git::in_dir("/w/r");
    let calls = guest::ensure_init(&git, false);
    assert_eq!(
        args(&calls),
        [
            "init --quiet",
            "config core.autocrlf false",
            "config core.filemode false",
            "config user.name vm-sync",
            "config user.email vm-sync@local"
        ]
    );
    assert!(guest::ensure_init(&git, true).is_empty());
}

#[test]
fn only_a_clean_checkout_reports_its_tree() {
    let git = Git::in_dir("/w/r");
    let mut stage = ApplyStage::Reset;
    let mut made = Vec::new();
    let tree = loop {
        let call = guest::apply_call(&git, stage, "c0");
        let printed = if stage == ApplyStage::Tree { "t0" } else { "" };
        made.push(call);
        match guest::apply(stage, "c0", Ok(printed.to_string())) {
            Applied::Next(next) => stage = next,
            Applied::Done(tree) => break tree,
            Applied::Fail(e) => panic!("{e:?}"),
        }
    };
    assert_eq!(tree, "t0");
    assert_eq!(
        args(&made),
        [
            "reset --hard c0 --quiet",
            "clean -fd --quiet",
            "status --porcelain",
            "rev-parse c0^{tree}"
        ]
    );
    let Applied::Fail(e) = guest::apply(ApplyStage::Status, "c0", Ok(" M a".into())) else {
        panic!("a checkout that differs must not be reported");
    };
    assert_eq!(
        e.text(),
        "checkout is not clean after sync-apply (locked files?):\n M a"
    );
    let failed = Err(Failure::Infra("bad object".into()));
    let Applied::Fail(e) = guest::apply(ApplyStage::Reset, "c0", failed) else {
        panic!("a missing commit must fail");
    };
    assert_eq!(
        e.text(),
        "commit c0 not present; was the push successful?: bad object"
    );
}

#[test]
fn a_guest_publishes_its_tree_for_the_host() {
    let call = guest::tree(&Git::in_dir("/w/r"), "c9");
    assert_eq!(call.args, ["update-ref", "refs/sync/writeback", "c9"]);
    assert_eq!(WRITEBACK_INDEX, "vm-writeback-index");
    let back = Snapshot::read_from(&changed().write_to()).unwrap();
    assert_eq!(back, changed());
    let err = Snapshot::read_from(r#"{"commit":"c"}"#).unwrap_err();
    assert!(err.text().contains("missing field `tree`"), "{err:?}");
}

// ── Writeback ────────────────────────────────────────────────────────────────

fn next(stage: WritebackStage, event: WritebackEvent) -> WritebackNext {
    apply_writeback("u@h:r", &base(), &changed(), stage, event)
}

#[test]
fn writeback_returns_guest_fixes_to_host() {
    let mut event = WritebackEvent::Begin;
    let mut stage = WritebackStage::Compare;
    let mut made = Vec::new();
    loop {
        match next(stage, event) {
            WritebackNext::Run(s) => stage = s,
            WritebackNext::Apply(patch) => {
                assert_eq!(patch, b"diff --git a b\n");
                stage = WritebackStage::Apply;
            }
            WritebackNext::Done(applied) => {
                assert!(applied);
                break;
            }
            WritebackNext::Fail(e) => panic!("{e:?}"),
        }
        made.push(writeback_call("/repo", "u@h:r", &base(), Some("ssh -x"), stage));
        event = match stage {
            WritebackStage::Fetch => WritebackEvent::Fetched,
            WritebackStage::FetchedTree => WritebackEvent::Tree("t1".into()),
            WritebackStage::Diff => WritebackEvent::Patch(b"diff --git a b\n".to_vec()),
            _ => WritebackEvent::Patched(true),
        };
    }
    assert_eq!(
        args(&made),
        [
            "fetch --quiet u@h:r refs/sync/writeback",
            "rev-parse FETCH_HEAD^{tree}",
            "diff c0 FETCH_HEAD",
            "apply --whitespace=nowarn"
        ]
    );
    assert_eq!(made[0].env.len(), 1);
    assert!(made[1..].iter().all(|c| c.env.is_empty()));
}

#[test]
fn writeback_of_unchanged_guest_is_a_noop() {
    let r = apply_writeback("u", &base(), &base(), WritebackStage::Compare, WritebackEvent::Begin);
    assert!(matches!(r, WritebackNext::Done(false)));
    let r = next(WritebackStage::Diff, WritebackEvent::Patch(Vec::new()));
    assert!(matches!(r, WritebackNext::Done(false)));
}

#[test]
fn writeback_over_a_conflicting_host_edit_is_refused_and_names_the_cause() {
    let WritebackNext::Fail(err) = next(WritebackStage::Apply, WritebackEvent::Patched(false))
    else {
        panic!("a conflicting writeback must not be forced onto the host tree");
    };
    assert!(
        err.text().contains("host tree changed during the run"),
        "{err:?}"
    );
}

#[test]
fn a_writeback_whose_tree_is_not_what_was_fetched_is_refused() {
    let fetched = WritebackEvent::Tree("0000000000000000000000000000000000000000".into());
    let WritebackNext::Fail(err) = next(WritebackStage::FetchedTree, fetched) else {
        panic!("a writeback that does not match its objects must be refused");
    };
    assert!(err.text().contains("writeback mismatch"), "{err:?}");
}

#[test]
fn a_fetch_that_fails_says_where_from() {
    let failed = || WritebackEvent::Failed(Failure::Infra("timed out".into()));
    let WritebackNext::Fail(err) = next(WritebackStage::Fetch, failed()) else {
        panic!("a failed fetch must fail");
    };
    assert_eq!(err.text(), "fetching writeback from u@h:r: timed out");
    let WritebackNext::Fail(err) = next(WritebackStage::Diff, failed()) else {
        panic!("a failed diff must fail");
    };
    assert_eq!(err.text(), "timed out");
}

// ── Git ──────────────────────────────────────────────────────────────────────

fn output(success: bool, stdout: &[u8], stderr: &[u8]) -> Output {
    Output {
        success,
        code: Some(if success { 0 } else { 128 }),
        stdout: stdout.to_vec(),
        stderr: stderr.to_vec(),
    }
}

#[test]
fn what_git_left_is_read() {
    let git = Git::in_dir("/repo");
    assert_eq!(git.head(output(true, b"abc\n", b"")).as_deref(), Some("abc"));
    assert_eq!(git.head(output(false, b"", b"")), None);
    assert_eq!(git.head(output(true, b"\n", b"")), None);
    assert_eq!(git.git_dir(output(true, b"/r/.git\n", b"")).unwrap(), "/r/.git");
    assert_eq!(Git::committed(output(true, b"c1\n", b"")).unwrap(), "c1");
    let err = Git::committed(output(false, b"", b" bad tree\n")).unwrap_err();
    assert_eq!(err.text(), "git commit-tree failed: bad tree");

    let diff = strings(&["diff", "a", "b"]);
    let patch = git.out_raw(&diff, output(true, b"\xff\n\n", b"")).unwrap();
    assert_eq!(patch, b"\xff\n\n");
    let err = git.run(&diff, &output(false, b"", b"fatal: no\n")).unwrap_err();
    assert_eq!(err.text(), "git diff a b failed: fatal: no");
    assert!(git.out(&diff, output(true, b"\xff", b"")).is_err());
    let both = git.with_index("/i").with_ssh_command("ssh");
    assert_eq!(both.command(diff).env.len(), 2);
    let peer: fn(&str) -> String = host::index_name;
    assert_eq!(peer("x"), "vm-sync-index-x");
}

#[test]
fn a_forced_file_leaves_when_the_flag_does() {
    let git = Git::in_dir("/repo");
    let forced = snapshot(&git, "/g/i", Some("abc"), &strings(&[".env"]));
    assert!(args(&forced.tree)[0].contains(".env"));
    let plain = snapshot(&git, "/g/i", Some("abc"), &[]);
    for call in plain.prepare.iter().chain(&plain.tree) {
        assert_eq!(index_of(call), "/g/i");
        assert!(!call.args.contains(&".env".to_string()), "{call:?}");
    }
}

#[test]
fn a_snapshot_may_be_a_list_of_its_values() {
    assert_eq!(Snapshot::read_from(r#"["c1", "t1"]"#).unwrap(), changed());
    assert!(Snapshot::read_from(r#"["c1"]"#).is_err());
}

#[test]
fn a_fresh_checkout_is_announced() {
    assert_eq!(guest::initialized("/w/r"), "vm ▸ initialized checkout at /w/r");
}
