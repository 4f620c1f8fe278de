//! Where a repo is in a guest.

use vm::mapping::{guest_cwd, guest_repo_path, ssh_remote_url, url_host, RepoLocation};
use vm::process::Output;

#[test]
fn windows_repo_path_normalizes_to_forward_slashes() {
    assert_eq!(guest_repo_path(r"C:\work", "syncfs"), "C:/work/syncfs");
    assert_eq!(guest_repo_path("C:\\work\\", "syncfs"), "C:/work/syncfs");
}

#[test]
fn unix_repo_path_keeps_tilde_for_guest_expansion() {
    assert_eq!(guest_repo_path("~/work", "syncfs"), "~/work/syncfs");
    assert_eq!(guest_repo_path("/Users/h/work/", "vm"), "/Users/h/work/vm");
}

#[test]
fn cwd_maps_subdirs_with_guest_separator() {
    let rel = "crates/syncfs-windows";
    let cwd = guest_cwd(r"C:\work", "syncfs", rel).unwrap();
    assert_eq!(cwd, "C:/work/syncfs/crates/syncfs-windows");

    let cwd = guest_cwd("~/work", "syncfs", rel).unwrap();
    assert_eq!(cwd, "~/work/syncfs/crates/syncfs-windows");
}

#[test]
fn cwd_at_repo_root() {
    let cwd = guest_cwd("~/work", "syncfs", "").unwrap();
    assert_eq!(cwd, "~/work/syncfs");
}

#[test]
fn cwd_rejects_parent_components() {
    assert!(guest_cwd("~/w", "r", "../escape").is_err());
}

#[test]
fn remote_urls_for_each_path_style() {
    assert_eq!(
        ssh_remote_url("parallels", "10.211.55.4", "~/work/syncfs"),
        "parallels@10.211.55.4:work/syncfs"
    );
    assert_eq!(
        ssh_remote_url("hakesson", "10.211.55.5", r"C:\work\syncfs"),
        "hakesson@10.211.55.5:C:/work/syncfs"
    );
    assert_eq!(
        ssh_remote_url("henrik", "mac-vm.local", "/Users/henrik/work/vm"),
        "ssh://henrik@mac-vm.local/Users/henrik/work/vm"
    );
}

#[test]
fn remote_urls_bracket_ipv6_hosts() {
    assert_eq!(
        ssh_remote_url(
            "hakesson",
            "fdb2:2c26:f4e4:0:357:80a2:89e0:6574",
            "~/work/vm"
        ),
        "hakesson@[fdb2:2c26:f4e4:0:357:80a2:89e0:6574]:work/vm"
    );
    assert_eq!(
        ssh_remote_url("hakesson", "fdb2::5", r"C:\work\vm"),
        "hakesson@[fdb2::5]:C:/work/vm"
    );
    assert_eq!(
        ssh_remote_url("henrik", "fdb2::5", "/Users/henrik/work/vm"),
        "ssh://henrik@[fdb2::5]/Users/henrik/work/vm"
    );
    // An already-bracketed host is not bracketed twice.
    assert_eq!(
        ssh_remote_url("h", "[fdb2::5]", "~/work/vm"),
        "h@[fdb2::5]:work/vm"
    );
}

#[test]
fn a_host_is_bracketed_once() {
    assert_eq!(url_host(&url_host("fdb2::5")), url_host("fdb2::5"));
    assert_eq!(url_host("mac-vm.local"), "mac-vm.local");
}

#[test]
fn the_cwd_stays_in_the_checkout() {
    assert_eq!(guest_cwd("~/w", "r", "./a//b/.").unwrap(), "~/w/r/a/b");
    assert!(guest_cwd("~/w", "r", "a/../..").is_err());
    assert!(guest_cwd("~/w", "r", "/etc").is_err());
}

fn output(success: bool, stdout: &str, stderr: &str) -> Output {
    Output {
        success,
        code: Some(if success { 0 } else { 128 }),
        stdout: stdout.into(),
        stderr: stderr.into(),
    }
}

#[test]
fn outside_a_repo_is_a_usage_error() {
    let root = RepoLocation::root_of(output(true, "/home/me/vm\n", "")).unwrap();
    assert_eq!(root, "/home/me/vm");
    let err = RepoLocation::root_of(output(false, "", "fatal: not a git repository")).unwrap_err();
    assert!(err.is_usage(), "{err:?}");
}

#[test]
fn git_is_asked_for_the_root() {
    assert_eq!(RepoLocation::root_args(), ["rev-parse", "--show-toplevel"]);
}
