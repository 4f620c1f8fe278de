//! The machine's configuration, and a repo's.

use vm::config::{Config, GuestOs};
use vm::exit::{conclude, USAGE};
use vm::repo_config::{Found, RepoConfig};

const SAMPLE: &str = r#"
        [vm.win]
        parallels_name = "Windows 11"
        os = "windows"
        user = "henrik"
        work_root = 'C:\work'

        [vm.lin]
        parallels_name = "Ubuntu 24.04"
        os = "linux"
        user = "parallels"
        work_root = "~/work"

        [vm.mac]
        parallels_name = "macOS"
        os = "macos"
        user = "henrik"
        work_root = "~/work"
        host = "mac-vm.local"
    "#;

const PATH: &str = "/home/me/.config/vm/config.toml";

#[test]
fn parses_sample() {
    let cfg = Config::parse(SAMPLE).unwrap();
    assert_eq!(cfg.vm.len(), 3);
    let win = cfg.get("win", PATH).unwrap();
    assert_eq!(win.os, GuestOs::Windows);
    assert_eq!(win.work_root, r"C:\work");
    assert_eq!(win.host, None);
    assert_eq!(
        cfg.get("mac", PATH).unwrap().host.as_deref(),
        Some("mac-vm.local")
    );
}

#[test]
fn unknown_alias_lists_configured() {
    let cfg = Config::parse(SAMPLE).unwrap();
    let err = cfg.get("bsd", PATH).unwrap_err();
    let err = err.text();
    assert!(err.contains("bsd"), "{err}");
    assert!(err.contains("lin, mac, win"), "{err}");
}

#[test]
fn os_names_are_not_aliases() {
    let cfg = Config::parse(SAMPLE).unwrap();
    let err = cfg.get("windows", PATH).unwrap_err();
    let err = err.text();
    assert!(err.contains("lin, mac, win"), "{err}");
}

#[test]
fn an_os_named_target_points_at_the_vm_to_rename() {
    let cfg = Config::parse(SAMPLE).unwrap();
    let err = cfg.get("windows", PATH).unwrap_err();
    let err = err.text();
    assert!(err.contains("addressed by alias only"), "{err}");
    assert!(err.contains("rename [vm.win] to [vm.windows]"), "{err}");
    assert!(err.ends_with(&format!("in {PATH}.")), "{err}");
}

#[test]
fn an_os_with_no_vm_says_so_instead_of_naming_one() {
    let cfg = Config::parse(
        "[vm.lin]\nparallels_name = \"U\"\nos = \"linux\"\nuser = \"u\"\nwork_root = \"~/w\"\n",
    )
    .unwrap();
    let err = cfg.get("windows", PATH).unwrap_err();
    let err = err.text();
    assert!(
        err.contains("no VM is configured with os = \"windows\""),
        "{err}"
    );
}

#[test]
fn current_matches_the_build_target() {
    for (target_os, expected) in [
        ("windows", GuestOs::Windows),
        ("macos", GuestOs::Macos),
        ("linux", GuestOs::Linux),
        ("freebsd", GuestOs::Linux),
    ] {
        assert_eq!(GuestOs::current(target_os), expected);
    }
}

#[test]
fn config_rejects_unknown_fields() {
    let bad = "[vm.x]\nparallels_name = \"X\"\nos = \"linux\"\nuser = \"u\"\nwork_root = \"/w\"\ntypo_field = 1\n";
    assert!(Config::parse(bad).is_err());
}

#[test]
fn a_config_says_what_is_wrong_with_it() {
    let says = |text: &str| Config::parse(text).unwrap_err();
    assert_eq!(says(""), "missing field `vm`");
    assert_eq!(says("other = 1\n[vm]\n"), "unknown field `other`, expected `vm`");
    let vm = |body: &str| says(&format!("[vm.x]\n{body}"));
    assert_eq!(vm("os = \"linux\"\n"), "missing field `parallels_name`");
    assert_eq!(vm("parallels_name = \"X\"\n"), "missing field `os`");
    assert_eq!(
        vm("parallels_name = \"X\"\nos = \"bsd\"\n"),
        "unknown variant `bsd`, expected one of `windows`, `linux`, `macos`"
    );
    assert_eq!(
        vm("parallels_name = \"X\"\nos = \"linux\"\ntypo = 1\n"),
        "unknown field `typo`, expected one of `parallels_name`, `os`, `user`, `work_root`, `host`, `agent_path`"
    );
    assert!(vm("parallels_name = 7\n").contains("expected a string"));
    assert!(says("[vm").contains("TOML"), "{}", says("[vm"));
}

#[test]
fn an_unreadable_config_is_a_usage_error() {
    let err = Config::load(PATH, Err("No such file".into())).unwrap_err();
    assert_eq!(
        err.text(),
        format!("cannot read config at {PATH} (No such file) — create it, or point $VM_CONFIG at one")
    );
    assert_eq!(conclude(Err(err)).0, USAGE);
    let err = Config::load(PATH, Ok("[vm.x]\n".into())).unwrap_err();
    assert_eq!(
        err.text(),
        format!("invalid config at {PATH} — missing field `parallels_name`")
    );
    assert!(Config::load(PATH, Ok(SAMPLE.into())).is_ok());
}

#[test]
fn the_config_is_below_the_home_unless_it_is_named() {
    assert_eq!(Config::path(Some("/x/c.toml"), Some("/home/me")), "/x/c.toml");
    assert_eq!(Config::path(None, Some("/home/me")), PATH);
    assert_eq!(Config::path(None, None), ".config/vm/config.toml");
    let cfg = Config::parse(SAMPLE).unwrap();
    assert_eq!(cfg.aliases(), ["lin", "mac", "win"]);
}

#[test]
fn os_names_read_back() {
    for os in [GuestOs::Windows, GuestOs::Linux, GuestOs::Macos] {
        assert_eq!(GuestOs::parse(os.as_str()), Some(os));
    }
    assert_eq!(GuestOs::parse("Linux"), None);
}

// ── A repo's configuration ───────────────────────────────────────────────────

#[test]
fn parses_on_first_sync() {
    let cfg = RepoConfig::parse("on_first_sync = \"mise trust\"").unwrap();
    assert_eq!(cfg.on_first_sync.as_deref(), Some("mise trust"));
}

#[test]
fn empty_file_has_no_hook() {
    assert_eq!(RepoConfig::parse("").unwrap().on_first_sync, None);
}

#[test]
fn wrap_defaults_to_empty() {
    assert!(RepoConfig::parse("").unwrap().wrap.is_empty());
    assert!(RepoConfig::parse("on_first_sync = \"mise trust\"")
        .unwrap()
        .wrap
        .is_empty());
}

#[test]
fn parses_wrap_list() {
    let cfg = RepoConfig::parse("wrap = [\"mise\", \"exec\", \"--\"]").unwrap();
    assert_eq!(cfg.wrap, ["mise", "exec", "--"]);
}

#[test]
fn repo_config_rejects_unknown_fields() {
    assert!(RepoConfig::parse("typo = 1").is_err());
}

#[test]
fn missing_file_is_the_default() {
    let cfg = RepoConfig::load("/r/.vm.toml", Found::Nothing).unwrap();
    assert_eq!(cfg.on_first_sync, None);
}

#[test]
fn loads_from_repo_root() {
    assert_eq!(RepoConfig::path("/r"), "/r/.vm.toml");
    let text = "on_first_sync = 'git lfs install'".to_string();
    let cfg = RepoConfig::load("/r/.vm.toml", Found::Text(text)).unwrap();
    assert_eq!(cfg.on_first_sync.as_deref(), Some("git lfs install"));
}

#[test]
fn a_bad_repo_config_is_a_usage_error() {
    let err = RepoConfig::load("/r/.vm.toml", Found::Unreadable("denied".into())).unwrap_err();
    assert!(err.is_usage());
    assert_eq!(err.text(), "cannot read /r/.vm.toml (denied)");
    let err = RepoConfig::load("/r/.vm.toml", Found::Text("wrap = [1]".into())).unwrap_err();
    assert!(err.is_usage() && err.text().starts_with("invalid /r/.vm.toml — "));
    let err = RepoConfig::parse("typo = 1").unwrap_err();
    assert_eq!(err, "unknown field `typo`, expected `on_first_sync` or `wrap`");
}

#[test]
fn a_number_is_no_address() {
    let vm = |host: &str| {
        Config::parse(&format!(
            "[vm.x]\nparallels_name='X'\nos='linux'\nuser='u'\nwork_root='/w'\nhost={host}\n"
        ))
    };
    for host in ["nan", "inf", "-inf", "1.5", "7", "true"] {
        assert!(vm(host).is_err(), "{host}");
    }
    assert_eq!(vm("'h'").unwrap().get("x", PATH).unwrap().host.as_deref(), Some("h"));
    assert!(RepoConfig::parse("on_first_sync = nan").is_err());
    assert!(RepoConfig::parse("wrap = nan").is_err());
}

#[test]
fn a_vm_may_be_a_list_of_its_values() {
    let cfg = Config::parse("[vm]\nx = ['X', 'linux', 'u', '/w', 'h', '/a']\n").unwrap();
    let vm = cfg.get("x", PATH).unwrap();
    assert_eq!((vm.user.as_str(), vm.agent_path.as_deref()), ("u", Some("/a")));
    assert!(Config::parse("[vm]\nx = ['X', 'linux', 'u', '/w']\n").is_err());
}
