//! Guest environments.

use vm::guest_env::{resolve, ActiveEnv, GuestEnv};

fn root(files: &'static [&'static str]) -> impl Fn(&str) -> bool {
    move |p| files.contains(&p)
}

#[test]
fn plain_repo_detects_nothing() {
    let active = resolve(None, root(&[]));
    assert_eq!(active.env, GuestEnv::Off);
    assert!(active.wrap().is_empty());
    assert_eq!(active.first_sync_cmd(), None);
}

#[test]
fn mise_toml_at_the_root_selects_mise() {
    let active = resolve(None, root(&["mise.toml"]));
    assert_eq!(active.env, GuestEnv::Mise);
    assert_eq!(active.wrap(), ["mise", "exec", "--"]);
    assert_eq!(active.first_sync_cmd(), Some("mise trust"));
    assert_eq!(active.detected_from, Some("mise.toml"));
}

#[test]
fn nested_mise_config_is_detected() {
    assert_eq!(
        resolve(None, root(&[".config/mise/config.toml"])).env,
        GuestEnv::Mise
    );
}

#[test]
fn explicit_none_overrides_detection() {
    let active = resolve(Some(GuestEnv::Off), root(&["mise.toml"]));
    assert_eq!(active.env, GuestEnv::Off);
    assert!(active.wrap().is_empty());
    assert_eq!(active.first_sync_cmd(), None);
}

#[test]
fn explicit_mise_needs_no_marker() {
    let active = resolve(Some(GuestEnv::Mise), root(&[]));
    assert_eq!(active.env, GuestEnv::Mise);
    assert_eq!(active.detected_from, None);
    assert_eq!(active.first_sync_cmd(), Some("mise trust"));
}

#[test]
fn a_mise_dir_alone_is_not_a_marker() {
    assert_eq!(resolve(None, root(&[".mise"])).env, GuestEnv::Off);
}

#[test]
fn detection_is_never_silent() {
    let detected = resolve(None, root(&[".mise.toml", "mise.local.toml"]));
    assert_eq!(
        detected.announce("windows").as_deref(),
        Some("vm ▸ windows ▸ guest env: mise (detected .mise.toml) — `mise trust` on first sync, exec commands wrapped `mise exec --`; --guest-env none disables")
    );
    let forced = resolve(Some(GuestEnv::Mise), root(&[]));
    assert_eq!(
        forced.announce("x").as_deref(),
        Some("vm ▸ x ▸ guest env: mise (--guest-env)")
    );
    let off = ActiveEnv {
        env: GuestEnv::Off,
        detected_from: None,
    };
    assert_eq!(off.announce("x"), None);
}
