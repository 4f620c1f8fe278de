//! Building the agent inside a guest.

use vm::config::GuestOs;
use vm::deploy::{
    build_in_guest, building_line, checkout_line, deploy, deploying_line, handshake, prepare_line,
    remote, source_check, sync_key, Stage,
};
use vm::exit::Failure;
use vm::proto::PROTO_VERSION;

fn stages(os: GuestOs) -> Vec<Stage> {
    let mut all = vec![Stage::Source];
    while *all.last().unwrap() != Stage::Done {
        let next = deploy(*all.last().unwrap(), os, Ok(())).unwrap();
        all.push(next);
    }
    all
}

#[test]
fn a_deploy_ends_with_an_agent_that_answered() {
    for os in [GuestOs::Windows, GuestOs::Macos, GuestOs::Linux] {
        let all = stages(os);
        assert!(all.contains(&Stage::Build) && all.contains(&Stage::Handshake));
        assert_eq!(all.contains(&Stage::Unit), os == GuestOs::Linux);
    }
}

#[test]
fn a_failed_step_ends_a_deploy() {
    let err = deploy(
        Stage::Build,
        GuestOs::Linux,
        Err(Failure::Infra("no cargo".into())),
    )
    .unwrap_err();
    assert!(err.text().contains("no cargo"), "{err:?}");
}

#[test]
fn the_steps_of_a_deploy() {
    assert!(source_check("/src", true).is_ok());
    assert!(source_check("/src", false).unwrap_err().text().starts_with("vm source not found at /src"));
    assert!(deploying_line("lin", "/src").contains("build-in-guest from /src"));
    assert!(building_line("lin").starts_with("vm ▸ lin ▸ building agent"));
    assert!(prepare_line().contains("git init -q ~/.vm/src"));
    assert_eq!(sync_key("lin"), "deploy-lin");
    assert_eq!(
        checkout_line("c0"),
        "git -C ~/.vm/src reset --hard -q c0 && git -C ~/.vm/src clean -fdq"
    );
    assert!(build_in_guest(GuestOs::Windows).ends_with("mv -f ~/.vm/bin/vm.exe.new ~/.vm/bin/vm.exe"));
    assert!(build_in_guest(GuestOs::Linux).ends_with("mv -f ~/.vm/bin/vm.new ~/.vm/bin/vm"));
    assert!(remote("x", true, Some(0)).is_ok());
    assert_eq!(
        remote("x", false, Some(9)).unwrap_err().text(),
        "remote step failed (exit Some(9)): x"
    );
}

#[test]
fn an_agent_of_another_protocol_is_no_success() {
    let reply = |proto: u32| format!(r#"{{"proto":{proto},"binary":"0.3.0"}}"#);
    assert_eq!(
        handshake("lin", &reply(PROTO_VERSION)).unwrap(),
        "vm ▸ lin ▸ agent v0.3.0 (proto v4) installed"
    );
    assert_eq!(
        handshake("lin", &reply(3)).unwrap_err().text(),
        "deployed agent speaks proto v3 but host needs v4"
    );
    assert!(handshake("lin", "huh")
        .unwrap_err()
        .text()
        .starts_with("parsing agent _version: "));
}

#[test]
fn the_source_goes_below_the_guests_home() {
    let target = vm::ssh::SshTarget {
        user: "u".into(),
        host: "10.0.0.5".into(),
    };
    assert_eq!(vm::deploy::source_url(&target), "u@10.0.0.5:.vm/src");
}
