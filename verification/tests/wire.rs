//! The texts that records are written as and read from.

use vm::ordmap::OrdMap;
use vm::prl::{parse_details, parse_list, parse_snapshot_list};
use vm::proto::{ExecRequest, VersionInfo};
use vm::sync::Snapshot;

fn request() -> ExecRequest {
    ExecRequest {
        version: 4,
        argv: vec!["ls".into(), "-l".into()],
        env: OrdMap::new(),
        cwd: "/tmp".into(),
        stdin: None,
        heartbeat_timeout_ms: None,
    }
}

#[test]
fn a_request_is_written_in_one_order() {
    assert_eq!(
        request().write_to(),
        r#"{"version":4,"argv":["ls","-l"],"env":{},"cwd":"/tmp"}"#
    );
    let mut full = request();
    full.env.insert("B".into(), "2".into());
    full.env.insert("A".into(), "\"1\"\n".into());
    full.stdin = Some("exit 7\n".into());
    full.heartbeat_timeout_ms = Some(400);
    assert_eq!(
        full.write_to(),
        r#"{"version":4,"argv":["ls","-l"],"env":{"A":"\"1\"\n","B":"2"},"cwd":"/tmp","stdin":"exit 7\n","heartbeat_timeout_ms":400}"#
    );
}

#[test]
fn versions_and_snapshots_are_written_in_one_order() {
    assert_eq!(
        VersionInfo::current("0.3.0").write_to(),
        r#"{"proto":4,"binary":"0.3.0"}"#
    );
    let snap = Snapshot {
        commit: "c0".into(),
        tree: "t0".into(),
    };
    assert_eq!(snap.write_to(), r#"{"commit":"c0","tree":"t0"}"#);
}

#[test]
fn a_record_that_says_a_field_twice_is_refused() {
    let says = |line: &str| ExecRequest::read_from(line).unwrap_err().text().to_string();
    let twice = r#"{"version":4,"argv":["ls"],"cwd":"/a","cwd":"/b"}"#;
    assert!(says(twice).contains("duplicate field `cwd`"), "{}", says(twice));
    let twice = r#"{"version":4,"version":4,"argv":["ls"],"cwd":"/a"}"#;
    assert!(says(twice).contains("duplicate field `version`"));
    let twice = r#"{"proto":4,"binary":"a","binary":"b"}"#;
    let err = VersionInfo::read_from(twice).unwrap_err();
    assert!(err.contains("duplicate field `binary`"), "{err}");
    let twice = r#"{"commit":"a","tree":"b","tree":"b"}"#;
    let err = Snapshot::read_from(twice).unwrap_err();
    assert!(err.text().contains("duplicate field `tree`"), "{err:?}");
}

#[test]
fn a_listing_that_says_a_field_twice_is_refused() {
    let vm = r#"[{"uuid":"u","status":"a","status":"b","ip_configured":"-","name":"A"}]"#;
    assert!(parse_list(vm).unwrap_err().text().contains("duplicate field `status`"));
    let snap = r#"{"{a}": {"name": "s", "name": "t"}}"#;
    assert!(parse_snapshot_list(snap).unwrap_err().contains("duplicate field `name`"));
    let memory = r#"[{"Home":"/h","Hardware":{"memory":{"size":"1Mb","size":"2Mb"}}}]"#;
    assert!(parse_details(memory).unwrap_err().contains("duplicate field `size`"));
    let hardware = r#"[{"Home":"/h","Hardware":{"memory":{"size":"1Mb"},"memory":{"size":"1Mb"}}}]"#;
    assert!(parse_details(hardware).unwrap_err().contains("duplicate field `memory`"));
}

#[test]
fn a_field_that_nobody_reads_may_be_said_twice() {
    let line = r#"{"version":4,"argv":["ls"],"cwd":"/a","more":1,"more":[2]}"#;
    assert_eq!(ExecRequest::read_from(line).unwrap().cwd, "/a");
    let vm = r#"[{"uuid":"u","x":1,"x":2,"status":"a","ip_configured":"-","name":"A"}]"#;
    assert_eq!(parse_list(vm).unwrap()[0].name, "A");
}

#[test]
fn of_a_key_that_is_said_twice_the_last_one_counts() {
    let line = r#"{"version":4,"argv":["ls"],"cwd":"/a","env":{"K":"1","K":"2"}}"#;
    let env = ExecRequest::read_from(line).unwrap().env;
    assert_eq!((env.len(), env.get("K").map(String::as_str)), (1, Some("2")));
    let snaps = r#"{"{b}": {"name": "s"}, "{a}": {"name": "t"}, "{b}": {"name": "u"}}"#;
    assert_eq!(
        parse_snapshot_list(snaps).unwrap(),
        [
            ("{a}".to_string(), "t".to_string()),
            ("{b}".to_string(), "u".to_string())
        ]
    );
}

#[test]
fn gaps_between_the_parts_of_a_record_do_not_matter() {
    let line = " { \"version\" :\t4 ,\n\"argv\" : [ \"l\\u0073\" ] , \"cwd\":\"/a\\\"}\" } ";
    let req = ExecRequest::read_from(line).unwrap();
    assert_eq!((req.argv[0].as_str(), req.cwd.as_str()), ("ls", "/a\"}"));
    assert!(ExecRequest::read_from(r#"{"version":4,"argv":["ls"],"cwd":"/a",}"#).is_err());
    assert!(ExecRequest::read_from(r#"{"version":4,"argv":["ls"],"cwd":"/a"} x"#).is_err());
    assert!(ExecRequest::read_from(r#"{"version":4"#).is_err());
    assert!(ExecRequest::read_from("").is_err());
}

#[test]
fn a_complaint_that_names_its_place_stands() {
    let typed = || Err("missing field `cwd` at line 1 column 27".to_string());
    let line = r#"{"version":4,"argv":["ls"]}"#;
    assert_eq!(
        ExecRequest::read_placed(line, typed()).unwrap_err().text(),
        "parsing ExecRequest JSON: missing field `cwd` at line 1 column 27"
    );
    assert_eq!(ExecRequest::read_placed(&request().write_to(), Ok(())).unwrap().cwd, "/tmp");
    assert_eq!(
        Snapshot::read_placed("{", typed()).unwrap_err().text(),
        "parsing _tree reply: missing field `cwd` at line 1 column 27"
    );
    let snap = Snapshot::read_placed(r#"{"commit":"c0","tree":"t0"}"#, Ok(())).unwrap();
    assert_eq!(snap.tree, "t0");
    assert_eq!(
        vm::deploy::placed_handshake("a", "{", typed()).unwrap_err().text(),
        "parsing agent _version: missing field `cwd` at line 1 column 27"
    );
    let reply = r#"{"proto":4,"binary":"0.3.0"}"#;
    assert!(vm::deploy::placed_handshake("a", reply, Ok(())).is_ok());
    let garbled = vm::doctor::placed_answer(Ok("{".into()), typed());
    assert!(matches!(garbled, vm::doctor::AgentAnswer::Garbled(why) if why.contains("column 27")));
    let said = vm::doctor::placed_answer(Ok(reply.into()), Ok(()));
    assert!(matches!(said, vm::doctor::AgentAnswer::Version(info) if info.proto == 4));
}

#[test]
fn a_complaint_about_a_listing_that_names_its_place_stands() {
    let typed = || Err("x at line 2 column 3".to_string());
    assert_eq!(
        vm::prl::placed_list("[", typed()).unwrap_err().text(),
        "unexpected `prlctl list --json` output: x at line 2 column 3"
    );
    assert!(vm::prl::placed_list("[]", Ok(())).unwrap().is_empty());
    assert!(vm::prl::placed_snapshots("W", " \n", typed()).unwrap().is_empty());
    assert_eq!(
        vm::prl::placed_snapshots("W", "{", typed()).unwrap_err().text(),
        "unexpected `prlctl snapshot-list W --json` output: x at line 2 column 3"
    );
    assert_eq!(
        vm::prl::placed_details("W", "{", typed()).unwrap_err().text(),
        "unexpected `prlctl list -i W --json` output: x at line 2 column 3"
    );
    let details = r#"[{"Home":"/h","Hardware":{"memory":{"size":"1Mb"}}}]"#;
    assert_eq!(vm::prl::placed_details("W", details, Ok(())).unwrap().memory_mb, 1);
}

#[test]
fn a_complaint_about_the_configuration_that_shows_its_place_stands() {
    let load = vm::config::Config::load_placed;
    let typed = || Err("TOML parse error at line 1, column 1".to_string());
    assert_eq!(
        load("/c", Ok("x".into()), typed()).unwrap_err().text(),
        "invalid config at /c — TOML parse error at line 1, column 1"
    );
    assert!(load("/c", Ok("[vm]".into()), Ok(())).unwrap().vm.is_empty());
    let err = load("/c", Err("gone".into()), Ok(())).unwrap_err();
    assert!(err.text().starts_with("cannot read config at /c (gone)"), "{err:?}");
}
