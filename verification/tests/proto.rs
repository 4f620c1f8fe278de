//! What host and agent say to each other.

use vm::ordmap::OrdMap;
use vm::proto::{
    host_is_alive, silence_budget, ExecRequest, Liveness, VersionInfo, HEARTBEAT_INTERVAL,
    HEARTBEAT_TIMEOUT, PROTO_VERSION,
};

fn request(argv: &[&str]) -> ExecRequest {
    ExecRequest {
        version: PROTO_VERSION,
        argv: argv.iter().map(|s| s.to_string()).collect(),
        env: OrdMap::new(),
        cwd: "/tmp".into(),
        stdin: None,
        heartbeat_timeout_ms: None,
    }
}

fn assert_same(a: &ExecRequest, b: &ExecRequest) {
    assert_eq!(a.version, b.version);
    assert_eq!(a.argv, b.argv);
    assert_eq!(a.cwd, b.cwd);
    assert_eq!(a.stdin, b.stdin);
    assert_eq!(a.heartbeat_timeout_ms, b.heartbeat_timeout_ms);
    assert_eq!(a.env.len(), b.env.len());
    for i in 0..a.env.len() {
        assert_eq!(a.env.key(i), b.env.key(i));
        assert_eq!(a.env.value(i), b.env.value(i));
    }
}

#[test]
fn roundtrips_hostile_arguments() {
    let mut req = request(&[
        "echo",
        "with space",
        "quote\"inside",
        "single'quote",
        "new\nline",
        "uni-→-code",
        "%PATH%",
        "$HOME",
        "back\\slash",
    ]);
    req.env.insert("KEY".into(), "va l=ue".into());
    let json = req.write_to();
    let back = ExecRequest::read_from(&json).unwrap();
    assert_same(&back, &req);
}

#[test]
fn rejects_version_mismatch_with_hint() {
    let mut req = request(&["true"]);
    req.version = PROTO_VERSION + 1;
    let json = req.write_to();
    let err = ExecRequest::read_from(&json).unwrap_err();
    let err = err.text();
    assert!(err.contains("vm deploy"), "{err}");
}

#[test]
fn rejects_empty_argv() {
    let json = request(&[]).write_to();
    assert!(ExecRequest::read_from(&json).is_err());
}

#[test]
fn env_defaults_when_absent() {
    let json = format!(r#"{{"version":{PROTO_VERSION},"argv":["ls"],"cwd":"/tmp"}}"#);
    let req = ExecRequest::read_from(&json).unwrap();
    assert!(req.env.is_empty());
}

#[test]
fn a_stdin_payload_roundtrips_through_the_one_json_line() {
    let mut req = request(&["sh"]);
    req.stdin = Some("set -e\necho 'quoted \"thing\"'\nexit 7\n".into());
    let json = req.write_to();
    assert!(
        !json.contains('\n'),
        "the request must stay one line: {json}"
    );
    assert_same(&ExecRequest::read_from(&json).unwrap(), &req);
}

#[test]
fn stdin_defaults_to_none_when_absent() {
    let json = format!(r#"{{"version":{PROTO_VERSION},"argv":["ls"],"cwd":"/tmp"}}"#);
    assert_eq!(ExecRequest::read_from(&json).unwrap().stdin, None);
}

#[test]
fn a_v2_host_is_rejected_with_the_redeploy_hint() {
    let v2 = r#"{"version":2,"argv":["ls"],"cwd":"/tmp"}"#;
    let err = ExecRequest::read_from(v2).unwrap_err();
    let err = err.text();
    assert!(err.contains("vm deploy"), "{err}");
    assert!(err.contains("host sent v2"), "{err}");
}

#[test]
fn a_v1_host_is_rejected_with_the_redeploy_hint() {
    let v1 = r#"{"version":1,"argv":["ls"],"cwd":"/tmp","shell":true}"#;
    let err = ExecRequest::read_from(v1).unwrap_err();
    let err = err.text();
    assert!(err.contains("vm deploy"), "{err}");
    assert!(err.contains("host sent v1"), "{err}");
}

#[test]
fn a_v3_host_is_rejected_rather_than_left_silent() {
    let v3 = r#"{"version":3,"argv":["cargo","build"],"cwd":"/tmp"}"#;
    let err = ExecRequest::read_from(v3).unwrap_err();
    let err = err.text();
    assert!(err.contains("vm deploy"), "{err}");
    assert!(err.contains("host sent v3"), "{err}");
}

#[test]
fn heartbeat_timeout_defaults_to_none_when_absent() {
    let json = format!(r#"{{"version":{PROTO_VERSION},"argv":["ls"],"cwd":"/tmp"}}"#);
    let req = ExecRequest::read_from(&json).unwrap();
    assert_eq!(req.heartbeat_timeout_ms, None);
}

#[test]
fn a_heartbeat_timeout_override_roundtrips() {
    let mut req = request(&["sleep", "300"]);
    req.heartbeat_timeout_ms = Some(400);
    let json = req.write_to();
    assert_same(&ExecRequest::read_from(&json).unwrap(), &req);
    assert_eq!(silence_budget(&req), 400_000_000);
}

#[test]
fn the_silence_budget_outlasts_several_missed_beats() {
    assert!(HEARTBEAT_TIMEOUT >= 3 * HEARTBEAT_INTERVAL);
    assert_eq!(silence_budget(&request(&["ls"])), HEARTBEAT_TIMEOUT);
}

#[test]
fn a_request_ends_with_its_line() {
    let mut line = request(&["ls"]).write_to();
    line.push('\n');
    line.push('\n');
    assert_eq!(ExecRequest::read_from(&line).unwrap().argv, ["ls"]);
}

#[test]
fn the_json_of_a_request_is_fixed() {
    let mut req = request(&["ls", "-l"]);
    req.env.insert("B".into(), "2".into());
    req.env.insert("A".into(), "1".into());
    let json = req.write_to();
    let value: serde_json::Value = serde_json::from_str(&json).unwrap();
    assert_eq!(value["version"], PROTO_VERSION);
    assert_eq!(value["argv"][1], "-l");
    assert_eq!(value["env"]["A"], "1");
    assert_eq!(value["cwd"], "/tmp");
    assert_eq!(value.as_object().unwrap().len(), 4);
    req.stdin = Some("in".into());
    req.heartbeat_timeout_ms = Some(7);
    let value: serde_json::Value = serde_json::from_str(&req.write_to()).unwrap();
    assert_eq!(value["stdin"], "in");
    assert_eq!(value["heartbeat_timeout_ms"], 7);
    assert_eq!(value.as_object().unwrap().len(), 6);
}

#[test]
fn a_malformed_request_says_what_is_wrong() {
    let says = |line: &str| ExecRequest::read_from(line).unwrap_err().text().to_string();
    assert!(says("").contains("EOF"), "{}", says(""));
    assert!(says("{").contains("EOF"), "{}", says("{"));
    let no_argv = format!(r#"{{"version":{PROTO_VERSION},"cwd":"/"}}"#);
    assert!(says(&no_argv).contains("missing field `argv`"));
    let bad_argv = format!(r#"{{"version":{PROTO_VERSION},"argv":[1],"cwd":"/"}}"#);
    assert!(says(&bad_argv).contains("expected a string"), "{}", says(&bad_argv));
}

#[test]
fn versions_are_exchanged() {
    let info = VersionInfo::current("0.3.0");
    assert_eq!(info.proto, PROTO_VERSION);
    let back = VersionInfo::read_from(&info.write_to()).unwrap();
    assert_eq!((back.proto, back.binary.as_str()), (PROTO_VERSION, "0.3.0"));
    assert!(VersionInfo::read_from(r#"{"proto":4}"#)
        .unwrap_err()
        .contains("missing field `binary`"));
    assert!(VersionInfo::read_from("vm: unknown verb").is_err());
}

#[test]
fn a_host_is_alive_while_it_beats() {
    let budget = HEARTBEAT_TIMEOUT;
    assert_eq!(host_is_alive(Some(1), 0, budget), Liveness::Listen);
    assert_eq!(host_is_alive(None, budget - 1, budget), Liveness::Listen);
    assert_eq!(host_is_alive(None, budget, budget), Liveness::TearDown);
    assert_eq!(host_is_alive(Some(0), 0, budget), Liveness::TearDown);
}

#[test]
fn a_payload_survives_the_bytes_that_would_end_a_json_line() {
    let script = "printf 'a\\n'\nprintf \"b'c\\n\"\nprintf 'uni-→\\n'\n";
    let mut req = request(&["sh"]);
    req.stdin = Some(script.into());
    let mut line = req.write_to();
    line.push('\n');
    let back = ExecRequest::read_from(&line).unwrap();
    assert_eq!(back.stdin.as_deref(), Some(script));
}

#[test]
fn a_beating_host_holds_a_command_open_far_past_the_silence_budget() {
    let mut req = request(&["sleep", "5"]);
    req.heartbeat_timeout_ms = Some(500);
    let (beat, budget) = (vm::exec::host::beat_interval(&req), silence_budget(&req));
    for _ in 0..40 {
        assert_eq!(host_is_alive(None, beat, budget), Liveness::Listen);
        assert_eq!(host_is_alive(Some(1), beat, budget), Liveness::Listen);
    }
    assert!(40 * beat >= 10 * budget);
}

#[test]
fn a_record_may_be_a_list_of_its_values() {
    let req = ExecRequest::read_from(r#"[4, ["ls"], {"A": "1"}, "/tmp"]"#).unwrap();
    assert_eq!((req.argv, req.cwd.as_str(), req.stdin), (vec!["ls".to_string()], "/tmp", None));
    assert_eq!(req.env.get("A").map(String::as_str), Some("1"));
    let says = |line: &str| ExecRequest::read_from(line).unwrap_err().text().to_string();
    assert!(says("[4]").contains("invalid length 1, expected struct ExecRequest with 6 elements"));
    assert!(says(r#"[4, ["ls"], {}, "/", null, null, 7]"#).contains("trailing characters"));
    let info = VersionInfo::read_from(r#"[4, "0.3.0"]"#).unwrap();
    assert_eq!((info.proto, info.binary.as_str()), (4, "0.3.0"));
}
