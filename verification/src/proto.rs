//! The request that a host sends to a guest agent, and the pulse that follows
//! it.

use crate::exit::{infra, Failure};
use crate::json::{self, Printed};
use crate::ordmap::{self, OrdMap};
use crate::text;
use vstd::prelude::*;

verus! {

/// The version of the request format. An agent takes requests of its own version
/// only, in both directions: a host that does not beat must never reach an agent
/// that listens for beats.
pub const PROTO_VERSION: u32 = 4;

/// How often the host writes a keepalive byte while the guest command runs, in
/// nanoseconds.
pub const HEARTBEAT_INTERVAL: u128 = 15_000_000_000;

/// How long the agent lets the pipe stay silent before it takes the host for
/// dead, in nanoseconds.
pub const HEARTBEAT_TIMEOUT: u128 = 60_000_000_000;

/// A command to run in the guest. It is always an argv, spawned without a shell,
/// so the arguments survive byte for byte.
#[derive(Debug)]
pub struct ExecRequest {
    pub version: u32,
    pub argv: Vec<String>,
    /// Variables set on top of the agent's own environment.
    pub env: OrdMap<String>,
    /// The working directory; a leading `~/` is the guest's home.
    pub cwd: String,
    /// What the command reads on its stdin. Without it, the null device.
    pub stdin: Option<String>,
    /// The agent's silence budget in milliseconds, in place of the usual one.
    pub heartbeat_timeout_ms: Option<u64>,
}

/// The refusal of a request of another version.
pub open spec fn version_mismatch(version: u32) -> Seq<char> {
    "protocol version mismatch: host sent v"@ + text::decimal(version as nat)
        + ", agent speaks v4 (run `vm deploy` to update the guest agent)"@
}

/// What is wrong with a request, if anything: the version comes first.
pub open spec fn complaint(req: ExecRequest) -> Option<Seq<char>> {
    if req.version != PROTO_VERSION {
        Some(version_mismatch(req.version))
    } else if req.argv@.len() == 0 {
        Some("ExecRequest.argv is empty"@)
    } else {
        None
    }
}

/// The arguments in the fields of a request, or what is wrong with them.
pub open spec fn argv_field(fields: Seq<(Seq<char>, Seq<char>)>) -> Result<
    Seq<Seq<char>>,
    Seq<char>,
> {
    match json::field(fields, "argv"@) {
        None => Err(json::missing("argv"@)),
        Some(value) => json::strings_in(value),
    }
}

/// The variables in the fields of a request, or what is wrong with them. Without
/// the field there are none.
pub open spec fn env_field(fields: Seq<(Seq<char>, Seq<char>)>) -> Result<
    Map<Seq<char>, Seq<char>>,
    Seq<char>,
> {
    match json::field(fields, "env"@) {
        None => Ok(Map::empty()),
        Some(value) => match json::string_map_in(value) {
            Ok(entries) => Ok(ordmap::as_map(entries)),
            Err(e) => Err(e),
        },
    }
}

/// Whether some fields are those of a request. Fields that a request does not have
/// are passed over.
pub open spec fn says(fields: Seq<(Seq<char>, Seq<char>)>, req: ExecRequest) -> bool {
    &&& json::ok(json::number_field(fields, "version"@), req.version)
    &&& json::ok(argv_field(fields), text::views(req.argv@))
    &&& json::ok(env_field(fields), json::texts(req.env))
    &&& json::ok(json::text_field(fields, "cwd"@), req.cwd@)
    &&& json::ok(json::maybe_text(fields, "stdin"@), text::opt_string(req.stdin))
    &&& json::ok(
        json::maybe_whole(fields, "heartbeat_timeout_ms"@),
        req.heartbeat_timeout_ms,
    )
}

/// The fields of a request, in their order.
pub open spec fn request_keys() -> Seq<Seq<char>> {
    seq!["version"@, "argv"@, "env"@, "cwd"@, "stdin"@, "heartbeat_timeout_ms"@]
}

/// The fields that a text gives of a request, or what is wrong with it.
pub open spec fn request_in(line: Seq<char>) -> Result<Seq<(Seq<char>, Seq<char>)>, Seq<char>> {
    json::record_in(line, "ExecRequest"@, request_keys(), 4, false)
}

/// Whether a text is that of a request.
pub open spec fn reads_as(line: Seq<char>, req: ExecRequest) -> bool {
    request_in(line) matches Ok(fields) && says(fields, req)
}

/// What is wrong with the fields of a request, if anything: the first of them.
pub open spec fn wrong(fields: Seq<(Seq<char>, Seq<char>)>) -> Option<Seq<char>> {
    if json::number_field(fields, "version"@) is Err {
        Some(json::number_field(fields, "version"@)->Err_0)
    } else if argv_field(fields) is Err {
        Some(argv_field(fields)->Err_0)
    } else if env_field(fields) is Err {
        Some(env_field(fields)->Err_0)
    } else if json::text_field(fields, "cwd"@) is Err {
        Some(json::text_field(fields, "cwd"@)->Err_0)
    } else if json::maybe_text(fields, "stdin"@) is Err {
        Some(json::maybe_text(fields, "stdin"@)->Err_0)
    } else if json::maybe_whole(fields, "heartbeat_timeout_ms"@) is Err {
        Some(json::maybe_whole(fields, "heartbeat_timeout_ms"@)->Err_0)
    } else {
        None
    }
}

/// What is wrong with the text of a request, if anything.
pub open spec fn unreadable(line: Seq<char>) -> Option<Seq<char>> {
    match request_in(line) {
        Ok(fields) => wrong(fields),
        Err(e) => Some(e),
    }
}

/// Whether this is what an agent makes of a line: the request that it is, or what
/// is wrong with it.
pub open spec fn received(line: Seq<char>, r: Result<ExecRequest, Failure>) -> bool {
    match unreadable(line) {
        Some(why) => r matches Err(e) && e is Infra && e.says() == "parsing ExecRequest JSON: "@
            + why,
        None => match r {
            Ok(req) => reads_as(line, req) && complaint(req) is None,
            Err(e) => e is Infra && exists|req: ExecRequest|
                #[trigger] reads_as(line, req) && complaint(req) == Some(e.says()),
        },
    }
}

/// Whether two requests ask for the same.
pub open spec fn same_request(a: ExecRequest, b: ExecRequest) -> bool {
    &&& a.version == b.version
    &&& text::views(a.argv@) == text::views(b.argv@)
    &&& json::texts(a.env) == json::texts(b.env)
    &&& a.cwd@ == b.cwd@
    &&& text::opt_string(a.stdin) == text::opt_string(b.stdin)
    &&& a.heartbeat_timeout_ms == b.heartbeat_timeout_ms
}

/// The texts of the fields of a request, in their order. Its input and its budget
/// are there where it has them.
pub open spec fn request_fields(req: ExecRequest) -> Seq<(Seq<char>, Seq<char>)> {
    let always = seq![
        ("version"@, text::decimal(req.version as nat)),
        (
            "argv"@,
            json::list_text(
                text::views(req.argv@).map_values(|s: Seq<char>| json::string_text(s)),
            ),
        ),
        ("env"@, json::object_text(json::printed_values(json::entries(req.env)))),
        ("cwd"@, json::string_text(req.cwd@)),
    ];
    let with_input = match req.stdin {
        Some(s) => always.push(("stdin"@, json::string_text(s@))),
        None => always,
    };
    match req.heartbeat_timeout_ms {
        Some(ms) => with_input.push(("heartbeat_timeout_ms"@, text::decimal(ms as nat))),
        None => with_input,
    }
}

proof fn keys_differ()
    ensures
        "version"@ != "argv"@,
        "version"@ != "env"@,
        "version"@ != "cwd"@,
        "version"@ != "stdin"@,
        "version"@ != "heartbeat_timeout_ms"@,
        "argv"@ != "env"@,
        "argv"@ != "cwd"@,
        "argv"@ != "stdin"@,
        "argv"@ != "heartbeat_timeout_ms"@,
        "env"@ != "cwd"@,
        "env"@ != "stdin"@,
        "env"@ != "heartbeat_timeout_ms"@,
        "cwd"@ != "stdin"@,
        "cwd"@ != "heartbeat_timeout_ms"@,
        "stdin"@ != "heartbeat_timeout_ms"@,
{
    reveal_strlit("argv");
    reveal_strlit("cwd");
    reveal_strlit("env");
    reveal_strlit("heartbeat_timeout_ms");
    reveal_strlit("stdin");
    reveal_strlit("version");
    assert("argv"@[0] == 'a' && "cwd"@[0] == 'c' && "env"@[0] == 'e');
    assert("heartbeat_timeout_ms"@[0] == 'h' && "stdin"@[0] == 's' && "version"@[0] == 'v');
}

proof fn fields_are_found(req: ExecRequest)
    ensures
        ({
            let all = request_fields(req);
            &&& json::distinct(all)
            &&& json::field(all, "version"@) == Some(all[0].1)
            &&& json::field(all, "argv"@) == Some(all[1].1)
            &&& json::field(all, "env"@) == Some(all[2].1)
            &&& json::field(all, "cwd"@) == Some(all[3].1)
            &&& json::field(all, "stdin"@) == (match req.stdin {
                Some(s) => Some(json::string_text(s@)),
                None => None,
            })
            &&& json::field(all, "heartbeat_timeout_ms"@) == (match req.heartbeat_timeout_ms {
                Some(ms) => Some(text::decimal(ms as nat)),
                None => None,
            })
        }),
{
    let all = request_fields(req);
    keys_differ();
    assert(json::distinct(all));
    json::field_at(all, 0);
    json::field_at(all, 1);
    json::field_at(all, 2);
    json::field_at(all, 3);
    match req.stdin {
        Some(_) => {
            json::field_at(all, 4);
        },
        None => {
            json::no_field(all, "stdin"@);
        },
    }
    match req.heartbeat_timeout_ms {
        Some(_) => {
            json::field_at(all, all.len() - 1);
        },
        None => {
            json::no_field(all, "heartbeat_timeout_ms"@);
        },
    }
}

fn parse(line: &str) -> (r: Result<ExecRequest, String>)
    ensures
        match r {
            Ok(req) => unreadable(line@) is None && reads_as(line@, req),
            Err(e) => unreadable(line@) == Some(e@),
        },
{
    let keys: [&str; 6] = ["version", "argv", "env", "cwd", "stdin", "heartbeat_timeout_ms"];
    assert(text::str_views(keys@) =~= request_keys());
    let fields: Vec<(String, String)> = match json::read_record(
        line,
        "ExecRequest",
        &keys,
        4,
        false,
    ) {
        Ok(fields) => fields,
        Err(e) => {
            return Err(e);
        },
    };
    let version: u32 = match json::need_number(&fields, "version") {
        Ok(n) => n,
        Err(e) => {
            return Err(e);
        },
    };
    let argv: Vec<String> = match json::find(&fields, "argv") {
        None => {
            return Err(json::missing_field("argv"));
        },
        Some(value) => match json::read_strings(value) {
            Ok(v) => v,
            Err(e) => {
                return Err(e);
            },
        },
    };
    let env: OrdMap<String> = match json::find(&fields, "env") {
        None => {
            let m: OrdMap<String> = OrdMap::new();
            assert(json::texts(m) =~= Map::<Seq<char>, Seq<char>>::empty());
            m
        },
        Some(value) => match json::read_string_map(value) {
            Ok(m) => m,
            Err(e) => {
                return Err(e);
            },
        },
    };
    let cwd: String = match json::need_text(&fields, "cwd") {
        Ok(s) => s,
        Err(e) => {
            return Err(e);
        },
    };
    let stdin: Option<String> = match json::optional_text(&fields, "stdin") {
        Ok(s) => s,
        Err(e) => {
            return Err(e);
        },
    };
    let heartbeat_timeout_ms: Option<u64> = match json::optional_whole(
        &fields,
        "heartbeat_timeout_ms",
    ) {
        Ok(n) => n,
        Err(e) => {
            return Err(e);
        },
    };
    Ok(ExecRequest { version, argv, env, cwd, stdin, heartbeat_timeout_ms })
}

impl ExecRequest {
    /// The request that a line is, as an agent takes it. One of another version is
    /// refused for its version, and one without a command is refused too.
    pub fn read_from(line: &str) -> (r: Result<ExecRequest, Failure>)
        ensures
            received(line@, r),
    {
        let req: ExecRequest = match parse(line) {
            Ok(req) => req,
            Err(why) => {
                let mut msg = "parsing ExecRequest JSON: ".to_owned();
                msg.append(why.as_str());
                return Err(infra(msg));
            },
        };
        if req.version != PROTO_VERSION {
            let mut msg = "protocol version mismatch: host sent v".to_owned();
            msg.append(text::to_decimal(req.version as u128).as_str());
            msg.append(", agent speaks v4 (run `vm deploy` to update the guest agent)");
            assert(reads_as(line@, req));
            return Err(infra(msg));
        }
        if req.argv.len() == 0 {
            assert(reads_as(line@, req));
            return Err(infra("ExecRequest.argv is empty".to_owned()));
        }
        Ok(req)
    }

    /// The request that a line is, where a parse into a typed record took the line.
    /// Where it did not, its complaint stands: it says where in the line it is.
    pub fn read_placed(line: &str, typed: Result<(), String>) -> (r: Result<ExecRequest, Failure>)
        ensures
            match typed {
                Ok(_) => received(line@, r),
                Err(why) => r matches Err(e) && e is Infra && e.says()
                    == "parsing ExecRequest JSON: "@ + why@,
            },
    {
        match typed {
            Ok(_) => ExecRequest::read_from(line),
            Err(why) => {
                let mut msg = "parsing ExecRequest JSON: ".to_owned();
                msg.append(why.as_str());
                Err(infra(msg))
            },
        }
    }

    /// The request as a line without its end, which reads as that request. Input
    /// rides inside of it, so that none of it can be taken for a beat.
    pub fn write_to(&self) -> (r: String)
        ensures
            r@ == json::object_text(request_fields(*self)),
            reads_as(r@, *self),
            json::one_line(r@),
    {
        let mut fields: Vec<(String, Printed)> = Vec::new();
        fields.push(("version".to_owned(), json::print_whole(self.version as u64)));
        fields.push(("argv".to_owned(), json::print_strings(&self.argv)));
        fields.push(("env".to_owned(), json::print_map(&self.env)));
        fields.push(("cwd".to_owned(), json::print_string(self.cwd.as_str())));
        if let Some(s) = &self.stdin {
            fields.push(("stdin".to_owned(), json::print_string(s.as_str())));
        }
        if let Some(ms) = self.heartbeat_timeout_ms {
            fields.push(("heartbeat_timeout_ms".to_owned(), json::print_whole(ms)));
        }
        proof {
            assert(json::field_views(fields@) =~= request_fields(*self));
            fields_are_found(*self);
            json::distinct_never_repeat(request_fields(*self), request_keys());
        }
        json::print_fields(&fields)
    }
}

/// What is written for a request is received as that request: every argument,
/// variable and input arrives as it was, whatever it holds.
pub proof fn a_request_reads_back(
    sent: ExecRequest,
    line: Seq<char>,
    r: Result<ExecRequest, Failure>,
)
    requires
        reads_as(line, sent),
        complaint(sent) is None,
        received(line, r),
    ensures
        r matches Ok(got) && same_request(got, sent),
{
    assert(unreadable(line) is None);
    if let Err(e) = r {
        let other = choose|req: ExecRequest|
            #[trigger] reads_as(line, req) && complaint(req) == Some(e.says());
        assert(other.version == sent.version);
        assert(text::views(other.argv@) == text::views(sent.argv@));
        assert(text::views(other.argv@).len() == other.argv@.len());
        assert(text::views(sent.argv@).len() == sent.argv@.len());
    }
}

/// A request of another version is refused for its version, whatever else it
/// holds, and the refusal says what to do.
pub proof fn another_version_is_refused(
    sent: ExecRequest,
    line: Seq<char>,
    r: Result<ExecRequest, Failure>,
)
    requires
        reads_as(line, sent),
        sent.version != PROTO_VERSION,
        received(line, r),
    ensures
        r matches Err(e) && e is Infra && e.says() == version_mismatch(sent.version),
{
    assert(unreadable(line) is None);
    match r {
        Ok(got) => {
            assert(got.version == sent.version);
        },
        Err(e) => {
            let other = choose|req: ExecRequest|
                #[trigger] reads_as(line, req) && complaint(req) == Some(e.says());
            assert(other.version == sent.version);
        },
    }
}

/// The request ends where the beats begin: what follows its line, whatever it is,
/// is no part of it.
pub proof fn a_request_ends_with_its_line(line: Seq<char>, beats: Seq<char>)
    requires
        json::one_line(line),
    ensures
        text::split(line + seq!['\n'] + beats, '\n')[0] == line,
{
    text::split_at_first(line, '\n', beats);
}

/// What an agent says of itself.
#[derive(Debug)]
pub struct VersionInfo {
    pub proto: u32,
    pub binary: String,
}

/// The fields that a text gives of a version, or what is wrong with it.
pub open spec fn version_in(text: Seq<char>) -> Result<Seq<(Seq<char>, Seq<char>)>, Seq<char>> {
    json::record_in(text, "VersionInfo"@, seq!["proto"@, "binary"@], 2, false)
}

/// What is wrong with the text of a version, if anything.
pub open spec fn version_trouble(text: Seq<char>) -> Option<Seq<char>> {
    match version_in(text) {
        Err(e) => Some(e),
        Ok(fields) => if json::number_field(fields, "proto"@) is Err {
            Some(json::number_field(fields, "proto"@)->Err_0)
        } else if json::text_field(fields, "binary"@) is Err {
            Some(json::text_field(fields, "binary"@)->Err_0)
        } else {
            None
        },
    }
}

/// Whether a text is that of a version.
pub open spec fn version_reads_as(text: Seq<char>, info: VersionInfo) -> bool {
    version_in(text) matches Ok(fields) && json::ok(
        json::number_field(fields, "proto"@),
        info.proto,
    ) && json::ok(json::text_field(fields, "binary"@), info.binary@)
}

/// The texts of the fields of a version, in their order.
pub open spec fn version_fields(info: VersionInfo) -> Seq<(Seq<char>, Seq<char>)> {
    seq![
        ("proto"@, text::decimal(info.proto as nat)),
        ("binary"@, json::string_text(info.binary@)),
    ]
}

/// Whether this is what is made of an agent's reply.
pub open spec fn version_received(reply: Seq<char>, r: Result<VersionInfo, String>) -> bool {
    match r {
        Ok(info) => version_trouble(reply) is None && version_reads_as(reply, info),
        Err(e) => version_trouble(reply) == Some(e@),
    }
}

impl VersionInfo {
    /// What this binary says of itself, given its own version.
    pub fn current(binary: &str) -> (r: VersionInfo)
        ensures
            r.proto == PROTO_VERSION,
            r.binary@ == binary@,
    {
        VersionInfo { proto: PROTO_VERSION, binary: binary.to_owned() }
    }

    /// What an agent said of itself, or what is wrong with its reply.
    pub fn read_from(reply: &str) -> (r: Result<VersionInfo, String>)
        ensures
            version_received(reply@, r),
    {
        let keys: [&str; 2] = ["proto", "binary"];
        assert(text::str_views(keys@) =~= seq!["proto"@, "binary"@]);
        let fields: Vec<(String, String)> = match json::read_record(
            reply,
            "VersionInfo",
            &keys,
            2,
            false,
        ) {
            Ok(fields) => fields,
            Err(e) => {
                return Err(e);
            },
        };
        let proto: u32 = match json::need_number(&fields, "proto") {
            Ok(n) => n,
            Err(e) => {
                return Err(e);
            },
        };
        match json::need_text(&fields, "binary") {
            Ok(binary) => Ok(VersionInfo { proto, binary }),
            Err(e) => Err(e),
        }
    }

    /// The reply that says this, on one line.
    pub fn write_to(&self) -> (r: String)
        ensures
            r@ == json::object_text(version_fields(*self)),
            version_reads_as(r@, *self),
            json::one_line(r@),
    {
        let proto: Printed = json::print_whole(self.proto as u64);
        let binary: Printed = json::print_string(self.binary.as_str());
        let mut fields: Vec<(String, Printed)> = Vec::new();
        fields.push(("proto".to_owned(), proto));
        fields.push(("binary".to_owned(), binary));
        proof {
            let laid = version_fields(*self);
            assert(json::field_views(fields@) =~= laid);
            reveal_strlit("binary");
            reveal_strlit("proto");
            assert("binary"@[0] == 'b' && "proto"@[0] == 'p');
            json::field_at(laid, 0);
            json::field_at(laid, 1);
            json::distinct_never_repeat(laid, seq!["proto"@, "binary"@]);
        }
        json::print_fields(&fields)
    }
}

/// What an agent writes of itself is received as it was.
pub proof fn a_version_reads_back(
    sent: VersionInfo,
    reply: Seq<char>,
    r: Result<VersionInfo, String>,
)
    requires
        version_reads_as(reply, sent),
        version_received(reply, r),
    ensures
        r matches Ok(got) && got.proto == sent.proto && got.binary@ == sent.binary@,
{
}

/// The silence budget of an agent, in nanoseconds.
pub open spec fn budget(req: ExecRequest) -> int {
    match req.heartbeat_timeout_ms {
        Some(ms) => ms * 1_000_000,
        None => HEARTBEAT_TIMEOUT as int,
    }
}

/// How long the agent lets the pipe stay silent, in nanoseconds.
pub fn silence_budget(req: &ExecRequest) -> (r: u128)
    ensures
        r == budget(*req),
{
    match req.heartbeat_timeout_ms {
        Some(ms) => ms as u128 * 1_000_000,
        None => HEARTBEAT_TIMEOUT,
    }
}

/// What an agent makes of its silent or closed pipe.
#[derive(Debug, Clone, Copy, PartialEq, Eq, Structural)]
pub enum Liveness {
    /// The host is there: keep listening.
    Listen,
    /// The host is gone: tear the process tree down.
    TearDown,
}

/// What one look at the pipe means: bytes were read, it was closed or broken, or
/// it stayed silent for so long.
pub fn host_is_alive(read: Option<usize>, silent_for: u128, budget: u128) -> (r: Liveness)
    ensures
        r == (match read {
            Some(n) => if n > 0 {
                Liveness::Listen
            } else {
                Liveness::TearDown
            },
            None => if silent_for >= budget {
                Liveness::TearDown
            } else {
                Liveness::Listen
            },
        }),
{
    match read {
        Some(n) => if n > 0 {
            Liveness::Listen
        } else {
            Liveness::TearDown
        },
        None => if silent_for >= budget {
            Liveness::TearDown
        } else {
            Liveness::Listen
        },
    }
}

/// The silence budget outlasts several missed beats, or one slow tick of a
/// scheduler would kill a healthy build.
pub proof fn budget_outlasts_missed_beats()
    ensures
        HEARTBEAT_TIMEOUT >= 3 * HEARTBEAT_INTERVAL,
        HEARTBEAT_TIMEOUT == 4 * HEARTBEAT_INTERVAL,
{
}

/// The silence budget is a minute, unless the request brings its own in milliseconds.
pub proof fn the_budget_is_a_minute_unless_set(req: ExecRequest)
    ensures
        req.heartbeat_timeout_ms is None ==> budget(req) == 60 * 1_000_000_000,
        req.heartbeat_timeout_ms matches Some(ms) ==> budget(req) == ms * 1_000_000,
{
}

/// A request is taken exactly where it is of the agent's own version, which is 4, and
/// names a command; one of another version is told so, whatever else is wrong with
/// it, with its version and with what to do.
pub proof fn only_a_command_of_this_version_is_taken(req: ExecRequest)
    ensures
        complaint(req) is None <==> req.version == 4 && req.argv@.len() > 0,
        req.version != 4 ==> (complaint(req) matches Some(why) && text::contains(
            why,
            text::decimal(req.version as nat),
        ) && text::contains(why, "run `vm deploy` to update the guest agent"@)),
{
    let (a, n, b) = (
        "protocol version mismatch: host sent v"@,
        text::decimal(req.version as nat),
        ", agent speaks v4 (run `vm deploy` to update the guest agent)"@,
    );
    text::what_is_contained_is_there(a, n, b);
    reveal_strlit(", agent speaks v4 (run `vm deploy` to update the guest agent)");
    reveal_strlit("run `vm deploy` to update the guest agent");
    let advice = "run `vm deploy` to update the guest agent"@;
    let front = b.take(19);
    let tail = b.skip(19 + advice.len() as int);
    assert(b =~= front + advice + tail);
    assert(a + n + b =~= (a + n + front) + advice + tail);
    text::what_is_contained_is_there(a + n + front, advice, tail);
}

/// A request is written with its fields under these names and in this order. Input and a
/// budget are there exactly where the request has them.
pub proof fn a_request_is_written_by_its_fields(req: ExecRequest)
    ensures
        ({
            let fields = request_fields(req);
            &&& fields[0] == ("version"@, text::decimal(req.version as nat))
            &&& fields[1].0 == "argv"@
            &&& fields[2].0 == "env"@
            &&& fields[3] == ("cwd"@, json::string_text(req.cwd@))
            &&& fields.len() == 4 + (if req.stdin is Some {
                1int
            } else {
                0
            }) + (if req.heartbeat_timeout_ms is Some {
                1int
            } else {
                0
            })
            &&& req.stdin is Some ==> fields[4] == ("stdin"@, json::string_text(req.stdin->0@))
            &&& req.heartbeat_timeout_ms is Some ==> fields.last() == (
                "heartbeat_timeout_ms"@,
                text::decimal(req.heartbeat_timeout_ms->0 as nat),
            )
        }),
        req.argv@.len() == 1 ==> request_fields(req)[1].1 == seq!['['] + json::string_text(
            req.argv@[0]@,
        ) + seq![']'],
{
    if req.argv@.len() == 1 {
        let none = Seq::<(Seq<char>, Seq<char>)>::empty();
        let item = json::string_text(req.argv@[0]@);
        json::lists_and_objects_are_punctuated(seq![item], item, none, item, item);
        assert(text::views(req.argv@).map_values(|s: Seq<char>| json::string_text(s)) =~= seq![
            item,
        ]);
    }
}

/// A request is read from the fields that bear these names, and from no others: a version, a
/// list of strings and a directory it must have, and the rest may be left out.
pub proof fn a_request_is_read_by_its_fields(
    fields: Seq<(Seq<char>, Seq<char>)>,
    i: int,
    j: int,
    k: int,
    req: ExecRequest,
)
    requires
        json::distinct(fields),
        fields.len() == 3,
        0 <= i < 3,
        0 <= j < 3,
        0 <= k < 3,
        fields[i].0 == "version"@,
        fields[j].0 == "argv"@,
        fields[k].0 == "cwd"@,
    ensures
        says(fields, req) <==> {
            &&& json::ok(json::number_field(fields, fields[i].0), req.version)
            &&& json::ok(json::strings_in(fields[j].1), text::views(req.argv@))
            &&& json::ok(json::string_in(fields[k].1), req.cwd@)
            &&& json::texts(req.env) == Map::<Seq<char>, Seq<char>>::empty()
            &&& req.stdin is None
            &&& req.heartbeat_timeout_ms is None
        },
        wrong(fields) is None <==> {
            &&& json::number_field(fields, fields[i].0) is Ok
            &&& json::strings_in(fields[j].1) is Ok
            &&& json::string_in(fields[k].1) is Ok
        },
{
    keys_differ();
    json::field_at(fields, i);
    json::field_at(fields, j);
    json::field_at(fields, k);
    assert(i != j && i != k && j != k);
    assert forall|m: int| 0 <= m < 3 implies (#[trigger] fields[m]).0 != "env"@ && fields[m].0
        != "stdin"@ && fields[m].0 != "heartbeat_timeout_ms"@ by {
        assert(m == i || m == j || m == k);
    }
    json::no_field(fields, "env"@);
    json::no_field(fields, "stdin"@);
    json::no_field(fields, "heartbeat_timeout_ms"@);
}

/// A version is read from the two fields that bear these names, and written under them.
pub proof fn a_version_is_read_by_its_fields(
    text: Seq<char>,
    fields: Seq<(Seq<char>, Seq<char>)>,
    i: int,
    j: int,
    info: VersionInfo,
)
    requires
        json::ok(json::members_in(text), fields),
        json::distinct(fields),
        0 <= i < fields.len(),
        0 <= j < fields.len(),
        fields[i].0 == "proto"@,
        fields[j].0 == "binary"@,
    ensures
        version_reads_as(text, info) <==> json::ok(
            json::number_field(fields, fields[i].0),
            info.proto,
        ) && json::ok(json::string_in(fields[j].1), info.binary@),
        version_trouble(text) is None <==> json::number_field(fields, fields[i].0) is Ok
            && json::string_in(fields[j].1) is Ok,
        version_fields(info) == seq![
            ("proto"@, text::decimal(info.proto as nat)),
            ("binary"@, json::string_text(info.binary@)),
        ],
{
    json::field_at(fields, i);
    json::field_at(fields, j);
    json::distinct_never_repeat(fields, seq!["proto"@, "binary"@]);
}

/// A guest beats every fifteen seconds, and is given up after a minute of silence.
pub proof fn a_guest_beats_four_times_a_minute()
    ensures
        HEARTBEAT_INTERVAL == 15 * 1_000_000_000,
        HEARTBEAT_TIMEOUT == 60 * 1_000_000_000,
        PROTO_VERSION == 4,
{
}

/// A version may be given as a list too, in the order of its fields, and of just as many.
pub proof fn a_version_may_be_a_list(text: Seq<char>, items: Seq<Seq<char>>, info: VersionInfo)
    requires
        json::members_in(text) is Err,
        json::ok(json::elements_in(text), items),
    ensures
        items.len() != 2 ==> version_trouble(text) is Some,
        items.len() == 2 ==> (version_reads_as(text, info) <==> (json::whole_in(items[0]) matches
            Ok(n) && n == info.proto) && json::ok(json::string_in(items[1]), info.binary@)),
{
    reveal_strlit("proto");
    reveal_strlit("binary");
    if items.len() == 2 {
        let keys = seq!["proto"@, "binary"@];
        let fields = json::under_keys(keys, items);
        assert("proto"@[0] == 'p' && "binary"@[0] == 'b');
        assert(fields[0] == (keys[0], items[0]) && fields[1] == (keys[1], items[1]));
        assert(json::distinct(fields));
        json::field_at(fields, 0);
        json::field_at(fields, 1);
    }
}

} // verus!
