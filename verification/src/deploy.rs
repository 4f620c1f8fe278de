//! `vm deploy`: the agent, built and installed inside a guest.
//!
//! The source travels as any repo does, but by plain remote commands: the agent
//! that would otherwise receive it is not there yet.

use crate::config::GuestOs;
use crate::exit::{infra, Failure};
use crate::mapping;
use crate::prldnd;
use crate::proto::{self, VersionInfo};
use crate::ssh::SshTarget;
use crate::text;
use vstd::prelude::*;

verus! {

// ── The order of a deployment ────────────────────────────────────────────────

/// The steps of a deployment.
#[derive(Debug, Clone, Copy, PartialEq, Eq, Structural)]
pub enum Stage {
    /// Look for the source.
    Source,
    BringUp,
    /// Make the directories and the repository in the guest.
    Prepare,
    /// Push the source.
    Push,
    /// Check the pushed source out.
    Checkout,
    Build,
    /// Ask the installed agent for its version.
    Handshake,
    /// Install the shutdown unit.
    Unit,
    Done,
}

/// The step after one that worked. Only a Linux guest has a shutdown unit.
pub open spec fn next(stage: Stage, os: GuestOs) -> Stage {
    match stage {
        Stage::Source => Stage::BringUp,
        Stage::BringUp => Stage::Prepare,
        Stage::Prepare => Stage::Push,
        Stage::Push => Stage::Checkout,
        Stage::Checkout => Stage::Build,
        Stage::Build => Stage::Handshake,
        Stage::Handshake => if os == GuestOs::Linux {
            Stage::Unit
        } else {
            Stage::Done
        },
        Stage::Unit => Stage::Done,
        Stage::Done => Stage::Done,
    }
}

/// The step that follows, or the failure that ends the deployment.
pub fn deploy(stage: Stage, os: GuestOs, result: Result<(), Failure>) -> (r: Result<
    Stage,
    Failure,
>)
    ensures
        match result {
            Ok(_) => r == Ok::<Stage, Failure>(next(stage, os)),
            Err(e) => r == Err::<Stage, Failure>(e),
        },
{
    match result {
        Err(e) => Err(e),
        Ok(_) => Ok(
            match stage {
                Stage::Source => Stage::BringUp,
                Stage::BringUp => Stage::Prepare,
                Stage::Prepare => Stage::Push,
                Stage::Push => Stage::Checkout,
                Stage::Checkout => Stage::Build,
                Stage::Build => Stage::Handshake,
                Stage::Handshake => if os == GuestOs::Linux {
                    Stage::Unit
                } else {
                    Stage::Done
                },
                Stage::Unit => Stage::Done,
                Stage::Done => Stage::Done,
            },
        ),
    }
}

/// The step a deployment is at after so many that worked.
pub open spec fn stage_at(n: nat, os: GuestOs) -> Stage
    decreases n,
{
    if n == 0 {
        Stage::Source
    } else {
        next(stage_at((n - 1) as nat, os), os)
    }
}

/// No deployment is done before the agent has answered, nor on Linux before the
/// shutdown unit is in place.
pub proof fn done_means_answered(n: nat, os: GuestOs)
    requires
        stage_at(n, os) == Stage::Done,
    ensures
        exists|k: nat| k < n && #[trigger] stage_at(k, os) == Stage::Handshake,
        os == GuestOs::Linux ==> exists|k: nat| k < n && #[trigger] stage_at(k, os) == Stage::Unit,
    decreases n,
{
    reveal_with_fuel(stage_at, 8);
    assert(stage_at(6, os) == Stage::Handshake);
    assert(os == GuestOs::Linux ==> stage_at(7, os) == Stage::Unit);
    if n <= 7 {
        assert(n == 7);
    }
}

// ── What is said and run ─────────────────────────────────────────────────────

/// Whether the source is where the binary was built from.
pub fn source_check(src: &str, found: bool) -> (r: Result<(), Failure>)
    ensures
        match r {
            Ok(_) => found,
            Err(e) => !found && e is Infra && e.says() == "vm source not found at "@ + src@
                + " (deploy currently builds from the repo this binary was compiled from)"@,
        },
{
    if found {
        return Ok(());
    }
    let mut msg = "vm source not found at ".to_owned();
    msg.append(src);
    msg.append(" (deploy currently builds from the repo this binary was compiled from)");
    Err(infra(msg))
}

/// The line that a deployment begins with.
pub fn deploying_line(alias: &str, src: &str) -> (r: String)
    ensures
        r@ == "vm ▸ "@ + alias@ + " ▸ deploying agent (build-in-guest from "@ + src@ + ")…"@,
{
    let mut line = "vm ▸ ".to_owned();
    line.append(alias);
    line.append(" ▸ deploying agent (build-in-guest from ");
    line.append(src);
    line.append(")…");
    line
}

/// The line that a build begins with.
pub fn building_line(alias: &str) -> (r: String)
    ensures
        r@ == "vm ▸ "@ + alias@ + " ▸ building agent in guest (first build takes a while)…"@,
{
    let mut line = "vm ▸ ".to_owned();
    line.append(alias);
    line.append(" ▸ building agent in guest (first build takes a while)…");
    line
}

/// The file name of the agent on a system.
pub open spec fn binary(os: GuestOs) -> Seq<char> {
    match os {
        GuestOs::Windows => "vm.exe"@,
        GuestOs::Linux => "vm"@,
        GuestOs::Macos => "vm"@,
    }
}

/// The remote line that makes the directories and the repository.
pub fn prepare_line() -> (r: &'static str)
    ensures
        r@ == "mkdir -p ~/.vm/bin && { test -d ~/.vm/src/.git || git init -q ~/.vm/src; } && git -C ~/.vm/src config core.autocrlf false"@,
{
    "mkdir -p ~/.vm/bin && { test -d ~/.vm/src/.git || git init -q ~/.vm/src; } && git -C ~/.vm/src config core.autocrlf false"
}

/// The key of a deployment's sync: deployments of one alias exclude each other.
pub fn sync_key(alias: &str) -> (r: String)
    ensures
        r@ == "deploy-"@ + alias@,
{
    let mut key = "deploy-".to_owned();
    key.append(alias);
    key
}

/// The remote line that checks a pushed commit out.
pub fn checkout_line(commit: &str) -> (r: String)
    ensures
        r@ == "git -C ~/.vm/src reset --hard -q "@ + commit@ + " && git -C ~/.vm/src clean -fdq"@,
{
    let mut line = "git -C ~/.vm/src reset --hard -q ".to_owned();
    line.append(commit);
    line.append(" && git -C ~/.vm/src clean -fdq");
    line
}

/// The remote line that builds the agent and installs it by a rename, which a
/// running agent does not get in the way of.
pub fn build_in_guest(os: GuestOs) -> (r: String)
    ensures
        r@ == "cd ~/.vm/src && PATH=\"$HOME/.cargo/bin:$PATH\" cargo build --release && cp target/release/"@
            + binary(os) + " ~/.vm/bin/"@ + binary(os) + ".new && mv -f ~/.vm/bin/"@ + binary(os)
            + ".new ~/.vm/bin/"@ + binary(os),
{
    let bin: &str = match os {
        GuestOs::Windows => "vm.exe",
        GuestOs::Linux => "vm",
        GuestOs::Macos => "vm",
    };
    let mut line =
        "cd ~/.vm/src && PATH=\"$HOME/.cargo/bin:$PATH\" cargo build --release && cp target/release/".to_owned();
    line.append(bin);
    line.append(" ~/.vm/bin/");
    line.append(bin);
    line.append(".new && mv -f ~/.vm/bin/");
    line.append(bin);
    line.append(".new ~/.vm/bin/");
    line.append(bin);
    line
}

/// Whether a remote line succeeded.
pub fn remote(line: &str, success: bool, code: Option<i32>) -> (r: Result<(), Failure>)
    ensures
        match r {
            Ok(_) => success,
            Err(e) => !success && e is Infra && e.says() == "remote step failed (exit "@
                + prldnd::code_text(code) + "): "@ + line@,
        },
{
    if success {
        return Ok(());
    }
    let mut msg = "remote step failed (exit ".to_owned();
    msg.append(prldnd::show_code(code).as_str());
    msg.append("): ");
    msg.append(line);
    Err(infra(msg))
}

/// Whether this is what comes of a version: the agent must speak the protocol.
pub open spec fn greeted(alias: Seq<char>, info: VersionInfo, r: Result<String, Failure>) -> bool {
    match r {
        Ok(line) => info.proto == proto::PROTO_VERSION && line@ == "vm ▸ "@ + alias + " ▸ agent v"@
            + info.binary@ + " (proto v"@ + text::decimal(info.proto as nat) + ") installed"@,
        Err(e) => info.proto != proto::PROTO_VERSION && e is Infra && e.says()
            == "deployed agent speaks proto v"@ + text::decimal(info.proto as nat)
            + " but host needs v4"@,
    }
}

/// What the installed agent's reply means.
pub fn handshake(alias: &str, reply: &str) -> (r: Result<String, Failure>)
    ensures
        match proto::version_trouble(reply@) {
            Some(why) => r matches Err(e) && e is Infra && e.says() == "parsing agent _version: "@
                + why,
            None => exists|info: VersionInfo|
                #[trigger] proto::version_reads_as(reply@, info) && greeted(alias@, info, r),
        },
{
    let info: VersionInfo = match VersionInfo::read_from(reply) {
        Ok(info) => info,
        Err(why) => {
            let mut msg = "parsing agent _version: ".to_owned();
            msg.append(why.as_str());
            return Err(infra(msg));
        },
    };
    let r: Result<String, Failure> = if info.proto != proto::PROTO_VERSION {
        let mut msg = "deployed agent speaks proto v".to_owned();
        msg.append(text::to_decimal(info.proto as u128).as_str());
        msg.append(" but host needs v4");
        Err(infra(msg))
    } else {
        let mut line = "vm ▸ ".to_owned();
        line.append(alias);
        line.append(" ▸ agent v");
        line.append(info.binary.as_str());
        line.append(" (proto v");
        line.append(text::to_decimal(info.proto as u128).as_str());
        line.append(") installed");
        Ok(line)
    };
    assert(proto::version_reads_as(reply@, info) && greeted(alias@, info, r));
    r
}

/// What the installed agent's reply means, where a parse into a typed record took
/// it. Where it did not, its complaint stands: it says where in the reply it is.
pub fn placed_handshake(alias: &str, reply: &str, typed: Result<(), String>) -> (r: Result<
    String,
    Failure,
>)
    ensures
        match typed {
            Ok(_) => match proto::version_trouble(reply@) {
                Some(why) => r matches Err(e) && e is Infra && e.says()
                    == "parsing agent _version: "@ + why,
                None => exists|info: VersionInfo|
                    #[trigger] proto::version_reads_as(reply@, info) && greeted(alias@, info, r),
            },
            Err(why) => r matches Err(e) && e is Infra && e.says() == "parsing agent _version: "@
                + why@,
        },
{
    match typed {
        Ok(_) => handshake(alias, reply),
        Err(why) => {
            let mut msg = "parsing agent _version: ".to_owned();
            msg.append(why.as_str());
            Err(infra(msg))
        },
    }
}

/// Where the source is pushed to in a guest.
pub fn source_url(target: &SshTarget) -> (r: String)
    ensures
        r@ == mapping::remote_url(target.user@, target.host@, "~/.vm/src"@),
{
    mapping::ssh_remote_url(target.user.as_str(), target.host.as_str(), "~/.vm/src")
}

/// A deployment takes its steps in this order, on every system; a Linux guest is given its
/// shutdown unit once the agent has answered.
pub proof fn a_deployment_takes_its_course(os: GuestOs)
    ensures
        stage_at(0, os) == Stage::Source,
        stage_at(1, os) == Stage::BringUp,
        stage_at(2, os) == Stage::Prepare,
        stage_at(3, os) == Stage::Push,
        stage_at(4, os) == Stage::Checkout,
        stage_at(5, os) == Stage::Build,
        stage_at(6, os) == Stage::Handshake,
        os == GuestOs::Linux ==> stage_at(7, os) == Stage::Unit && stage_at(8, os) == Stage::Done,
        os != GuestOs::Linux ==> stage_at(7, os) == Stage::Done,
{
    reveal_with_fuel(stage_at, 9);
}

/// A deployed agent is accepted exactly where it speaks the host's version, which is 4;
/// either way the line names the version that it speaks.
pub proof fn only_an_agent_of_this_version_is_accepted(
    alias: Seq<char>,
    info: VersionInfo,
    r: Result<String, Failure>,
)
    requires
        greeted(alias, info, r),
    ensures
        r is Ok <==> info.proto == 4,
        r matches Ok(line) ==> text::contains(line@, info.binary@) && text::contains(line@, alias),
        r matches Err(e) ==> e is Infra && text::contains(
            e.says(),
            text::decimal(info.proto as nat),
        ),
{
    let n = text::decimal(info.proto as nat);
    match r {
        Ok(line) => {
            let tail = " (proto v"@ + n + ") installed"@;
            let (a, b) = ("vm ▸ "@ + alias + " ▸ agent v"@, info.binary@);
            assert(line@ =~= a + b + tail);
            text::what_is_contained_is_there(a, b, tail);
            assert(line@ =~= "vm ▸ "@ + alias + (" ▸ agent v"@ + b + tail));
            text::what_is_contained_is_there("vm ▸ "@, alias, " ▸ agent v"@ + b + tail);
        },
        Err(e) => {
            text::what_is_contained_is_there(
                "deployed agent speaks proto v"@,
                n,
                " but host needs v4"@,
            );
        },
    }
}

/// The agent's program has the ending of its system.
pub proof fn only_windows_has_an_ending(os: GuestOs)
    ensures
        os == GuestOs::Windows ==> binary(os) == "vm.exe"@,
        os != GuestOs::Windows ==> binary(os) == "vm"@,
{
}

} // verus!
