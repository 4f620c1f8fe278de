//! Headless coding agents.

use vm::agent::{argv, reject_misplaced_vm_flags, run, Agent, AgentOptions};
use vm::claude::{self, ClaudeOptions};
use vm::exit::Failure;
use vm::guest_env::GuestEnv;

/// The first agent's binary.
fn binary() -> String {
    format!("{:?}", Agent::Claude).to_lowercase()
}

fn strings(v: &[&str]) -> Vec<String> {
    v.iter().map(|s| s.to_string()).collect()
}

fn opts(agent: Agent, agent_args: &[&str]) -> AgentOptions {
    AgentOptions {
        agent,
        prompt: "fix the failing test".into(),
        agent_args: strings(agent_args),
        with_snapshot: false,
        no_writeback: false,
        env: Vec::new(),
        with_file: Vec::new(),
        guest_env: None,
    }
}

#[test]
fn agent_argv_puts_extra_args_before_the_prompt() {
    assert_eq!(
        argv(&opts(Agent::Claude, &["--model", "sonnet"]), &binary()),
        [
            binary().as_str(),
            "-p",
            "--dangerously-skip-permissions",
            "--model",
            "sonnet",
            "fix the failing test",
        ]
    );
}

#[test]
fn codex_runs_the_exec_subcommand_with_approvals_bypassed() {
    assert_eq!(
        argv(&opts(Agent::Codex, &["--model", "gpt-5.1-codex"]), &binary()),
        [
            "codex",
            "exec",
            "--dangerously-bypass-approvals-and-sandbox",
            "--model",
            "gpt-5.1-codex",
            "fix the failing test",
        ]
    );
}

#[test]
fn the_prompt_stays_one_trailing_argument() {
    for agent in [Agent::Claude, Agent::Codex] {
        let argv = argv(&opts(agent, &[]), &binary());
        assert_eq!(argv.last().unwrap(), "fix the failing test");
        assert_eq!(argv[0], agent.name(&binary()));
    }
}

fn reject(agent: Agent, agent_args: &[&str]) -> Result<(), Failure> {
    reject_misplaced_vm_flags(agent, &binary(), &strings(agent_args))
}

#[test]
fn agent_a_vm_flag_in_the_passthrough_tail_is_rejected() {
    let err = reject(Agent::Claude, &["--model", "sonnet", "--no-writeback"]).unwrap_err();
    let err = err.text();
    assert!(err.contains("--no-writeback"), "{err}");
    assert!(err.contains("before the prompt"), "{err}");
}

#[test]
fn the_refusal_names_the_agent_that_was_asked_for() {
    let err = reject(
        Agent::Codex,
        &["--model", "gpt-5.1-codex", "--with-snapshot"],
    )
    .unwrap_err();
    let err = err.text();
    assert!(err.contains("vm codex <alias>"), "{err}");
    assert!(!err.contains(&binary()), "{err}");
}

#[test]
fn agent_the_value_form_is_rejected_too() {
    assert!(reject(Agent::Claude, &["--verbose", "--guest-env=none"]).is_err());
}

#[test]
fn the_agents_own_flags_pass_through_untouched() {
    assert!(reject(Agent::Claude, &["--model", "sonnet", "--verbose"]).is_ok());
    assert!(reject(Agent::Codex, &["--skip-git-repo-check", "-c", "model=x"]).is_ok());
}

#[test]
fn agent_a_misplaced_vm_flag_is_a_usage_error_not_an_infra_one() {
    let err = reject(Agent::Claude, &["--verbose", "--with-snapshot"]).unwrap_err();
    assert!(err.is_usage());
}

#[test]
fn every_vm_flag_is_reserved_and_the_first_misplaced_one_is_named() {
    for flag in [
        "--with-snapshot",
        "--no-writeback",
        "--guest-env",
        "--with-file",
        "--quiet",
        "-q",
    ] {
        let err = reject(Agent::Codex, &["-x", flag, "-q"]).unwrap_err();
        assert!(err.text().starts_with(&format!("`{flag}` is a vm flag")), "{flag}");
    }
}

#[test]
fn an_agents_run_is_contained() {
    let mut o = opts(Agent::Codex, &["--model", "m"]);
    o.no_writeback = true;
    o.with_snapshot = true;
    o.guest_env = Some(GuestEnv::Mise);
    o.env = strings(&["A=1"]);
    o.with_file = strings(&[".env"]);
    let exec = run(&o, &binary()).unwrap();
    assert!(!exec.no_sync && !exec.or_native && !exec.writeback && exec.with_snapshot);
    assert_eq!(exec.guest_env, Some(GuestEnv::Mise));
    assert_eq!(exec.env, ["A=1"]);
    assert_eq!(exec.with_file, [".env"]);
    assert_eq!(exec.cmd, argv(&o, &binary()));

    o.no_writeback = false;
    assert!(run(&o, &binary()).unwrap().writeback);
    o.agent_args = strings(&["--verbose", "-q"]);
    assert!(run(&o, &binary()).unwrap_err().is_usage());
}

#[test]
fn agents_are_probed_and_logged_in_by_their_own_commands() {
    assert_eq!(
        Agent::Claude.auth_probe(&binary()),
        format!(r#"{} -p --model haiku "say hi""#, binary())
    );
    assert_eq!(
        Agent::Codex.auth_probe(&binary()),
        r#"codex exec --skip-git-repo-check "say hi""#
    );
    assert_eq!(Agent::Claude.login_hint(&binary()), binary());
    assert_eq!(Agent::Codex.login_hint(&binary()), "codex login");
    assert_eq!(Agent::Codex.headless().len(), 2);
}

// ── The first agent by its own verb ──────────────────────────────────────────

fn claude_opts(claude_args: &[&str]) -> ClaudeOptions {
    ClaudeOptions {
        prompt: "fix the failing test".into(),
        claude_args: strings(claude_args),
        with_snapshot: false,
        no_writeback: false,
        env: Vec::new(),
        with_file: Vec::new(),
        guest_env: None,
    }
}

#[test]
fn claude_argv_puts_extra_args_before_the_prompt() {
    assert_eq!(
        claude::argv(&claude_opts(&["--model", "sonnet"]), &binary()),
        [
            binary().as_str(),
            "-p",
            "--dangerously-skip-permissions",
            "--model",
            "sonnet",
            "fix the failing test",
        ]
    );
}

fn claude_reject(claude_args: &[&str]) -> Result<(), Failure> {
    claude::reject_misplaced_vm_flags(&binary(), &strings(claude_args))
}

#[test]
fn claude_a_vm_flag_in_the_passthrough_tail_is_rejected() {
    let err = claude_reject(&["--model", "sonnet", "--no-writeback"]).unwrap_err();
    let err = err.text();
    assert!(err.contains("--no-writeback"), "{err}");
    assert!(err.contains("before the prompt"), "{err}");
}

#[test]
fn claude_the_value_form_is_rejected_too() {
    assert!(claude_reject(&["--verbose", "--guest-env=none"]).is_err());
}

#[test]
fn claudes_own_flags_pass_through_untouched() {
    assert!(claude_reject(&["--model", "sonnet", "--verbose"]).is_ok());
}

#[test]
fn claude_a_misplaced_vm_flag_is_a_usage_error_not_an_infra_one() {
    let err = claude_reject(&["--verbose", "--with-snapshot"]).unwrap_err();
    assert!(err.is_usage());
}

#[test]
fn a_claude_run_always_syncs_and_never_runs_natively() {
    let exec = claude::run(&claude_opts(&[]), &binary()).unwrap();
    assert!(!exec.no_sync && !exec.or_native && exec.writeback && !exec.with_snapshot);
    assert_eq!(exec.cmd[0], binary());
    assert!(claude::run(&claude_opts(&["--x", "--quiet"]), &binary()).is_err());
}
