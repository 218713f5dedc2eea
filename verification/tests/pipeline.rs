//! End-to-end scenarios: run a real command, normalize its outcome,
//! format the payload, and inspect the completion request.
use subprocess::{Exec, ExitStatus as RawStatus, Redirection};
use task_mon::checkin::{CheckId, Method};
use task_mon::format::format_payload;
use task_mon::invocation::{Config, Invocation};
use task_mon::status::{CaptureOutcome, Elapsed, ExecutionResult, ExitStatus};
use task_mon::MAX_BYTES_TO_POST;

const BASE: &str = "http://example.com";

fn run_command(args: &[&str]) -> CaptureOutcome {
    let exec = Exec::cmd(args[0])
        .args(&args[1..])
        .stdout(Redirection::Pipe)
        .stderr(Redirection::Merge);
    match exec.capture() {
        Ok(cap) => CaptureOutcome::Captured {
            output: cap.stdout,
            status: match cap.exit_status {
                RawStatus::Exited(c) => ExitStatus::Exited(c),
                RawStatus::Signaled(s) => ExitStatus::Signaled(s),
                _ => ExitStatus::Undetermined,
            },
        },
        Err(e) => CaptureOutcome::LaunchFailed { message: e.to_string() },
    }
}

fn fake_config(uuid: &str, command: &[&str]) -> Config {
    Config {
        base_url: BASE.to_string(),
        id: CheckId::Uuid(uuid.to_string()),
        time: false,
        head: false,
        ping_only: false,
        log: false,
        detailed: false,
        env: false,
        verbose: false,
        user_agent: None,
        command: command.iter().map(|s| s.to_string()).collect(),
    }
}

fn no_elapsed() -> Elapsed {
    Elapsed { secs: 0, nanos: 0 }
}

fn no_env() -> Vec<(String, String)> {
    Vec::new()
}

#[test]
fn success() {
    let cfg = fake_config("success", &["echo", "hello"]);
    let inv = Invocation::prepare(cfg);
    let outcome = run_command(&["echo", "hello"]);
    let result = ExecutionResult::from_outcome(outcome, inv.capture_output(), no_elapsed());
    let payload = format_payload(
        &result,
        &inv.config.command,
        &inv.config.format_options(),
        &no_env(),
    );
    let req = inv.complete_request(&payload);
    assert_eq!(req.method, Method::Post);
    assert_eq!(req.url, "http://example.com/success/0");
    assert_eq!(req.body.as_deref(), Some("hello\n"));
}

#[test]
fn fail() {
    let cfg = fake_config("fail", &["bash", "-c", "echo failed >&2; exit 5"]);
    let inv = Invocation::prepare(cfg);
    let outcome = run_command(&["bash", "-c", "echo failed >&2; exit 5"]);
    let result = ExecutionResult::from_outcome(outcome, inv.capture_output(), no_elapsed());
    let payload = format_payload(
        &result,
        &inv.config.command,
        &inv.config.format_options(),
        &no_env(),
    );
    let req = inv.complete_request(&payload);
    assert_eq!(req.url, "http://example.com/fail/5");
    assert_eq!(req.body.as_deref(), Some("failed\n"));
}

#[test]
fn log() {
    let mut cfg = fake_config("log", &["echo", "hello"]);
    cfg.log = true;
    let inv = Invocation::prepare(cfg);
    let outcome = run_command(&["echo", "hello"]);
    let result = ExecutionResult::from_outcome(outcome, inv.capture_output(), no_elapsed());
    let payload = format_payload(
        &result,
        &inv.config.command,
        &inv.config.format_options(),
        &no_env(),
    );
    assert_eq!(payload.exit_code, None);
    let req = inv.complete_request(&payload);
    assert_eq!(req.url, "http://example.com/log/log");
    assert_eq!(req.body.as_deref(), Some("hello\n"));
}

#[test]
fn slug() {
    let mut cfg = fake_config("dont-use", &["echo", "hello"]);
    cfg.id = CheckId::Slugged { ping_key: "key".to_string(), slug: "slug".to_string() };
    let inv = Invocation::prepare(cfg);
    let outcome = run_command(&["echo", "hello"]);
    let result = ExecutionResult::from_outcome(outcome, inv.capture_output(), no_elapsed());
    let payload = format_payload(
        &result,
        &inv.config.command,
        &inv.config.format_options(),
        &no_env(),
    );
    let req = inv.complete_request(&payload);
    assert_eq!(req.url, "http://example.com/key/slug/0");
    assert_eq!(req.body.as_deref(), Some("hello\n"));
}

#[test]
fn timed() {
    let mut cfg = fake_config("timed", &["echo", "hello"]);
    cfg.time = true;
    let inv = Invocation::prepare(cfg);

    let start_req = inv.start_request().unwrap();
    assert_eq!(start_req.method, Method::Get);
    assert!(start_req.url.starts_with("http://example.com/timed/start?rid="));
    assert!(start_req.body.is_none());
    let start_rid = &start_req.url[start_req.url.find("?rid=").unwrap() + 5..];
    assert_eq!(start_rid.len(), 36);

    let outcome = run_command(&["echo", "hello"]);
    let result = ExecutionResult::from_outcome(outcome, inv.capture_output(), no_elapsed());
    let payload = format_payload(
        &result,
        &inv.config.command,
        &inv.config.format_options(),
        &no_env(),
    );
    let req = inv.complete_request(&payload);
    assert!(req.url.starts_with("http://example.com/timed/0?rid="));
    let complete_rid = &req.url[req.url.find("?rid=").unwrap() + 5..];
    assert_eq!(start_rid, complete_rid);
    assert_eq!(req.body.as_deref(), Some("hello\n"));
}

#[test]
fn quiet() {
    let mut cfg = fake_config("quiet", &["echo", "quiet!"]);
    cfg.ping_only = true;
    let inv = Invocation::prepare(cfg);
    let outcome = run_command(&["echo", "quiet!"]);
    let result = ExecutionResult::from_outcome(outcome, inv.capture_output(), no_elapsed());
    assert!(result.output.is_empty());
    let payload = format_payload(
        &result,
        &inv.config.command,
        &inv.config.format_options(),
        &no_env(),
    );
    let req = inv.complete_request(&payload);
    assert_eq!(req.url, "http://example.com/quiet/0");
    assert!(req.body.is_none());
}

#[test]
fn detailed() {
    let mut cfg = fake_config("detailed", &["echo", "hello"]);
    cfg.detailed = true;
    let inv = Invocation::prepare(cfg);
    let outcome = run_command(&["echo", "hello"]);
    let result = ExecutionResult::from_outcome(outcome, inv.capture_output(), no_elapsed());
    let payload = format_payload(
        &result,
        &inv.config.command,
        &inv.config.format_options(),
        &no_env(),
    );
    let req = inv.complete_request(&payload);
    assert_eq!(req.url, "http://example.com/detailed/0");
    let body = req.body.as_deref().unwrap();
    assert!(body.starts_with("$ echo hello 2>&1\nhello\n\n\nExit Code: 0\nDuration: "));
    assert!(body.ends_with("s"));
}

#[test]
fn long_output() {
    let part = "🇺🇸⚾ ";
    let msg = part.repeat(1000);
    assert!(msg.len() > MAX_BYTES_TO_POST);
    assert!(!msg.is_char_boundary(msg.len() - MAX_BYTES_TO_POST - 1));

    let cfg = fake_config("long_output", &["echo", &msg]);
    let inv = Invocation::prepare(cfg);
    let outcome = run_command(&["echo", &msg]);
    let result = ExecutionResult::from_outcome(outcome, inv.capture_output(), no_elapsed());
    let payload = format_payload(
        &result,
        &inv.config.command,
        &inv.config.format_options(),
        &no_env(),
    );
    let req = inv.complete_request(&payload);
    assert_eq!(req.url, "http://example.com/long_output/0");
    let body = req.body.as_deref().unwrap();
    assert_eq!(body.len(), 9998);
    assert!(body.starts_with(&format!(" {}", part)));
    assert!(body.ends_with(&format!("{}\n", part)));
}

#[test]
fn absorbs_launch_failure() {
    let cfg = fake_config("launchfail", &["task-mon-test-no-such-binary"]);
    let inv = Invocation::prepare(cfg);
    let outcome = run_command(&["task-mon-test-no-such-binary"]);
    assert!(matches!(outcome, CaptureOutcome::LaunchFailed { .. }));
    let result = ExecutionResult::from_outcome(outcome, inv.capture_output(), no_elapsed());
    assert_eq!(result.code, 127);
    let payload = format_payload(
        &result,
        &inv.config.command,
        &inv.config.format_options(),
        &no_env(),
    );
    assert!(payload.text.starts_with("task_mon: Command failed: "));
    let req = inv.complete_request(&payload);
    assert_eq!(req.url, "http://example.com/launchfail/127");
}

#[test]
fn signal_termination_reported() {
    let outcome = run_command(&["bash", "-c", "kill -9 $$"]);
    let result = ExecutionResult::from_outcome(outcome, true, no_elapsed());
    assert_eq!(result.code, 137);
}

#[test]
fn status_normalization_ranges() {
    let cases: Vec<(ExitStatus, u8)> = vec![
        (ExitStatus::Exited(0), 0),
        (ExitStatus::Exited(5), 5),
        (ExitStatus::Exited(255), 255),
        (ExitStatus::Exited(256), 127),
        (ExitStatus::Exited(300), 127),
        (ExitStatus::Signaled(9), 137),
        (ExitStatus::Signaled(127), 255),
        (ExitStatus::Signaled(128), 127),
        (ExitStatus::Undetermined, 127),
    ];
    for (status, expected) in cases {
        let outcome = CaptureOutcome::Captured { output: Vec::new(), status };
        let result = ExecutionResult::from_outcome(outcome, true, no_elapsed());
        assert_eq!(result.code, expected);
    }
}
