//! The formatter's exact output: detail annotation, environment dump,
//! log-only mode, purity, and the identity transform on short output.
use task_mon::format::{format_payload, FormatOptions};
use task_mon::status::{Elapsed, ExecutionResult};

fn plain_options() -> FormatOptions {
    FormatOptions { detailed: false, env: false, log_only: false, head: false }
}

fn result_of(output: &[u8], code: u8, elapsed: Elapsed) -> ExecutionResult {
    ExecutionResult { output: output.to_vec(), code, elapsed }
}

fn strings(parts: &[&str]) -> Vec<String> {
    parts.iter().map(|s| s.to_string()).collect()
}

fn no_env() -> Vec<(String, String)> {
    Vec::new()
}

#[test]
fn detailed_exact_text() {
    let result = result_of(b"hello\n", 0, Elapsed { secs: 1, nanos: 234000000 });
    let mut opts = plain_options();
    opts.detailed = true;
    let payload = format_payload(&result, &strings(&["echo", "hello"]), &opts, &no_env());
    assert_eq!(
        payload.text,
        "$ echo hello 2>&1\nhello\n\n\nExit Code: 0\nDuration: 1.234000000s"
    );
    assert_eq!(payload.exit_code, Some(0));
}

#[test]
fn environment_dump_precedes_detail() {
    let result = result_of(b"ok\n", 0, Elapsed { secs: 0, nanos: 0 });
    let mut opts = plain_options();
    opts.detailed = true;
    opts.env = true;
    let environment = vec![
        ("A".to_string(), "1".to_string()),
        ("B".to_string(), "2".to_string()),
    ];
    let payload = format_payload(&result, &strings(&["echo", "ok"]), &opts, &environment);
    assert_eq!(
        payload.text,
        "A=1\nB=2\n$ echo ok 2>&1\nok\n\n\nExit Code: 0\nDuration: 0.000000000s"
    );
}

#[test]
fn log_only_has_no_exit_code() {
    let result = result_of(b"whatever\n", 5, Elapsed { secs: 0, nanos: 0 });
    let mut opts = plain_options();
    opts.log_only = true;
    let payload = format_payload(&result, &strings(&["true"]), &opts, &no_env());
    assert_eq!(payload.exit_code, None);
    assert_eq!(payload.text, "whatever\n");
}

#[test]
fn formatting_is_pure() {
    let result = result_of("héllo\n".as_bytes(), 3, Elapsed { secs: 2, nanos: 5 });
    let mut opts = plain_options();
    opts.detailed = true;
    let command = strings(&["echo", "héllo"]);
    let first = format_payload(&result, &command, &opts, &no_env());
    let second = format_payload(&result, &command, &opts, &no_env());
    assert_eq!(first.text, second.text);
    assert_eq!(first.exit_code, second.exit_code);
}

#[test]
fn short_output_identity() {
    let result = result_of(b"plain text, nothing added\n", 3, Elapsed { secs: 0, nanos: 0 });
    let payload = format_payload(&result, &strings(&["true"]), &plain_options(), &no_env());
    assert_eq!(payload.text, "plain text, nothing added\n");
    assert_eq!(payload.exit_code, Some(3));
}

#[test]
fn invalid_bytes_replaced() {
    let result = result_of(&[0x66, 0xff, 0x6f], 0, Elapsed { secs: 0, nanos: 0 });
    let payload = format_payload(&result, &strings(&["true"]), &plain_options(), &no_env());
    assert_eq!(payload.text, "f\u{fffd}o");
}

#[test]
fn empty_output_stays_empty() {
    let result = result_of(b"", 0, Elapsed { secs: 0, nanos: 0 });
    let payload = format_payload(&result, &strings(&["true"]), &plain_options(), &no_env());
    assert_eq!(payload.text, "");
    assert_eq!(payload.exit_code, Some(0));
}
