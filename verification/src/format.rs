//! Builds the text payload of a completion report from a run's captured
//! output and metadata: optional detail annotation and environment dump,
//! then byte-budget truncation that never splits a character encoding.
use crate::status::{Elapsed, ExecutionResult};
use crate::text::{
    append_bytes, dec_digits, lemma_ascii_bytes_valid_utf8, lemma_dec_digits_ascii,
    lemma_padded_digits_ascii, lossy_chars, lossy_string, padded_digits, push_dec_u64,
    push_padded_u32, utf8_string,
};
use crate::truncate::{head_truncated, lemma_truncated_valid, tail_truncated, truncate_head,
    truncate_tail};
use crate::MAX_BYTES_TO_POST;
use vstd::prelude::*;
use vstd::slice::group_slice_axioms;
use vstd::utf8::{
    decode_utf8, decode_utf8_encode_utf8, encode_utf8, encode_utf8_decode_utf8,
    encode_utf8_valid_utf8, valid_utf8, valid_utf8_concat,
};

verus! {

broadcast use group_slice_axioms, encode_utf8_valid_utf8, valid_utf8_concat;

/// How a run is turned into a report payload.
#[derive(Clone, Copy, PartialEq, Eq, Structural, Debug)]
pub struct FormatOptions {
    /// Wrap the output with the command line, exit code and duration.
    pub detailed: bool,
    /// Prepend a dump of the process environment (with `detailed`).
    pub env: bool,
    /// Report without an exit code, leaving the check's state untouched.
    pub log_only: bool,
    /// Keep the first bytes of oversized output instead of the last.
    pub head: bool,
}

/// The text to report and the exit code to report it under; no exit
/// code means a log-only check-in.
pub struct ReportPayload {
    pub text: String,
    pub exit_code: Option<u8>,
}

impl ReportPayload {
    /// Well-formed when the text fits the report byte budget.
    pub open spec fn wf(self) -> bool {
        encode_utf8(self.text@).len() <= MAX_BYTES_TO_POST
    }
}

/// The parts interleaved with the separator: empty for no parts,
/// otherwise every part in order with `sep` between neighbours.
pub open spec fn joined(parts: Seq<Seq<u8>>, sep: Seq<u8>) -> Seq<u8>
    decreases parts.len(),
{
    if parts.len() == 0 {
        Seq::<u8>::empty()
    } else if parts.len() == 1 {
        parts[0]
    } else {
        joined(parts.drop_last(), sep) + sep + parts.last()
    }
}

/// The UTF-8 bytes of each string in the sequence.
pub open spec fn bytes_of_strings(parts: Seq<String>) -> Seq<Seq<u8>> {
    parts.map_values(|s: String| encode_utf8(s@))
}

/// One `KEY=VALUE` line of the environment dump.
pub open spec fn env_line(pair: (String, String)) -> Seq<u8> {
    encode_utf8(pair.0@) + encode_utf8("="@) + encode_utf8(pair.1@)
}

/// The `KEY=VALUE` lines of the environment dump, in order.
pub open spec fn env_lines(environment: Seq<(String, String)>) -> Seq<Seq<u8>> {
    environment.map_values(|pair: (String, String)| env_line(pair))
}

/// The newline-joined `KEY=VALUE` dump of the environment.
pub open spec fn env_dump_bytes(environment: Seq<(String, String)>) -> Seq<u8> {
    joined(env_lines(environment), encode_utf8("\n"@))
}

/// The rendering of an elapsed duration: seconds, a dot, the nanosecond
/// part padded to nine digits, and a trailing unit letter.
pub open spec fn duration_bytes(elapsed: Elapsed) -> Seq<u8> {
    dec_digits(elapsed.secs as nat) + encode_utf8("."@) + padded_digits(elapsed.nanos as nat, 9)
        + encode_utf8("s"@)
}

/// The detail-annotated report body: a header line echoing the command
/// invocation, the output, and trailer lines with exit code and
/// duration.
pub open spec fn detailed_bytes(
    base: Seq<u8>,
    command: Seq<String>,
    code: u8,
    elapsed: Elapsed,
) -> Seq<u8> {
    encode_utf8("$ "@) + joined(bytes_of_strings(command), encode_utf8(" "@)) + encode_utf8(
        " 2>&1\n"@,
    ) + base + encode_utf8("\n\nExit Code: "@) + dec_digits(code as nat) + encode_utf8(
        "\nDuration: "@,
    ) + duration_bytes(elapsed)
}

/// The full report text before truncation: the lossily decoded output,
/// wrapped with the detail annotation and the environment dump when the
/// options ask for them.
pub open spec fn report_bytes(
    result: ExecutionResult,
    command: Seq<String>,
    opts: FormatOptions,
    environment: Seq<(String, String)>,
) -> Seq<u8> {
    let base = encode_utf8(lossy_chars(result.output@));
    let with_detail = if opts.detailed {
        detailed_bytes(base, command, result.code, result.elapsed)
    } else {
        base
    };
    if opts.detailed && opts.env {
        env_dump_bytes(environment) + encode_utf8("\n"@) + with_detail
    } else {
        with_detail
    }
}

/// The report text after byte-budget truncation under the configured
/// policy.
pub open spec fn payload_bytes(
    result: ExecutionResult,
    command: Seq<String>,
    opts: FormatOptions,
    environment: Seq<(String, String)>,
) -> Seq<u8> {
    let full = report_bytes(result, command, opts, environment);
    if opts.head {
        head_truncated(full, MAX_BYTES_TO_POST as int)
    } else {
        tail_truncated(full, MAX_BYTES_TO_POST as int)
    }
}

/// What the formatter promises of a payload built from the given run,
/// command, options and environment snapshot.
pub open spec fn is_payload_for(
    p: ReportPayload,
    result: ExecutionResult,
    command: Seq<String>,
    opts: FormatOptions,
    environment: Seq<(String, String)>,
) -> bool {
    &&& encode_utf8(p.text@) == payload_bytes(result, command, opts, environment)
    &&& p.exit_code == (if opts.log_only {
        Option::<u8>::None
    } else {
        Option::Some(result.code)
    })
}

proof fn lemma_joined_valid(parts: Seq<Seq<u8>>, sep: Seq<u8>)
    requires
        forall|i: int| 0 <= i < parts.len() ==> valid_utf8(#[trigger] parts[i]),
        valid_utf8(sep),
    ensures
        valid_utf8(joined(parts, sep)),
    decreases parts.len(),
{
    if parts.len() == 0 {
        assert(valid_utf8(Seq::<u8>::empty()));
    } else if parts.len() > 1 {
        lemma_joined_valid(parts.drop_last(), sep);
    }
}

/// Appends the strings of `parts`, interleaved with `sep`, to `buf`.
fn append_joined_strings(buf: &mut Vec<u8>, parts: &Vec<String>, sep: &str)
    ensures
        final(buf)@ == old(buf)@ + joined(bytes_of_strings(parts@), encode_utf8(sep@)),
{
    let ghost bs = bytes_of_strings(parts@);
    let ghost sepb = encode_utf8(sep@);
    let n = parts.len();
    let mut i: usize = 0;
    while i < n
        invariant
            n == parts@.len(),
            i <= n,
            bs == bytes_of_strings(parts@),
            sepb == encode_utf8(sep@),
            buf@ == old(buf)@ + joined(bs.take(i as int), sepb),
        decreases n - i,
    {
        if i > 0 {
            append_bytes(buf, sep.as_bytes());
        }
        append_bytes(buf, parts[i].as_str().as_bytes());
        proof {
            assert(bs.take(i + 1 as int).drop_last() =~= bs.take(i as int));
            assert(bs.take(i + 1 as int).last() == bs[i as int]);
            if i == 0 {
                assert(joined(bs.take(1), sepb) == bs[0]);
            }
            assert(buf@ =~= old(buf)@ + joined(bs.take(i + 1 as int), sepb));
        }
        i = i + 1;
    }
    proof {
        assert(bs.take(n as int) =~= bs);
    }
}

/// Appends the newline-joined `KEY=VALUE` environment dump to `buf`.
fn append_env_dump(buf: &mut Vec<u8>, environment: &Vec<(String, String)>)
    ensures
        final(buf)@ == old(buf)@ + env_dump_bytes(environment@),
{
    let ghost lines = env_lines(environment@);
    let ghost sepb = encode_utf8("\n"@);
    let n = environment.len();
    let mut i: usize = 0;
    while i < n
        invariant
            n == environment@.len(),
            i <= n,
            lines == env_lines(environment@),
            sepb == encode_utf8("\n"@),
            buf@ == old(buf)@ + joined(lines.take(i as int), sepb),
        decreases n - i,
    {
        if i > 0 {
            append_bytes(buf, "\n".as_bytes());
        }
        let pair = &environment[i];
        append_bytes(buf, pair.0.as_str().as_bytes());
        append_bytes(buf, "=".as_bytes());
        append_bytes(buf, pair.1.as_str().as_bytes());
        proof {
            assert(lines.take(i + 1 as int).drop_last() =~= lines.take(i as int));
            assert(lines.take(i + 1 as int).last() == lines[i as int]);
            if i == 0 {
                assert(joined(lines.take(1), sepb) == lines[0]);
            }
            assert(buf@ =~= old(buf)@ + joined(lines.take(i + 1 as int), sepb));
        }
        i = i + 1;
    }
    proof {
        assert(lines.take(n as int) =~= lines);
    }
}

/// Appends the detail-annotated report body to `buf`.
fn append_detailed(
    buf: &mut Vec<u8>,
    base: &str,
    command: &Vec<String>,
    code: u8,
    elapsed: Elapsed,
)
    ensures
        final(buf)@ == old(buf)@ + detailed_bytes(encode_utf8(base@), command@, code, elapsed),
{
    append_bytes(buf, "$ ".as_bytes());
    append_joined_strings(buf, command, " ");
    append_bytes(buf, " 2>&1\n".as_bytes());
    append_bytes(buf, base.as_bytes());
    append_bytes(buf, "\n\nExit Code: ".as_bytes());
    push_dec_u64(buf, code as u64);
    append_bytes(buf, "\nDuration: ".as_bytes());
    push_dec_u64(buf, elapsed.secs);
    append_bytes(buf, ".".as_bytes());
    push_padded_u32(buf, elapsed.nanos, 9);
    append_bytes(buf, "s".as_bytes());
    assert(buf@ =~= old(buf)@ + detailed_bytes(encode_utf8(base@), command@, code, elapsed));
}

proof fn lemma_env_lines_valid(environment: Seq<(String, String)>)
    ensures
        forall|i: int|
            0 <= i < env_lines(environment).len() ==> valid_utf8(
                #[trigger] env_lines(environment)[i],
            ),
{
    assert forall|i: int|
        0 <= i < env_lines(environment).len() implies valid_utf8(
        #[trigger] env_lines(environment)[i],
    ) by {
        let pair = environment[i];
        assert(env_lines(environment)[i] == env_line(pair));
        assert(valid_utf8(encode_utf8(pair.0@) + encode_utf8("="@)));
        assert(valid_utf8((encode_utf8(pair.0@) + encode_utf8("="@)) + encode_utf8(pair.1@)));
    }
}

proof fn lemma_command_bytes_valid(command: Seq<String>)
    ensures
        forall|i: int|
            0 <= i < bytes_of_strings(command).len() ==> valid_utf8(
                #[trigger] bytes_of_strings(command)[i],
            ),
{
    assert forall|i: int|
        0 <= i < bytes_of_strings(command).len() implies valid_utf8(
        #[trigger] bytes_of_strings(command)[i],
    ) by {
        assert(bytes_of_strings(command)[i] == encode_utf8(command[i]@));
    }
}

proof fn lemma_duration_bytes_valid(elapsed: Elapsed)
    ensures
        valid_utf8(duration_bytes(elapsed)),
{
    lemma_dec_digits_ascii(elapsed.secs as nat);
    lemma_ascii_bytes_valid_utf8(dec_digits(elapsed.secs as nat));
    lemma_padded_digits_ascii(elapsed.nanos as nat, 9);
    lemma_ascii_bytes_valid_utf8(padded_digits(elapsed.nanos as nat, 9));
    let s0 = dec_digits(elapsed.secs as nat);
    let s1 = s0 + encode_utf8("."@);
    let s2 = s1 + padded_digits(elapsed.nanos as nat, 9);
    let s3 = s2 + encode_utf8("s"@);
    assert(valid_utf8(s1));
    assert(valid_utf8(s2));
    assert(valid_utf8(s3));
    assert(duration_bytes(elapsed) == s3);
}

proof fn lemma_detailed_bytes_valid(
    base: Seq<u8>,
    command: Seq<String>,
    code: u8,
    elapsed: Elapsed,
)
    requires
        valid_utf8(base),
    ensures
        valid_utf8(detailed_bytes(base, command, code, elapsed)),
{
    lemma_command_bytes_valid(command);
    lemma_joined_valid(bytes_of_strings(command), encode_utf8(" "@));
    lemma_dec_digits_ascii(code as nat);
    lemma_ascii_bytes_valid_utf8(dec_digits(code as nat));
    lemma_duration_bytes_valid(elapsed);
    let s1 = encode_utf8("$ "@) + joined(bytes_of_strings(command), encode_utf8(" "@));
    let s2 = s1 + encode_utf8(" 2>&1\n"@);
    let s3 = s2 + base;
    let s4 = s3 + encode_utf8("\n\nExit Code: "@);
    let s5 = s4 + dec_digits(code as nat);
    let s6 = s5 + encode_utf8("\nDuration: "@);
    let s7 = s6 + duration_bytes(elapsed);
    assert(valid_utf8(s1));
    assert(valid_utf8(s2));
    assert(valid_utf8(s3));
    assert(valid_utf8(s4));
    assert(valid_utf8(s5));
    assert(valid_utf8(s6));
    assert(valid_utf8(s7));
    assert(detailed_bytes(base, command, code, elapsed) == s7);
}

/// The full report text is always a valid UTF-8 byte sequence.
proof fn lemma_report_bytes_valid(
    result: ExecutionResult,
    command: Seq<String>,
    opts: FormatOptions,
    environment: Seq<(String, String)>,
)
    ensures
        valid_utf8(report_bytes(result, command, opts, environment)),
{
    let base = encode_utf8(lossy_chars(result.output@));
    assert(valid_utf8(base));
    let with_detail = if opts.detailed {
        detailed_bytes(base, command, result.code, result.elapsed)
    } else {
        base
    };
    if opts.detailed {
        lemma_detailed_bytes_valid(base, command, result.code, result.elapsed);
    }
    if opts.detailed && opts.env {
        lemma_env_lines_valid(environment);
        lemma_joined_valid(env_lines(environment), encode_utf8("\n"@));
        let s1 = env_dump_bytes(environment) + encode_utf8("\n"@);
        let s2 = s1 + with_detail;
        assert(valid_utf8(s1));
        assert(valid_utf8(s2));
        assert(report_bytes(result, command, opts, environment) == s2);
    }
}

/// Builds the full report text for one run, before truncation.
fn build_report(
    result: &ExecutionResult,
    command: &Vec<String>,
    opts: &FormatOptions,
    environment: &Vec<(String, String)>,
) -> (buf: Vec<u8>)
    ensures
        buf@ == report_bytes(*result, command@, *opts, environment@),
{
    let base_str = lossy_string(result.output.as_slice());
    let mut buf: Vec<u8> = Vec::new();
    if opts.detailed {
        if opts.env {
            append_env_dump(&mut buf, environment);
            append_bytes(&mut buf, "\n".as_bytes());
        }
        append_detailed(&mut buf, base_str.as_str(), command, result.code, result.elapsed);
    } else {
        append_bytes(&mut buf, base_str.as_str().as_bytes());
    }
    assert(buf@ =~= report_bytes(*result, command@, *opts, environment@));
    buf
}

/// Builds the report payload for one run: the lossily decoded output,
/// wrapped with detail annotation and environment dump when requested,
/// truncated to the report byte budget without splitting any character
/// encoding, and paired with the exit code to report under (none in
/// log-only mode).
pub fn format_payload(
    result: &ExecutionResult,
    command: &Vec<String>,
    opts: &FormatOptions,
    environment: &Vec<(String, String)>,
) -> (p: ReportPayload)
    ensures
        is_payload_for(p, *result, command@, *opts, environment@),
        p.wf(),
{
    let buf = build_report(result, command, opts, environment);
    proof {
        lemma_report_bytes_valid(*result, command@, *opts, environment@);
    }
    let truncated = if opts.head {
        truncate_head(&buf, MAX_BYTES_TO_POST)
    } else {
        truncate_tail(&buf, MAX_BYTES_TO_POST)
    };
    proof {
        lemma_truncated_valid(buf@, MAX_BYTES_TO_POST as int);
        decode_utf8_encode_utf8(truncated@);
    }
    let text = utf8_string(truncated);
    let exit_code = if opts.log_only {
        Option::None
    } else {
        Option::Some(result.code)
    };
    ReportPayload { text, exit_code }
}

/// Formatting is a pure function of its inputs: any two payloads built
/// from the same run, command, options and environment snapshot are
/// identical, text and exit code alike.
pub proof fn lemma_format_deterministic(
    p1: ReportPayload,
    p2: ReportPayload,
    result: ExecutionResult,
    command: Seq<String>,
    opts: FormatOptions,
    environment: Seq<(String, String)>,
)
    requires
        is_payload_for(p1, result, command, opts, environment),
        is_payload_for(p2, result, command, opts, environment),
    ensures
        p1.text@ == p2.text@,
        p1.exit_code == p2.exit_code,
{
    encode_utf8_decode_utf8(p1.text@);
    encode_utf8_decode_utf8(p2.text@);
}

/// Log-only mode always yields a payload with no associated exit code,
/// whatever the run's actual exit code was.
pub proof fn lemma_log_only_no_exit_code(
    p: ReportPayload,
    result: ExecutionResult,
    command: Seq<String>,
    opts: FormatOptions,
    environment: Seq<(String, String)>,
)
    requires
        is_payload_for(p, result, command, opts, environment),
        opts.log_only,
    ensures
        p.exit_code is None,
{
}

/// Without detail annotation, output that is valid UTF-8 and fits the
/// byte budget is reported exactly as captured: formatting is the
/// identity transform on it.
pub proof fn lemma_short_output_identity(
    p: ReportPayload,
    result: ExecutionResult,
    command: Seq<String>,
    opts: FormatOptions,
    environment: Seq<(String, String)>,
)
    requires
        is_payload_for(p, result, command, opts, environment),
        !opts.detailed,
        valid_utf8(result.output@),
        result.output@.len() <= MAX_BYTES_TO_POST,
    ensures
        encode_utf8(p.text@) == result.output@,
        p.text@ == decode_utf8(result.output@),
{
    decode_utf8_encode_utf8(result.output@);
    assert(report_bytes(result, command, opts, environment) == result.output@);
    encode_utf8_decode_utf8(p.text@);
}

} // verus!
