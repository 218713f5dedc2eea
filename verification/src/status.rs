//! Normalization of process termination into a single exit code, and the
//! record of one command run: captured output, code and elapsed time.
use crate::text::append_bytes;
use vstd::prelude::*;
use vstd::utf8::encode_utf8;

verus! {

/// How the monitored process ended, as reported by the operating system.
#[derive(Clone, Copy, PartialEq, Eq, Structural, Debug)]
pub enum ExitStatus {
    /// The process exited on its own with the given raw code.
    Exited(u32),
    /// The process was terminated by the given signal.
    Signaled(u8),
    /// The status could not be determined at all.
    Undetermined,
}

/// The single code a status normalizes to: a normal exit keeps its code
/// when it fits in eight bits, termination by signal `s` maps to
/// `128 + s`, and anything that does not fit defaults to 127.
pub open spec fn normalized_code(status: ExitStatus) -> u8 {
    match status {
        ExitStatus::Exited(code) => if code <= 255 {
            code as u8
        } else {
            127
        },
        ExitStatus::Signaled(signal) => if signal <= 127 {
            (128 + signal) as u8
        } else {
            127
        },
        ExitStatus::Undetermined => 127,
    }
}

/// Distills a raw exit status into one code in the unsigned eight-bit
/// range, losing nothing a completion report can carry.
pub fn normalize_status(status: &ExitStatus) -> (code: u8)
    ensures
        code == normalized_code(*status),
{
    match status {
        ExitStatus::Exited(c) => if *c <= 255 {
            *c as u8
        } else {
            127
        },
        ExitStatus::Signaled(s) => if *s <= 127 {
            128 + *s
        } else {
            127
        },
        ExitStatus::Undetermined => 127,
    }
}

/// Wall-clock duration of one run, split into whole seconds and the
/// remaining nanoseconds.
#[derive(Clone, Copy, PartialEq, Eq, Structural, Debug)]
pub struct Elapsed {
    pub secs: u64,
    pub nanos: u32,
}

impl Elapsed {
    /// Well-formed when the nanosecond part is less than one second.
    pub open spec fn wf(self) -> bool {
        self.nanos < 1000000000
    }
}

/// What the process runner hands back: a finished run with its raw
/// status, or the failure to launch the command at all.
pub enum CaptureOutcome {
    /// The command ran; the merged output stream and the raw status.
    Captured { output: Vec<u8>, status: ExitStatus },
    /// The command could not be launched; a short description of why.
    LaunchFailed { message: String },
}

/// The diagnostic text reported in place of output when the command
/// cannot be launched.
pub open spec fn launch_failure_bytes(message: Seq<char>) -> Seq<u8> {
    encode_utf8("task_mon: Command failed: "@) + encode_utf8(message)
}

/// The exit code an outcome normalizes to: the code of the raw status
/// for a finished run, 127 for a launch failure.
pub open spec fn outcome_code(outcome: CaptureOutcome) -> u8 {
    match outcome {
        CaptureOutcome::Captured { status, .. } => normalized_code(status),
        CaptureOutcome::LaunchFailed { .. } => 127,
    }
}

/// The output bytes an outcome yields: the captured stream when
/// capturing is on, nothing when it is off, and the launch-failure
/// diagnostic when the command never ran.
pub open spec fn outcome_output(outcome: CaptureOutcome, capture_output: bool) -> Seq<u8> {
    match outcome {
        CaptureOutcome::Captured { output, .. } => if capture_output {
            output@
        } else {
            Seq::<u8>::empty()
        },
        CaptureOutcome::LaunchFailed { message } => launch_failure_bytes(message@),
    }
}

/// The normalized record of one command run, consumed by the formatter.
pub struct ExecutionResult {
    /// The merged output stream (empty when capturing was off).
    pub output: Vec<u8>,
    /// The normalized exit code.
    pub code: u8,
    /// Wall-clock time from just before launch to process exit.
    pub elapsed: Elapsed,
}

impl ExecutionResult {
    /// Distills every outcome, launch failure included, into output plus
    /// a normalized exit code, so that a completion report can still
    /// fire; discards the output when capturing is off.
    pub fn from_outcome(outcome: CaptureOutcome, capture_output: bool, elapsed: Elapsed) -> (r:
        ExecutionResult)
        ensures
            r.code == outcome_code(outcome),
            r.output@ == outcome_output(outcome, capture_output),
            r.elapsed == elapsed,
    {
        match outcome {
            CaptureOutcome::Captured { output, status } => {
                let code = normalize_status(&status);
                let out = if capture_output {
                    output
                } else {
                    Vec::new()
                };
                ExecutionResult { output: out, code, elapsed }
            },
            CaptureOutcome::LaunchFailed { message } => {
                let mut out: Vec<u8> = Vec::new();
                append_bytes(&mut out, "task_mon: Command failed: ".as_bytes());
                append_bytes(&mut out, message.as_str().as_bytes());
                assert(out@ =~= launch_failure_bytes(message@));
                ExecutionResult { output: out, code: 127, elapsed }
            },
        }
    }
}

} // verus!
