//! Wraps a command-line invocation and reports its outcome to a remote
//! monitoring endpoint: runs the command, normalizes its exit status,
//! formats the captured output under a byte budget without splitting
//! multi-byte characters, and builds the start/completion check-in requests.
use vstd::prelude::*;

pub mod checkin;
pub mod format;
pub mod invocation;
pub mod status;
pub mod text;
pub mod truncate;

verus! {

/// Largest payload, in bytes, that a completion report may carry.
pub const MAX_BYTES_TO_POST: usize = 10000;

/// Largest prefix, in bytes, that diagnostic log lines show of a string.
pub const MAX_STRING_TO_LOG: usize = 1000;

} // verus!
