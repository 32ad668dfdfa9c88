//! The error taxonomy of the client: transport failures, reply-decoding
//! failures and failures raised by a caller-supplied parser are kept apart,
//! so that a caller can always tell which layer failed.

use vstd::prelude::*;

verus! {

/// What can go wrong while talking to a device.
///
/// The three categories never conflate: a decoding failure or a failure of a
/// caller-supplied parser is never reported as a transport failure.
#[derive(Debug, Clone, PartialEq, Eq)]
pub enum Error {
    /// The underlying transport failed (connection refused, reset, broken
    /// pipe, ...). Carries the transport's own description.
    IO(String),
    /// A reply was received but its bytes are not valid UTF-8. Carries the
    /// lossily decoded text, so the content is recovered for diagnostics
    /// rather than discarded.
    ResponseDataInvalid(String),
    /// A caller-supplied reply parser failed. Carries that parser's own
    /// description, passed through unmodified.
    UserCallbackError(String),
}

} // verus!
