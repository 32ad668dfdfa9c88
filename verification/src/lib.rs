//! Client-side core of a line-oriented, request/response instrument-control
//! protocol carried over a raw byte stream.
//!
//! Outbound commands are framed with a strict `"\r\n"` terminator; inbound
//! replies are split on `'\n'` and an immediately preceding `'\r'` is
//! tolerated and stripped. Reply bytes are decoded as UTF-8, with a lossy
//! fallback carried in the error for diagnostics. The asynchronous transport
//! that feeds bytes in and out of these functions lives outside this crate;
//! everything here is plain-value computation over the wire format.

pub mod error;
pub mod framing;

pub use error::Error;
pub use framing::{decode_reply, frame_command, remove_newline};

use vstd::prelude::*;

verus! {

/// Default capacity of a session's read buffer, in bytes.
pub const DEFAULT_READ_BUFFER_CAPACITY: usize = 1024;

/// Default capacity of a session's write buffer, in bytes.
pub const DEFAULT_WRITE_BUFFER_CAPACITY: usize = 128;

} // verus!
