//! Codes of the error frame.
use vstd::prelude::*;

verus! {

/// The protocol versions differ; the daemon disconnects.
pub const VERSION_MISMATCH: u32 = 1;

/// The session does not exist.
pub const NO_SUCH_SESSION: u32 = 2;

/// The session to create already exists.
pub const SESSION_EXISTS: u32 = 3;

/// The session name breaks the naming rule.
pub const INVALID_NAME: u32 = 4;

/// A connection may attach to at most one session at a time.
pub const ALREADY_ATTACHED: u32 = 5;

/// The session's child process has exited.
pub const SESSION_EXITED: u32 = 6;

/// A frame before the handshake, or out of order.
pub const BAD_HANDSHAKE: u32 = 7;

/// Daemon internal error; the message has the details.
pub const INTERNAL: u32 = 100;

} // verus!
