//! Inter-process notifications on one machine, inside one user's session.
//!
//! A [`linux::Sender`] or [`macos::Sender`] addresses every listener that was made for
//! the same notification name. This crate holds what the two backends decide: which
//! names are usable, what the operating system is asked for, and what becomes of its
//! replies. Talking to the operating system is left to the caller.

pub mod channel;
pub mod linux;
pub mod macos;
pub mod name;
pub mod os;
pub mod sequences;
pub mod session;

use vstd::prelude::*;

verus! {

/// The number of messages that may be queued for receiving at once.
pub const MSG_LIMIT: usize = 10;

/// The largest message, in bytes, that is sent through a backend.
///
/// A longer message may never be seen by receivers.
pub const MAX_MSG_SIZE: usize = 1000;

/// The reasons for which a notification name cannot identify a channel of the platform.
#[derive(Debug, PartialEq, Eq, Clone, Copy, Structural)]
pub enum InvalidNameError {
    /// The name was too short for the platform to use.
    Empty,
    /// The name was too long for the platform to use.
    TooLong,
    /// The name contained a separator character that is not allowed.
    ContainsSlash,
    /// The name contained an interior NUL.
    ContainsNul,
}

} // verus!
