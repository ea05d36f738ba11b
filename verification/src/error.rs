//! The error taxonomy of the lock protocol.

use vstd::prelude::*;

verus! {

/// Error type of this crate.
#[derive(Debug, Clone, Copy, PartialEq, Eq, Structural)]
pub enum Error {
    /// The lock name contains a character the backing medium cannot accept.
    InvalidCharacter,
    /// Backend or resource initialization failed.
    CreateFailed,
    /// A claim attempt failed for a reason other than the lock being held:
    /// a write error, or a lost race detected at readback.
    LockFailed,
    /// The release operation failed at the backend level.
    UnlockFailed,
    /// The lock is currently held by a live owner; the caller may retry later.
    WouldBlock,
}

impl Error {
    /// A human-readable description of the error.
    pub fn message(&self) -> (r: &'static str)
        ensures
            self is InvalidCharacter ==> r@ == "Invalid character in name"@,
            self is CreateFailed ==> r@ == "Failed to create named lock"@,
            self is LockFailed ==> r@ == "Failed to lock named lock"@,
            self is UnlockFailed ==> r@ == "Failed to unlock named lock"@,
            self is WouldBlock ==> r@ == "Named lock would block"@,
    {
        match self {
            Error::InvalidCharacter => "Invalid character in name",
            Error::CreateFailed => "Failed to create named lock",
            Error::LockFailed => "Failed to lock named lock",
            Error::UnlockFailed => "Failed to unlock named lock",
            Error::WouldBlock => "Named lock would block",
        }
    }
}

} // verus!
