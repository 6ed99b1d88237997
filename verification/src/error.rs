//! The failures that operations of this library report.
use vstd::prelude::*;

verus! {

/// Why an operation was refused.
#[derive(Clone, Copy, Debug, PartialEq, Eq)]
pub enum Error {
    /// The row does not exist.
    NotFound,
    /// The change would change nothing.
    NoEffect,
    /// The operation does not apply to this object.
    InvalidOperation,
    /// A property of the input does not hold; `error` names it.
    FailedValidation { error: &'static str },
    /// The store refused the operation.
    DatabaseError { operation: &'static str, collection: &'static str },
    /// The user already has a running import.
    ImportAlreadyInProgress,
    /// The user is already a member of the group.
    AlreadyInGroup,
    /// The group has its maximum of members.
    GroupTooLarge { max: usize },
    /// The server has its maximum of channels.
    TooManyChannels { max: usize },
    /// A property has a value that is not allowed.
    InvalidProperty,
    /// A thread was already started from the message.
    ThreadAlreadyExists,
    /// The session is not allowed to do this.
    NotAuthenticated,
    /// The donation cannot be claimed.
    InvalidClaim,
}

} // verus!
