//! The failures that the engines report.
use vstd::prelude::*;

verus! {

/// Why an operation was refused. A refused operation leaves the engine as it
/// was and asks for no transfer.
#[derive(Clone, Copy, Debug, PartialEq, Eq)]
pub enum Error {
    /// The host did not confirm that the named party authorized the call, or
    /// the party does not hold the pool role that the operation asks for.
    NotAuthorized,
    /// The caller is known but may not do this to the entity.
    Forbidden,
    /// No entity has the given identifier.
    NotFound,
    /// An amount, limit or rate is out of range, or an input is malformed.
    InvalidArgument,
    /// The entity is not in the state that the operation asks for.
    InvalidState,
    /// The entity exists already.
    AlreadyExists,
    /// The engine was set up before.
    AlreadyInitialized,
    /// The pool holds less than the amount asked for.
    InsufficientFunds,
    /// The amount is above the pool's withdrawal limit.
    LimitExceeded,
    /// The requester is not a member of the pool.
    NotMember,
    /// The recipient is not a member with the recipient role.
    InvalidRecipient,
    /// The host could not move the tokens.
    TransferFailed,
}

} // verus!
