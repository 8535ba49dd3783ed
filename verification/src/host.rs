//! What the host tells an engine about one call, and what an engine asks the
//! host to do.
use vstd::prelude::*;
use crate::identity::Address;

verus! {

/// The facts that the host has established about the current call.
#[derive(Clone, Copy, Debug, PartialEq, Eq)]
pub struct CallContext {
    /// The party whose authorization of this call the host has verified.
    pub invoker: Address,
    /// The ledger time, in seconds.
    pub timestamp: u64,
}

impl CallContext {
    /// Whether the host has verified that `party` authorized the call.
    pub open spec fn authorizes(self, party: Address) -> bool {
        self.invoker == party
    }

    /// Tells whether the host has verified that `party` authorized the call.
    pub fn require_auth(&self, party: &Address) -> (r: bool)
        ensures
            r == self.authorizes(*party),
    {
        self.invoker.same(party)
    }
}

/// The way tokens move relative to the engine's custody.
#[derive(Clone, Copy, Debug, PartialEq, Eq)]
pub enum Direction {
    /// From the party into custody.
    Deposit,
    /// From custody to the party.
    Payout,
}

/// A movement of tokens that the host is asked to carry out, whole or not at
/// all.
#[derive(Clone, Copy, Debug, PartialEq, Eq)]
pub struct Transfer {
    /// The token to move.
    pub token: Address,
    /// Whether the party pays into custody or is paid from it.
    pub direction: Direction,
    /// The party at the other end.
    pub party: Address,
    /// How much to move.
    pub amount: i128,
}

/// How the host's attempt at a [`Transfer`] ended.
#[derive(Clone, Copy, Debug, PartialEq, Eq)]
pub enum TransferOutcome {
    /// The tokens have moved.
    Settled,
    /// Nothing has moved.
    Failed,
}

} // verus!
