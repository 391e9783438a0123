use vstd::prelude::*;

verus! {

/// Identifier of an authenticated actor, as handed over by the host.
pub type AccountId = u64;

/// Position in the host's linear history (for instance a block height).
pub type BlockNumber = u64;

/// Fixed-size digest of the data being claimed.
pub type Digest = [u8; 32];

/// Notifications published for outside observers.
#[derive(Clone, Copy, Debug, PartialEq, Eq)]
pub enum Event {
    /// A claim has been created.
    ClaimCreated { who: AccountId, claim: Digest },
    /// A claim has been revoked by its owner.
    ClaimRevoked { who: AccountId, claim: Digest },
}

/// Reasons why a call into the registry is refused.
#[derive(Clone, Copy, Debug, PartialEq, Eq, Structural)]
pub enum Error {
    /// The digest already has a live claim.
    AlreadyClaimed,
    /// The digest has no live claim, so there is nothing to revoke.
    NoSuchClaim,
    /// The claim belongs to another actor.
    NotClaimOwner,
}

} // verus!
