use crate::registry::{after_create, after_revoke, create_outcome, revoke_outcome, ClaimMap};
use crate::types::{AccountId, BlockNumber, Digest, Error};
use vstd::prelude::*;

verus! {

/// One call into the registry, with the arguments that decide its effect on
/// the claims.
pub enum Call {
    Create { who: AccountId, claim: Digest, now: BlockNumber },
    Revoke { who: AccountId, claim: Digest },
}

/// The claims after making `calls`, in order, on a registry that holds `m`.
pub open spec fn replay(m: ClaimMap, calls: Seq<Call>) -> ClaimMap
    decreases calls.len(),
{
    if calls.len() == 0 {
        m
    } else {
        let before = replay(m, calls.drop_last());
        match calls.last() {
            Call::Create { who, claim, now } => after_create(before, who, claim@, now),
            Call::Revoke { who, claim } => after_revoke(before, who, claim@),
        }
    }
}

/// Whether `call` tries to create a claim on `d`.
pub open spec fn creates(call: Call, d: Digest) -> bool {
    call matches Call::Create { claim, .. } && claim@ == d@
}

/// Starting from an empty registry, a digest that no call tries to create
/// never has a claim.
pub proof fn lemma_never_created_is_absent(calls: Seq<Call>, d: Digest)
    requires
        forall|i: int| 0 <= i < calls.len() ==> !creates(#[trigger] calls[i], d),
    ensures
        !replay(Map::empty(), calls).contains_key(d@),
    decreases calls.len(),
{
    if calls.len() > 0 {
        let rest = calls.drop_last();
        assert forall|i: int| 0 <= i < rest.len() implies !creates(#[trigger] rest[i], d) by {
            assert(rest[i] == calls[i]);
        }
        lemma_never_created_is_absent(rest, d);
        assert(!creates(calls[calls.len() - 1], d));
    }
}

/// A successful creation records the caller and the sequence number of the
/// call, and any later creation on the same digest fails with
/// `AlreadyClaimed` and leaves the claims as they are.
pub proof fn lemma_create_then_get(
    m: ClaimMap,
    caller: AccountId,
    d: Digest,
    now: BlockNumber,
    other: AccountId,
    later: BlockNumber,
)
    requires
        create_outcome(m, d@) is Ok,
    ensures
        after_create(m, caller, d@, now).contains_key(d@),
        after_create(m, caller, d@, now)[d@] == (caller, now),
        create_outcome(after_create(m, caller, d@, now), d@) == Err::<(), Error>(
            Error::AlreadyClaimed,
        ),
        after_create(after_create(m, caller, d@, now), other, d@, later) == after_create(
            m,
            caller,
            d@,
            now,
        ),
{
}

/// Revoking a digest that has no claim fails with `NoSuchClaim` and changes
/// nothing.
pub proof fn lemma_revoke_absent(m: ClaimMap, caller: AccountId, d: Digest)
    requires
        !m.contains_key(d@),
    ensures
        revoke_outcome(m, caller, d@) == Err::<(), Error>(Error::NoSuchClaim),
        after_revoke(m, caller, d@) == m,
{
}

/// Once `owner` has created a claim on `d`, a revocation by anybody else
/// fails with `NotClaimOwner` and leaves the claims as they are.
pub proof fn lemma_revoke_by_other(
    m: ClaimMap,
    owner: AccountId,
    other: AccountId,
    d: Digest,
    now: BlockNumber,
)
    requires
        owner != other,
        create_outcome(m, d@) is Ok,
    ensures
        revoke_outcome(after_create(m, owner, d@, now), other, d@) == Err::<(), Error>(
            Error::NotClaimOwner,
        ),
        after_revoke(after_create(m, owner, d@, now), other, d@) == after_create(
            m,
            owner,
            d@,
            now,
        ),
{
}

/// A creation followed by a revocation by the same actor succeeds and gives
/// back exactly the claims that were there before.
pub proof fn lemma_create_then_revoke(m: ClaimMap, owner: AccountId, d: Digest, now: BlockNumber)
    requires
        create_outcome(m, d@) is Ok,
    ensures
        revoke_outcome(after_create(m, owner, d@, now), owner, d@) == Ok::<(), Error>(()),
        !after_revoke(after_create(m, owner, d@, now), owner, d@).contains_key(d@),
        after_revoke(after_create(m, owner, d@, now), owner, d@) == m,
{
    assert(m.insert(d@, (owner, now)).remove(d@) =~= m);
}

} // verus!
