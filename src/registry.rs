use crate::types::{AccountId, BlockNumber, Digest, Error, Event};
use vstd::prelude::*;

verus! {

broadcast use vstd::array::group_array_axioms;

/// The registry seen as a map from the bytes of a digest to the owner of its
/// claim and the sequence number at which the claim was made.
pub type ClaimMap = Map<Seq<u8>, (AccountId, BlockNumber)>;

/// What `create_claim` returns when the registry holds `m`.
pub open spec fn create_outcome(m: ClaimMap, claim: Seq<u8>) -> Result<(), Error> {
    if m.contains_key(claim) {
        Err(Error::AlreadyClaimed)
    } else {
        Ok(())
    }
}

/// The registry after `create_claim(who, claim, now)` on `m`.
pub open spec fn after_create(
    m: ClaimMap,
    who: AccountId,
    claim: Seq<u8>,
    now: BlockNumber,
) -> ClaimMap {
    if m.contains_key(claim) {
        m
    } else {
        m.insert(claim, (who, now))
    }
}

/// What `revoke_claim` returns when the registry holds `m`.
pub open spec fn revoke_outcome(m: ClaimMap, who: AccountId, claim: Seq<u8>) -> Result<(), Error> {
    if !m.contains_key(claim) {
        Err(Error::NoSuchClaim)
    } else if m[claim].0 != who {
        Err(Error::NotClaimOwner)
    } else {
        Ok(())
    }
}

/// The registry after `revoke_claim(who, claim)` on `m`.
pub open spec fn after_revoke(m: ClaimMap, who: AccountId, claim: Seq<u8>) -> ClaimMap {
    if revoke_outcome(m, who, claim) is Ok {
        m.remove(claim)
    } else {
        m
    }
}

/// One live claim as it is stored.
#[derive(Clone, Copy, Debug, PartialEq, Eq)]
pub struct Claim {
    pub digest: Digest,
    pub owner: AccountId,
    pub registered_at: BlockNumber,
}

/// Whether two digests hold the same bytes.
fn same_digest(a: &Digest, b: &Digest) -> (r: bool)
    ensures
        r == (a@ == b@),
{
    let mut i: usize = 0;
    while i < 32
        invariant
            i <= 32,
            forall|k: int| 0 <= k < i ==> a@[k] == b@[k],
        decreases 32 - i,
    {
        if a[i] != b[i] {
            return false;
        }
        i = i + 1;
    }
    assert(a@ =~= b@);
    true
}

/// The claim registry: at most one live claim per digest, and the log of
/// the events it has published.
pub struct Pallet {
    records: Vec<Claim>,
    events: Vec<Event>,
    model: Ghost<ClaimMap>,
}

impl Pallet {
    /// The live claims, keyed by the bytes of their digest.
    pub closed spec fn claims(&self) -> ClaimMap {
        self.model@
    }

    /// Every event published so far, oldest first.
    pub closed spec fn event_log(&self) -> Seq<Event> {
        self.events@
    }

    /// The stored records hold distinct digests and are exactly the claims.
    pub closed spec fn wf(&self) -> bool {
        &&& forall|i: int, j: int|
            0 <= i < j < self.records@.len() ==> #[trigger] self.records@[i].digest@
                != #[trigger] self.records@[j].digest@
        &&& forall|i: int|
            0 <= i < self.records@.len() ==> {
                let c = #[trigger] self.records@[i];
                &&& self.model@.contains_key(c.digest@)
                &&& self.model@[c.digest@] == (c.owner, c.registered_at)
            }
        &&& forall|d: Seq<u8>|
            #[trigger] self.model@.contains_key(d) ==> exists|i: int|
                0 <= i < self.records@.len() && #[trigger] self.records@[i].digest@ == d
    }

    /// An empty registry with no events.
    pub fn new() -> (r: Pallet)
        ensures
            r.wf(),
            r.claims() == Map::<Seq<u8>, (AccountId, BlockNumber)>::empty(),
            r.event_log() == Seq::<Event>::empty(),
    {
        Pallet { records: Vec::new(), events: Vec::new(), model: Ghost(Map::empty()) }
    }

    /// Index of the record for `claim`, if there is one.
    fn position(&self, claim: &Digest) -> (r: Option<usize>)
        requires
            self.wf(),
        ensures
            r is None <==> !self.claims().contains_key(claim@),
            r matches Some(i) ==> i < self.records@.len() && self.records@[i as int].digest@
                == claim@,
    {
        let mut i: usize = 0;
        while i < self.records.len()
            invariant
                self.wf(),
                i <= self.records@.len(),
                forall|k: int| 0 <= k < i ==> self.records@[k].digest@ != claim@,
            decreases self.records@.len() - i,
        {
            if same_digest(&self.records[i].digest, claim) {
                return Some(i);
            }
            i = i + 1;
        }
        None
    }

    /// Records that `who` holds the data behind `claim` at sequence number
    /// `now`. Fails with `AlreadyClaimed`, changing nothing, when `claim`
    /// already has a live claim; otherwise publishes `ClaimCreated`.
    pub fn create_claim(
        &mut self,
        who: AccountId,
        claim: Digest,
        now: BlockNumber,
    ) -> (r: Result<(), Error>)
        requires
            old(self).wf(),
        ensures
            final(self).wf(),
            r == create_outcome(old(self).claims(), claim@),
            final(self).claims() == after_create(old(self).claims(), who, claim@, now),
            final(self).event_log() == (if r is Ok {
                old(self).event_log().push(Event::ClaimCreated { who, claim })
            } else {
                old(self).event_log()
            }),
    {
        match self.position(&claim) {
            Some(_) => Err(Error::AlreadyClaimed),
            None => {
                let ghost before = self.records@;
                self.records.push(Claim { digest: claim, owner: who, registered_at: now });
                self.model = Ghost(self.model@.insert(claim@, (who, now)));
                self.events.push(Event::ClaimCreated { who, claim });
                assert forall|d: Seq<u8>| #[trigger] self.model@.contains_key(d) implies exists|
                    i: int,
                |
                    0 <= i < self.records@.len() && #[trigger] self.records@[i].digest@ == d by {
                    if d == claim@ {
                        assert(self.records@[before.len() as int].digest@ == d);
                    } else {
                        let j = choose|j: int| 0 <= j < before.len() && #[trigger] before[j].digest@ == d;
                        assert(self.records@[j].digest@ == d);
                    }
                }
                Ok(())
            },
        }
    }

    /// Gives up the claim on `claim` held by `who`. Fails with `NoSuchClaim`
    /// when there is none, and with `NotClaimOwner` when another actor holds
    /// it, changing nothing in both cases; otherwise removes the claim and
    /// publishes `ClaimRevoked`.
    pub fn revoke_claim(&mut self, who: AccountId, claim: Digest) -> (r: Result<(), Error>)
        requires
            old(self).wf(),
        ensures
            final(self).wf(),
            r == revoke_outcome(old(self).claims(), who, claim@),
            final(self).claims() == after_revoke(old(self).claims(), who, claim@),
            final(self).event_log() == (if r is Ok {
                old(self).event_log().push(Event::ClaimRevoked { who, claim })
            } else {
                old(self).event_log()
            }),
    {
        match self.position(&claim) {
            None => Err(Error::NoSuchClaim),
            Some(i) => {
                if self.records[i].owner != who {
                    Err(Error::NotClaimOwner)
                } else {
                    let ghost before = self.records@;
                    let ghost old_model = self.model@;
                    self.records.remove(i);
                    self.model = Ghost(self.model@.remove(claim@));
                    self.events.push(Event::ClaimRevoked { who, claim });
                    assert forall|k: int| 0 <= k < self.records@.len() implies #[trigger] self.records@[k]
                        == (if k < i { before[k] } else { before[k + 1] }) by {}
                    assert forall|d: Seq<u8>| #[trigger] self.model@.contains_key(d) implies exists|
                        k: int,
                    |
                        0 <= k < self.records@.len() && #[trigger] self.records@[k].digest@ == d by {
                        assert(old_model.contains_key(d));
                        let j = choose|j: int| 0 <= j < before.len() && #[trigger] before[j].digest@ == d;
                        assert(j != i);
                        if j < i {
                            assert(self.records@[j].digest@ == d);
                        } else {
                            assert(self.records@[j - 1].digest@ == d);
                        }
                    }
                    Ok(())
                }
            },
        }
    }

    /// The owner and sequence number of the live claim on `claim`, if any.
    pub fn get_claim(&self, claim: &Digest) -> (r: Option<(AccountId, BlockNumber)>)
        requires
            self.wf(),
        ensures
            r == (if self.claims().contains_key(claim@) {
                Some(self.claims()[claim@])
            } else {
                None::<(AccountId, BlockNumber)>
            }),
    {
        match self.position(claim) {
            Some(i) => Some((self.records[i].owner, self.records[i].registered_at)),
            None => None,
        }
    }

    /// Every event published so far, oldest first.
    pub fn events(&self) -> (r: &Vec<Event>)
        ensures
            r@ == self.event_log(),
    {
        &self.events
    }
}

} // verus!
