use proof_of_existence::registry::Pallet;
use proof_of_existence::types::{Digest, Error, Event};

fn digest(b: u8) -> Digest {
    [b; 32]
}

#[test]
fn scenario_two_actors_one_digest() {
    let a = 1u64;
    let b = 2u64;
    let d = digest(0xAB);
    let mut p = Pallet::new();
    assert_eq!(p.create_claim(a, d, 100), Ok(()));
    assert_eq!(p.events(), &vec![Event::ClaimCreated { who: a, claim: d }]);
    assert_eq!(p.create_claim(b, d, 100), Err(Error::AlreadyClaimed));
    assert_eq!(p.revoke_claim(b, d), Err(Error::NotClaimOwner));
    assert_eq!(p.revoke_claim(a, d), Ok(()));
    assert_eq!(
        p.events(),
        &vec![
            Event::ClaimCreated { who: a, claim: d },
            Event::ClaimRevoked { who: a, claim: d },
        ]
    );
    assert_eq!(p.get_claim(&d), None);
}

#[test]
fn fresh_registry_has_no_claims() {
    let p = Pallet::new();
    assert_eq!(p.get_claim(&digest(0)), None);
    assert_eq!(p.get_claim(&digest(0xFF)), None);
    assert!(p.events().is_empty());
}

#[test]
fn untouched_digest_stays_absent() {
    let mut p = Pallet::new();
    assert_eq!(p.create_claim(7, digest(1), 5), Ok(()));
    assert_eq!(p.create_claim(8, digest(2), 6), Ok(()));
    assert_eq!(p.revoke_claim(7, digest(1)), Ok(()));
    assert_eq!(p.get_claim(&digest(3)), None);
}

#[test]
fn create_records_owner_and_sequence_number() {
    let mut p = Pallet::new();
    assert_eq!(p.create_claim(42, digest(9), 1234), Ok(()));
    assert_eq!(p.get_claim(&digest(9)), Some((42, 1234)));
}

#[test]
fn second_create_fails_and_keeps_entry() {
    let mut p = Pallet::new();
    assert_eq!(p.create_claim(42, digest(9), 10), Ok(()));
    assert_eq!(p.create_claim(42, digest(9), 11), Err(Error::AlreadyClaimed));
    assert_eq!(p.create_claim(43, digest(9), 12), Err(Error::AlreadyClaimed));
    assert_eq!(p.get_claim(&digest(9)), Some((42, 10)));
    assert_eq!(p.events().len(), 1);
}

#[test]
fn revoke_without_claim_fails() {
    let mut p = Pallet::new();
    assert_eq!(p.revoke_claim(1, digest(4)), Err(Error::NoSuchClaim));
    assert_eq!(p.create_claim(1, digest(5), 0), Ok(()));
    assert_eq!(p.revoke_claim(1, digest(4)), Err(Error::NoSuchClaim));
    assert_eq!(p.get_claim(&digest(5)), Some((1, 0)));
    assert_eq!(p.events().len(), 1);
}

#[test]
fn revoke_by_other_fails_and_keeps_entry() {
    let mut p = Pallet::new();
    assert_eq!(p.create_claim(1, digest(6), 77), Ok(()));
    assert_eq!(p.revoke_claim(2, digest(6)), Err(Error::NotClaimOwner));
    assert_eq!(p.get_claim(&digest(6)), Some((1, 77)));
    assert_eq!(p.events(), &vec![Event::ClaimCreated { who: 1, claim: digest(6) }]);
}

#[test]
fn create_then_revoke_restores_state() {
    let mut p = Pallet::new();
    assert_eq!(p.create_claim(3, digest(1), 1), Ok(()));
    assert_eq!(p.create_claim(3, digest(2), 2), Ok(()));
    assert_eq!(p.revoke_claim(3, digest(2)), Ok(()));
    assert_eq!(p.get_claim(&digest(2)), None);
    assert_eq!(p.get_claim(&digest(1)), Some((3, 1)));
    assert_eq!(p.create_claim(4, digest(2), 9), Ok(()));
    assert_eq!(p.get_claim(&digest(2)), Some((4, 9)));
}

#[test]
fn digests_differing_in_one_byte_are_distinct() {
    let mut p = Pallet::new();
    let d1 = digest(0);
    let mut d2 = digest(0);
    d2[31] = 1;
    assert_eq!(p.create_claim(1, d1, 1), Ok(()));
    assert_eq!(p.create_claim(2, d2, 2), Ok(()));
    assert_eq!(p.get_claim(&d1), Some((1, 1)));
    assert_eq!(p.get_claim(&d2), Some((2, 2)));
}

#[test]
fn revoke_in_the_middle_keeps_the_others() {
    let mut p = Pallet::new();
    for b in 0u8..5 {
        assert_eq!(p.create_claim(b as u64, digest(b), b as u64 * 10), Ok(()));
    }
    assert_eq!(p.revoke_claim(2, digest(2)), Ok(()));
    for b in 0u8..5 {
        let expected = if b == 2 { None } else { Some((b as u64, b as u64 * 10)) };
        assert_eq!(p.get_claim(&digest(b)), expected);
    }
}

#[test]
fn extreme_account_and_sequence_values() {
    let mut p = Pallet::new();
    assert_eq!(p.create_claim(u64::MAX, digest(0xFF), u64::MAX), Ok(()));
    assert_eq!(p.get_claim(&digest(0xFF)), Some((u64::MAX, u64::MAX)));
    assert_eq!(p.revoke_claim(0, digest(0xFF)), Err(Error::NotClaimOwner));
    assert_eq!(p.revoke_claim(u64::MAX, digest(0xFF)), Ok(()));
}
