use pallet_poe::{Config, Error, Event, Pallet};

fn registry(max_claim_length: u32) -> Pallet {
    Pallet::new(Config { max_claim_length })
}

#[test]
fn created_claim_is_found_with_caller_and_block() {
    let claims: Vec<Vec<u8>> = vec![vec![], vec![0], vec![0, 1], vec![255; 16], vec![9; 32]];
    let mut poe = registry(32);
    let mut block: u64 = 10;
    for (i, claim) in claims.iter().enumerate() {
        let caller = 100 + i as u64;
        assert_eq!(poe.create_claim(caller, claim.clone(), block), Ok(()));
        assert_eq!(poe.proofs().get(claim), Some((caller, block)));
        assert!(poe.proofs().contains_key(claim));
        block += 7;
    }
    // the earlier claims kept what they were created with
    assert_eq!(poe.proofs().get(&claims[0]), Some((100, 10)));
    assert_eq!(poe.proofs().get(&claims[2]), Some((102, 24)));
    assert_eq!(poe.proofs().get(&claims[4]), Some((104, 38)));
}

#[test]
fn create_on_a_registered_claim_keeps_the_first_owner() {
    let mut poe = registry(32);
    let claim: Vec<u8> = vec![0, 1];
    assert_eq!(poe.create_claim(2, claim.clone(), 4), Ok(()));
    assert_eq!(poe.create_claim(1, claim.clone(), 5), Err(Error::ProofAlreadyExist));
    assert_eq!(poe.proofs().get(&claim), Some((2, 4)));
}

#[test]
fn second_create_is_rejected_and_changes_nothing() {
    let mut poe = registry(32);
    let claim: Vec<u8> = vec![1, 2, 3];
    assert_eq!(poe.create_claim(1, claim.clone(), 5), Ok(()));
    let after_first = poe.clone();

    assert_eq!(poe.create_claim(1, claim.clone(), 5), Err(Error::ProofAlreadyExist));
    assert_eq!(poe, after_first);
    assert_eq!(poe.create_claim(1, claim.clone(), 6), Err(Error::ProofAlreadyExist));
    assert_eq!(poe, after_first);
    assert_eq!(poe.create_claim(2, claim.clone(), 7), Err(Error::ProofAlreadyExist));
    assert_eq!(poe, after_first);
    assert_eq!(poe.proofs().get(&claim), Some((1, 5)));
    assert_eq!(poe.events().len(), 1);
}

#[test]
fn revoke_of_unregistered_claim_reports_absence_for_any_caller() {
    let mut poe = registry(32);
    assert_eq!(poe.create_claim(1, vec![0, 1], 5), Ok(()));
    let before = poe.clone();
    for caller in [0u64, 1, 2, 77, u64::MAX] {
        assert_eq!(poe.revoke_claim(caller, vec![1, 0]), Err(Error::ClaimNotExist));
        assert_eq!(poe.revoke_claim(caller, vec![0]), Err(Error::ClaimNotExist));
        assert_eq!(poe.revoke_claim(caller, vec![0, 1, 0]), Err(Error::ClaimNotExist));
        assert_eq!(poe.revoke_claim(caller, vec![]), Err(Error::ClaimNotExist));
        assert_eq!(poe, before);
    }
}

#[test]
fn transfer_of_unregistered_claim_reports_absence() {
    let mut poe = registry(32);
    let before = poe.clone();
    assert_eq!(poe.transfer_claim(1, 2, vec![0, 1], 5), Err(Error::ClaimNotExist));
    assert_eq!(poe, before);
}

#[test]
fn revoke_by_another_account_is_rejected_and_changes_nothing() {
    let mut poe = registry(32);
    let claim: Vec<u8> = vec![4, 5, 6];
    assert_eq!(poe.create_claim(10, claim.clone(), 1), Ok(()));
    let before = poe.clone();
    for stranger in [0u64, 9, 11, u64::MAX] {
        assert_eq!(poe.revoke_claim(stranger, claim.clone()), Err(Error::NotClaimOwner));
        assert_eq!(poe, before);
        assert_eq!(poe.proofs().get(&claim), Some((10, 1)));
    }
}

#[test]
fn transfer_by_another_account_is_rejected_and_changes_nothing() {
    let mut poe = registry(32);
    let claim: Vec<u8> = vec![4, 5, 6];
    assert_eq!(poe.create_claim(10, claim.clone(), 1), Ok(()));
    let before = poe.clone();
    assert_eq!(poe.transfer_claim(11, 11, claim.clone(), 2), Err(Error::NotClaimOwner));
    assert_eq!(poe.transfer_claim(11, 10, claim.clone(), 2), Err(Error::NotClaimOwner));
    assert_eq!(poe, before);
    assert_eq!(poe.proofs().get(&claim), Some((10, 1)));
}

#[test]
fn transfer_there_and_back_returns_to_the_first_owner() {
    let mut poe = registry(32);
    let claim: Vec<u8> = vec![8];
    assert_eq!(poe.create_claim(1, claim.clone(), 100), Ok(()));

    assert_eq!(poe.transfer_claim(1, 2, claim.clone(), 101), Ok(()));
    assert_eq!(poe.proofs().get(&claim), Some((2, 101)));

    assert_eq!(poe.transfer_claim(2, 1, claim.clone(), 102), Ok(()));
    assert_eq!(poe.proofs().get(&claim), Some((1, 102)));

    assert_eq!(
        poe.events(),
        &vec![
            Event::ClaimCreated(1, claim.clone()),
            Event::ClaimTransferred(1, 2, claim.clone()),
            Event::ClaimTransferred(2, 1, claim.clone()),
        ]
    );
}

#[test]
fn transfer_to_oneself_refreshes_the_block() {
    let mut poe = registry(32);
    let claim: Vec<u8> = vec![8];
    assert_eq!(poe.create_claim(1, claim.clone(), 100), Ok(()));
    assert_eq!(poe.transfer_claim(1, 1, claim.clone(), 250), Ok(()));
    assert_eq!(poe.proofs().get(&claim), Some((1, 250)));
    assert_eq!(poe.events()[1], Event::ClaimTransferred(1, 1, claim.clone()));
}

#[test]
fn former_owner_loses_control_after_transfer() {
    let mut poe = registry(32);
    let claim: Vec<u8> = vec![8];
    assert_eq!(poe.create_claim(1, claim.clone(), 100), Ok(()));
    assert_eq!(poe.transfer_claim(1, 2, claim.clone(), 101), Ok(()));
    assert_eq!(poe.transfer_claim(1, 3, claim.clone(), 102), Err(Error::NotClaimOwner));
    assert_eq!(poe.revoke_claim(1, claim.clone()), Err(Error::NotClaimOwner));
    assert_eq!(poe.revoke_claim(2, claim.clone()), Ok(()));
    assert_eq!(poe.proofs().get(&claim), None);
}

#[test]
fn revoked_claim_can_be_created_anew_by_anyone() {
    for next in [1u64, 2, 99] {
        let mut poe = registry(32);
        let claim: Vec<u8> = vec![3, 1, 4];
        let untouched = poe.clone();

        assert_eq!(poe.create_claim(1, claim.clone(), 5), Ok(()));
        assert_eq!(poe.revoke_claim(1, claim.clone()), Ok(()));
        assert_eq!(poe.proofs().get(&claim), None);
        assert!(!poe.proofs().contains_key(&claim));
        assert_eq!(poe.proofs(), untouched.proofs());

        assert_eq!(poe.create_claim(next, claim.clone(), 8), Ok(()));
        assert_eq!(poe.proofs().get(&claim), Some((next, 8)));

        let mut direct = untouched.clone();
        assert_eq!(direct.create_claim(next, claim.clone(), 8), Ok(()));
        assert_eq!(poe.proofs(), direct.proofs());
    }
}

#[test]
fn oversized_claim_is_rejected_by_all_three_calls() {
    let mut poe = registry(4);
    let long: Vec<u8> = vec![1, 2, 3, 4, 5];
    let before = poe.clone();
    assert_eq!(poe.create_claim(1, long.clone(), 5), Err(Error::ClaimTooLong));
    assert_eq!(poe.revoke_claim(1, long.clone()), Err(Error::ClaimTooLong));
    assert_eq!(poe.transfer_claim(1, 2, long.clone(), 5), Err(Error::ClaimTooLong));
    assert_eq!(poe, before);
    assert_eq!(poe.proofs().get(&long), None);
}

#[test]
fn length_is_checked_before_existence_and_ownership() {
    let mut poe = registry(4);
    assert_eq!(poe.create_claim(1, vec![1, 2, 3, 4], 5), Ok(()));
    // not registered and too long: the length is reported, not the absence
    assert_eq!(poe.revoke_claim(1, vec![1, 2, 3, 4, 5]), Err(Error::ClaimTooLong));
    assert_eq!(poe.revoke_claim(2, vec![0; 100]), Err(Error::ClaimTooLong));
    assert_eq!(poe.transfer_claim(2, 3, vec![0; 100], 6), Err(Error::ClaimTooLong));
    // not registered and not the owner: the absence is reported
    assert_eq!(poe.revoke_claim(2, vec![9]), Err(Error::ClaimNotExist));
    assert_eq!(poe.transfer_claim(2, 3, vec![9], 6), Err(Error::ClaimNotExist));
    // registered and not the owner
    assert_eq!(poe.revoke_claim(2, vec![1, 2, 3, 4]), Err(Error::NotClaimOwner));
}

#[test]
fn bound_is_inclusive() {
    let mut poe = registry(3);
    assert_eq!(poe.create_claim(1, vec![0, 0, 0], 1), Ok(()));
    assert_eq!(poe.create_claim(1, vec![0, 0, 0, 0], 1), Err(Error::ClaimTooLong));
    assert_eq!(poe.transfer_claim(1, 2, vec![0, 0, 0], 2), Ok(()));
    assert_eq!(poe.revoke_claim(2, vec![0, 0, 0]), Ok(()));
}

#[test]
fn bound_of_one_admits_the_empty_claim_and_single_bytes() {
    let mut poe = registry(1);
    assert_eq!(poe.create_claim(1, vec![0, 0], 1), Err(Error::ClaimTooLong));
    assert_eq!(poe.create_claim(1, vec![], 1), Ok(()));
    assert_eq!(poe.create_claim(2, vec![0], 2), Ok(()));
    assert_eq!(poe.proofs().get(&vec![]), Some((1, 1)));
    assert_eq!(poe.proofs().get(&vec![0]), Some((2, 2)));
    assert_eq!(poe.revoke_claim(1, vec![]), Ok(()));
    assert_eq!(poe.proofs().get(&vec![]), None);
}

#[test]
fn largest_bound_admits_long_claims() {
    let mut poe = registry(u32::MAX);
    let claim: Vec<u8> = vec![7; 70_000];
    assert_eq!(poe.create_claim(1, claim.clone(), 1), Ok(()));
    assert_eq!(poe.proofs().get(&claim), Some((1, 1)));
}

#[test]
fn calls_on_one_claim_leave_the_others_alone() {
    let mut poe = registry(32);
    let a: Vec<u8> = vec![1];
    let b: Vec<u8> = vec![1, 0];
    let c: Vec<u8> = vec![0, 1];
    assert_eq!(poe.create_claim(1, a.clone(), 1), Ok(()));
    assert_eq!(poe.create_claim(2, b.clone(), 2), Ok(()));
    assert_eq!(poe.create_claim(3, c.clone(), 3), Ok(()));

    assert_eq!(poe.transfer_claim(2, 9, b.clone(), 4), Ok(()));
    assert_eq!(poe.proofs().get(&a), Some((1, 1)));
    assert_eq!(poe.proofs().get(&b), Some((9, 4)));
    assert_eq!(poe.proofs().get(&c), Some((3, 3)));

    assert_eq!(poe.revoke_claim(1, a.clone()), Ok(()));
    assert_eq!(poe.proofs().get(&a), None);
    assert_eq!(poe.proofs().get(&b), Some((9, 4)));
    assert_eq!(poe.proofs().get(&c), Some((3, 3)));

    assert_eq!(poe.revoke_claim(3, c.clone()), Ok(()));
    assert_eq!(poe.proofs().get(&b), Some((9, 4)));
    assert_eq!(poe.proofs().get(&c), None);
}

#[test]
fn claims_are_compared_byte_for_byte() {
    let mut poe = registry(32);
    assert_eq!(poe.create_claim(1, vec![0, 1], 1), Ok(()));
    assert_eq!(poe.create_claim(1, vec![0, 1, 0], 1), Ok(()));
    assert_eq!(poe.create_claim(1, vec![1, 0], 1), Ok(()));
    assert_eq!(poe.create_claim(1, vec![0], 1), Ok(()));
    assert_eq!(poe.create_claim(1, vec![], 1), Ok(()));
    assert_eq!(poe.create_claim(1, vec![0, 1], 1), Err(Error::ProofAlreadyExist));
    assert_eq!(poe.events().len(), 5);
}
