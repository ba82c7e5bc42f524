//! What holds of every registry, whatever calls it has seen. Each statement
//! is about [`PalletView`], the value that the calls of
//! [`Pallet`](crate::pallet::Pallet) are proved to follow.

use vstd::prelude::*;

use crate::pallet::PalletView;
use crate::types::{AccountId, BlockNumber, Error, EventView};

verus! {

/// A fresh registry is well formed, and every call keeps a well-formed
/// registry well formed and leaves its bound as it is.
pub proof fn well_formedness_is_kept(
    s: PalletView,
    sender: AccountId,
    to: AccountId,
    claim: Seq<u8>,
    block_number: BlockNumber,
)
    requires
        s.wf(),
    ensures
        PalletView::empty(s.max_claim_length).wf(),
        s.create_claim(sender, claim, block_number).wf(),
        s.revoke_claim(sender, claim).wf(),
        s.transfer_claim(sender, to, claim, block_number).wf(),
        s.create_claim(sender, claim, block_number).max_claim_length == s.max_claim_length,
        s.revoke_claim(sender, claim).max_claim_length == s.max_claim_length,
        s.transfer_claim(sender, to, claim, block_number).max_claim_length == s.max_claim_length,
{
}

/// A rejected call changes nothing: neither the registered claims nor the
/// log of events.
pub proof fn rejection_changes_nothing(
    s: PalletView,
    sender: AccountId,
    to: AccountId,
    claim: Seq<u8>,
    block_number: BlockNumber,
)
    ensures
        s.check_create(claim) is Err ==> s.create_claim(sender, claim, block_number) == s,
        s.check_owner(sender, claim) is Err ==> s.revoke_claim(sender, claim) == s,
        s.check_owner(sender, claim) is Err ==> s.transfer_claim(sender, to, claim, block_number)
            == s,
{
}

/// An accepted call appends exactly one event, which names the call, the
/// accounts and the claim; the events before it stay as they were.
pub proof fn acceptance_appends_one_event(
    s: PalletView,
    sender: AccountId,
    to: AccountId,
    claim: Seq<u8>,
    block_number: BlockNumber,
)
    ensures
        s.check_create(claim) is Ok ==> s.create_claim(sender, claim, block_number).events
            == s.events.push(EventView::ClaimCreated(sender, claim)),
        s.check_owner(sender, claim) is Ok ==> s.revoke_claim(sender, claim).events
            == s.events.push(EventView::ClaimRevoked(sender, claim)),
        s.check_owner(sender, claim) is Ok ==> s.transfer_claim(
            sender,
            to,
            claim,
            block_number,
        ).events == s.events.push(EventView::ClaimTransferred(sender, to, claim)),
{
}

/// A call on one claim has no effect on any other claim.
pub proof fn other_claims_are_untouched(
    s: PalletView,
    sender: AccountId,
    to: AccountId,
    claim: Seq<u8>,
    block_number: BlockNumber,
    other: Seq<u8>,
)
    requires
        other != claim,
    ensures
        s.create_claim(sender, claim, block_number).get(other) == s.get(other),
        s.revoke_claim(sender, claim).get(other) == s.get(other),
        s.transfer_claim(sender, to, claim, block_number).get(other) == s.get(other),
{
}

/// After a call, a claim is owned by the account that owned it before, by
/// the account that created it in this call, or by the account that
/// received it in this call: never by an account that was not involved.
pub proof fn owner_is_never_uninvolved(
    s: PalletView,
    sender: AccountId,
    to: AccountId,
    claim: Seq<u8>,
    block_number: BlockNumber,
    any: Seq<u8>,
)
    ensures
        ({
            let t = s.create_claim(sender, claim, block_number);
            t.proofs.contains_key(any) ==> {
                ||| s.proofs.contains_key(any) && t.proofs[any] == s.proofs[any]
                ||| any == claim && t.proofs[any] == (sender, block_number)
            }
        }),
        ({
            let t = s.revoke_claim(sender, claim);
            t.proofs.contains_key(any) ==> s.proofs.contains_key(any) && t.proofs[any]
                == s.proofs[any]
        }),
        ({
            let t = s.transfer_claim(sender, to, claim, block_number);
            t.proofs.contains_key(any) ==> s.proofs.contains_key(any) && {
                ||| t.proofs[any] == s.proofs[any]
                ||| any == claim && s.proofs[any].0 == sender && t.proofs[any] == (
                    to,
                    block_number,
                )
            }
        }),
{
}

/// Creating a claim that respects the bound and is not registered is
/// accepted, and a lookup right after shows the caller as its owner, at the
/// block of the call.
pub proof fn create_then_get(
    s: PalletView,
    sender: AccountId,
    claim: Seq<u8>,
    block_number: BlockNumber,
)
    requires
        claim.len() <= s.max_claim_length,
        !s.proofs.contains_key(claim),
    ensures
        s.check_create(claim) is Ok,
        s.create_claim(sender, claim, block_number).get(claim) == Some((sender, block_number)),
{
}

/// Creating a claim that respects the bound twice in a row is rejected the
/// second time because the claim exists, whoever asks and at whatever block,
/// and the rejected call leaves the registry as the first call left it.
pub proof fn create_twice_is_rejected(
    s: PalletView,
    first: AccountId,
    second: AccountId,
    claim: Seq<u8>,
    first_block: BlockNumber,
    second_block: BlockNumber,
)
    requires
        claim.len() <= s.max_claim_length,
    ensures
        s.create_claim(first, claim, first_block).check_create(claim) == Err::<(), Error>(
            Error::ProofAlreadyExist,
        ),
        s.create_claim(first, claim, first_block).create_claim(second, claim, second_block)
            == s.create_claim(first, claim, first_block),
{
}

/// Revoking or transferring a claim that respects the bound and is not
/// registered is rejected because the claim does not exist, whoever asks,
/// and changes nothing.
pub proof fn absent_claim_is_reported(
    s: PalletView,
    sender: AccountId,
    to: AccountId,
    claim: Seq<u8>,
    block_number: BlockNumber,
)
    requires
        claim.len() <= s.max_claim_length,
        !s.proofs.contains_key(claim),
    ensures
        s.check_owner(sender, claim) == Err::<(), Error>(Error::ClaimNotExist),
        s.revoke_claim(sender, claim) == s,
        s.transfer_claim(sender, to, claim, block_number) == s,
{
}

/// Revoking or transferring a registered claim on behalf of an account that
/// does not own it is rejected for that reason, and changes nothing.
pub proof fn stranger_is_rejected(
    s: PalletView,
    owner: AccountId,
    stranger: AccountId,
    to: AccountId,
    claim: Seq<u8>,
    block_number: BlockNumber,
)
    requires
        s.wf(),
        s.proofs.contains_key(claim),
        s.proofs[claim].0 == owner,
        stranger != owner,
    ensures
        s.check_owner(stranger, claim) == Err::<(), Error>(Error::NotClaimOwner),
        s.revoke_claim(stranger, claim) == s,
        s.transfer_claim(stranger, to, claim, block_number) == s,
{
}

/// The owner's transfer of a registered claim is accepted and a lookup then
/// shows the receiver, at the block of the transfer; the receiver's transfer
/// back is accepted in the same way and shows the first owner again, at the
/// block of the second transfer.
pub proof fn transfer_there_and_back(
    s: PalletView,
    owner: AccountId,
    receiver: AccountId,
    claim: Seq<u8>,
    there_block: BlockNumber,
    back_block: BlockNumber,
)
    requires
        s.wf(),
        s.proofs.contains_key(claim),
        s.proofs[claim].0 == owner,
    ensures
        s.check_owner(owner, claim) is Ok,
        s.transfer_claim(owner, receiver, claim, there_block).get(claim) == Some(
            (receiver, there_block),
        ),
        s.transfer_claim(owner, receiver, claim, there_block).check_owner(receiver, claim) is Ok,
        s.transfer_claim(owner, receiver, claim, there_block).transfer_claim(
            receiver,
            owner,
            claim,
            back_block,
        ).get(claim) == Some((owner, back_block)),
{
}

/// A claim that was created and then revoked by its creator is free again:
/// a lookup finds nothing, the registered claims are what they were before
/// the creation, and any account may create the claim anew, with the effect
/// that the creation would have had on the registry before.
pub proof fn revoked_claim_is_free_again(
    s: PalletView,
    creator: AccountId,
    next: AccountId,
    claim: Seq<u8>,
    created: BlockNumber,
    created_anew: BlockNumber,
)
    requires
        claim.len() <= s.max_claim_length,
        !s.proofs.contains_key(claim),
    ensures
        s.create_claim(creator, claim, created).check_owner(creator, claim) is Ok,
        s.create_claim(creator, claim, created).revoke_claim(creator, claim).get(claim) is None,
        s.create_claim(creator, claim, created).revoke_claim(creator, claim).proofs == s.proofs,
        s.create_claim(creator, claim, created).revoke_claim(creator, claim).check_create(claim)
            is Ok,
        s.create_claim(creator, claim, created).revoke_claim(creator, claim).create_claim(
            next,
            claim,
            created_anew,
        ).proofs == s.create_claim(next, claim, created_anew).proofs,
        s.create_claim(creator, claim, created).revoke_claim(creator, claim).create_claim(
            next,
            claim,
            created_anew,
        ).get(claim) == Some((next, created_anew)),
{
    let created_state = s.create_claim(creator, claim, created);
    let revoked = created_state.revoke_claim(creator, claim);
}

/// A claim longer than the bound is rejected for its length by all three
/// calls, whether or not it is registered and whoever owns it, and the
/// rejected call changes nothing.
pub proof fn oversized_claim_is_rejected_first(
    s: PalletView,
    sender: AccountId,
    to: AccountId,
    claim: Seq<u8>,
    block_number: BlockNumber,
)
    requires
        claim.len() > s.max_claim_length,
    ensures
        s.check_create(claim) == Err::<(), Error>(Error::ClaimTooLong),
        s.check_owner(sender, claim) == Err::<(), Error>(Error::ClaimTooLong),
        s.create_claim(sender, claim, block_number) == s,
        s.revoke_claim(sender, claim) == s,
        s.transfer_claim(sender, to, claim, block_number) == s,
{
}

} // verus!
