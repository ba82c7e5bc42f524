//! The plain data of the registry: identities, block numbers, the
//! configuration, the rejections and the events.

use vstd::prelude::*;

verus! {

/// The identity of a caller or owner. The registry only ever compares two of
/// them for equality.
pub type AccountId = u64;

/// The height of the block in which a call executes.
pub type BlockNumber = u64;

/// What a deployment fixes once and for all.
#[derive(Clone, Copy, Debug, PartialEq, Eq)]
pub struct Config {
    /// The largest number of bytes a claim may hold; greater than zero.
    pub max_claim_length: u32,
}

/// Why a call was rejected.
#[derive(Clone, Copy, Debug, PartialEq, Eq)]
pub enum Error {
    /// The claim to create is already registered.
    ProofAlreadyExist,
    /// The claim holds more bytes than the configuration allows.
    ClaimTooLong,
    /// The claim to revoke or transfer is not registered.
    ClaimNotExist,
    /// The caller does not own the claim.
    NotClaimOwner,
}

/// The record of one accepted call.
#[derive(Debug)]
pub enum Event {
    /// The account registered the claim.
    ClaimCreated(AccountId, Vec<u8>),
    /// The account gave the claim up.
    ClaimRevoked(AccountId, Vec<u8>),
    /// The first account handed the claim to the second.
    ClaimTransferred(AccountId, AccountId, Vec<u8>),
}

/// An [`Event`] as a mathematical value: the claim is a sequence of bytes.
pub enum EventView {
    ClaimCreated(AccountId, Seq<u8>),
    ClaimRevoked(AccountId, Seq<u8>),
    ClaimTransferred(AccountId, AccountId, Seq<u8>),
}

impl View for Event {
    type V = EventView;

    open spec fn view(&self) -> EventView {
        match *self {
            Event::ClaimCreated(who, claim) => EventView::ClaimCreated(who, claim@),
            Event::ClaimRevoked(who, claim) => EventView::ClaimRevoked(who, claim@),
            Event::ClaimTransferred(from, to, claim) => EventView::ClaimTransferred(
                from,
                to,
                claim@,
            ),
        }
    }
}

/// Whether two claims hold the same bytes.
pub(crate) fn same_claim(a: &Vec<u8>, b: &Vec<u8>) -> (same: bool)
    ensures
        same == (a@ == b@),
{
    let same = *a == *b;
    assert(same == (a@ =~= b@));
    same
}

impl Clone for Event {
    /// A copy that records the same call.
    fn clone(&self) -> (copy: Event)
        ensures
            copy@ == self@,
    {
        match self {
            Event::ClaimCreated(who, claim) => Event::ClaimCreated(*who, claim.clone()),
            Event::ClaimRevoked(who, claim) => Event::ClaimRevoked(*who, claim.clone()),
            Event::ClaimTransferred(from, to, claim) => Event::ClaimTransferred(
                *from,
                *to,
                claim.clone(),
            ),
        }
    }
}

impl PartialEq for Event {
    /// Two events are equal when they record the same call by the same
    /// accounts on the same claim.
    fn eq(&self, other: &Event) -> (equal: bool) {
        match (self, other) {
            (Event::ClaimCreated(who, claim), Event::ClaimCreated(other_who, other_claim)) => {
                *who == *other_who && same_claim(claim, other_claim)
            },
            (Event::ClaimRevoked(who, claim), Event::ClaimRevoked(other_who, other_claim)) => {
                *who == *other_who && same_claim(claim, other_claim)
            },
            (
                Event::ClaimTransferred(from, to, claim),
                Event::ClaimTransferred(other_from, other_to, other_claim),
            ) => { *from == *other_from && *to == *other_to && same_claim(claim, other_claim) },
            _ => false,
        }
    }
}

impl Eq for Event {

}

impl vstd::std_specs::cmp::PartialEqSpecImpl for Event {
    open spec fn obeys_eq_spec() -> bool {
        true
    }

    open spec fn eq_spec(&self, other: &Event) -> bool {
        self@ == other@
    }
}

} // verus!
