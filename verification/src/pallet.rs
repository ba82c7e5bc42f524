//! The registry and its three calls: create, revoke and transfer a claim.
//!
//! What each call does is defined on [`PalletView`], the registry as a
//! mathematical value; the executable [`Pallet`] is proved to follow it.

use vstd::prelude::*;
use vstd::std_specs::cmp::PartialEqSpec;

use crate::proofs::Proofs;
use crate::types::{AccountId, BlockNumber, Config, Error, Event, EventView};

verus! {

/// The registry as a mathematical value.
pub struct PalletView {
    /// The largest number of bytes a claim may hold.
    pub max_claim_length: u32,
    /// The registered claims, each with its owner and the block of its last
    /// write.
    pub proofs: Map<Seq<u8>, (AccountId, BlockNumber)>,
    /// The events of all accepted calls, oldest first.
    pub events: Seq<EventView>,
}

impl PalletView {
    /// The bound is positive and every registered claim respects it.
    pub open spec fn wf(self) -> bool {
        &&& self.max_claim_length > 0
        &&& forall|claim: Seq<u8>| #[trigger]
            self.proofs.contains_key(claim) ==> claim.len() <= self.max_claim_length
    }

    /// The registry of a fresh deployment.
    pub open spec fn empty(max_claim_length: u32) -> PalletView {
        PalletView { max_claim_length, proofs: Map::empty(), events: Seq::empty() }
    }

    /// The owner of `claim` and the block of its last write, if it is
    /// registered.
    pub open spec fn get(self, claim: Seq<u8>) -> Option<(AccountId, BlockNumber)> {
        if self.proofs.contains_key(claim) {
            Some(self.proofs[claim])
        } else {
            None
        }
    }

    /// Whether `claim` may be created: it must respect the bound, and then
    /// it must not be registered yet.
    pub open spec fn check_create(self, claim: Seq<u8>) -> Result<(), Error> {
        if claim.len() > self.max_claim_length {
            Err(Error::ClaimTooLong)
        } else if self.proofs.contains_key(claim) {
            Err(Error::ProofAlreadyExist)
        } else {
            Ok(())
        }
    }

    /// Whether `sender` may revoke or transfer `claim`: it must respect the
    /// bound, then it must be registered, then `sender` must own it.
    pub open spec fn check_owner(self, sender: AccountId, claim: Seq<u8>) -> Result<(), Error> {
        if claim.len() > self.max_claim_length {
            Err(Error::ClaimTooLong)
        } else if !self.proofs.contains_key(claim) {
            Err(Error::ClaimNotExist)
        } else if self.proofs[claim].0 != sender {
            Err(Error::NotClaimOwner)
        } else {
            Ok(())
        }
    }

    /// The registry after `sender` asked at `block_number` to create
    /// `claim`.
    pub open spec fn create_claim(
        self,
        sender: AccountId,
        claim: Seq<u8>,
        block_number: BlockNumber,
    ) -> PalletView {
        if self.check_create(claim) is Ok {
            PalletView {
                proofs: self.proofs.insert(claim, (sender, block_number)),
                events: self.events.push(EventView::ClaimCreated(sender, claim)),
                ..self
            }
        } else {
            self
        }
    }

    /// The registry after `sender` asked to revoke `claim`.
    pub open spec fn revoke_claim(self, sender: AccountId, claim: Seq<u8>) -> PalletView {
        if self.check_owner(sender, claim) is Ok {
            PalletView {
                proofs: self.proofs.remove(claim),
                events: self.events.push(EventView::ClaimRevoked(sender, claim)),
                ..self
            }
        } else {
            self
        }
    }

    /// The registry after `sender` asked at `block_number` to hand `claim`
    /// to `to`.
    pub open spec fn transfer_claim(
        self,
        sender: AccountId,
        to: AccountId,
        claim: Seq<u8>,
        block_number: BlockNumber,
    ) -> PalletView {
        if self.check_owner(sender, claim) is Ok {
            PalletView {
                proofs: self.proofs.insert(claim, (to, block_number)),
                events: self.events.push(EventView::ClaimTransferred(sender, to, claim)),
                ..self
            }
        } else {
            self
        }
    }
}

/// A list of events as mathematical values.
pub open spec fn event_views(events: Seq<Event>) -> Seq<EventView> {
    events.map_values(|event: Event| event@)
}

/// Two lists of events are equal entry by entry exactly when they are the
/// same list of mathematical values.
proof fn lemma_same_events(a: Vec<Event>, b: Vec<Event>)
    ensures
        a.eq_spec(&b) == (event_views(a@) == event_views(b@)),
{
    if a.eq_spec(&b) {
        assert(event_views(a@) =~= event_views(b@));
    }
    if event_views(a@) == event_views(b@) {
        assert(event_views(a@).len() == event_views(b@).len());
        assert forall|i: int| 0 <= i < a@.len() implies #[trigger] a[i].eq_spec(&b[i]) by {
            assert(event_views(a@)[i] == event_views(b@)[i]);
        }
    }
}

/// The registry: the configuration, the registered claims and the log of
/// events.
#[derive(Debug)]
pub struct Pallet {
    config: Config,
    proofs: Proofs,
    events: Vec<Event>,
}

impl View for Pallet {
    type V = PalletView;

    closed spec fn view(&self) -> PalletView {
        PalletView {
            max_claim_length: self.config.max_claim_length,
            proofs: self.proofs@,
            events: event_views(self.events@),
        }
    }
}

impl Pallet {
    #[verifier::type_invariant]
    spec fn inv(self) -> bool {
        &&& self.config.max_claim_length > 0
        &&& forall|claim: Seq<u8>| #[trigger]
            self.proofs@.contains_key(claim) ==> claim.len() <= self.config.max_claim_length
    }

    /// The registry of a fresh deployment: no claim, no event. The bound on
    /// the length of claims must be positive.
    pub fn new(config: Config) -> (pallet: Pallet)
        requires
            config.max_claim_length > 0,
        ensures
            pallet@ == PalletView::empty(config.max_claim_length),
            pallet@.wf(),
    {
        let pallet = Pallet { config, proofs: Proofs::new(), events: Vec::new() };
        assert(pallet@.events =~= Seq::empty());
        pallet
    }

    /// The configuration that the registry was made with.
    pub fn config(&self) -> (config: Config)
        ensures
            config.max_claim_length == self@.max_claim_length,
            self@.wf(),
    {
        proof {
            use_type_invariant(self);
        }
        self.config
    }

    /// The registered claims.
    pub fn proofs(&self) -> (proofs: &Proofs)
        ensures
            proofs@ == self@.proofs,
            self@.wf(),
    {
        proof {
            use_type_invariant(self);
        }
        &self.proofs
    }

    /// The events of all accepted calls, oldest first.
    pub fn events(&self) -> (events: &Vec<Event>)
        ensures
            event_views(events@) == self@.events,
            self@.wf(),
    {
        proof {
            use_type_invariant(self);
        }
        &self.events
    }

    /// Whether `claim` respects the configured bound.
    fn fits(&self, claim: &Vec<u8>) -> (fits: bool)
        ensures
            fits == (claim@.len() <= self@.max_claim_length),
    {
        claim.len() <= self.config.max_claim_length as usize
    }

    /// Writes `value` under `claim`.
    fn write(&mut self, claim: Vec<u8>, value: (AccountId, BlockNumber))
        requires
            claim@.len() <= old(self)@.max_claim_length,
        ensures
            final(self)@ == (PalletView {
                proofs: old(self)@.proofs.insert(claim@, value),
                ..old(self)@
            }),
    {
        proof {
            use_type_invariant(&*self);
        }
        // The store is taken out while it is written, so that the registry is
        // well formed at every step.
        let mut proofs = Proofs::new();
        std::mem::swap(&mut proofs, &mut self.proofs);
        proofs.insert(claim, value);
        self.proofs = proofs;
    }

    /// Takes `claim` out of the registered claims.
    fn erase(&mut self, claim: &Vec<u8>)
        ensures
            final(self)@ == (PalletView {
                proofs: old(self)@.proofs.remove(claim@),
                ..old(self)@
            }),
    {
        proof {
            use_type_invariant(&*self);
        }
        let mut proofs = Proofs::new();
        std::mem::swap(&mut proofs, &mut self.proofs);
        proofs.remove(claim);
        self.proofs = proofs;
    }

    /// Appends `event` to the log.
    fn deposit_event(&mut self, event: Event)
        ensures
            final(self)@ == (PalletView {
                events: old(self)@.events.push(event@),
                ..old(self)@
            }),
    {
        proof {
            use_type_invariant(&*self);
        }
        let mut events: Vec<Event> = Vec::new();
        std::mem::swap(&mut events, &mut self.events);
        let ghost before = events@;
        events.push(event);
        assert(event_views(events@) =~= event_views(before).push(event@));
        self.events = events;
    }

    /// Registers `claim` for `origin` at `block_number`.
    ///
    /// A claim longer than the configured bound is rejected with
    /// [`Error::ClaimTooLong`], a claim that is already registered with
    /// [`Error::ProofAlreadyExist`]; a rejected call changes nothing. An
    /// accepted call records `(origin, block_number)` under the claim and
    /// appends [`Event::ClaimCreated`].
    pub fn create_claim(
        &mut self,
        origin: AccountId,
        claim: Vec<u8>,
        block_number: BlockNumber,
    ) -> (result: Result<(), Error>)
        ensures
            result == old(self)@.check_create(claim@),
            final(self)@ == old(self)@.create_claim(origin, claim@, block_number),
            final(self)@.wf(),
    {
        proof {
            use_type_invariant(&*self);
        }
        if !self.fits(&claim) {
            return Err(Error::ClaimTooLong);
        }
        if self.proofs.contains_key(&claim) {
            return Err(Error::ProofAlreadyExist);
        }
        self.write(claim.clone(), (origin, block_number));
        self.deposit_event(Event::ClaimCreated(origin, claim));
        proof {
            use_type_invariant(&*self);
        }
        Ok(())
    }

    /// Takes `claim` out of the registry on behalf of `origin`, its owner.
    ///
    /// A claim longer than the configured bound is rejected with
    /// [`Error::ClaimTooLong`], then a claim that is not registered with
    /// [`Error::ClaimNotExist`], then a claim that another account owns with
    /// [`Error::NotClaimOwner`]; a rejected call changes nothing. An accepted
    /// call removes the claim and appends [`Event::ClaimRevoked`].
    pub fn revoke_claim(&mut self, origin: AccountId, claim: Vec<u8>) -> (result: Result<
        (),
        Error,
    >)
        ensures
            result == old(self)@.check_owner(origin, claim@),
            final(self)@ == old(self)@.revoke_claim(origin, claim@),
            final(self)@.wf(),
    {
        proof {
            use_type_invariant(&*self);
        }
        if !self.fits(&claim) {
            return Err(Error::ClaimTooLong);
        }
        let owner = match self.proofs.get(&claim) {
            Some((owner, _)) => owner,
            None => {
                return Err(Error::ClaimNotExist);
            },
        };
        if owner != origin {
            return Err(Error::NotClaimOwner);
        }
        self.erase(&claim);
        self.deposit_event(Event::ClaimRevoked(origin, claim));
        proof {
            use_type_invariant(&*self);
        }
        Ok(())
    }

    /// Hands `claim` from `origin`, its owner, to `to` at `block_number`.
    ///
    /// The call is rejected as [`Pallet::revoke_claim`] rejects, in the same
    /// order; a rejected call changes nothing. Any account may receive a
    /// claim, the owner included. An accepted call records
    /// `(to, block_number)` under the claim and appends
    /// [`Event::ClaimTransferred`].
    pub fn transfer_claim(
        &mut self,
        origin: AccountId,
        to: AccountId,
        claim: Vec<u8>,
        block_number: BlockNumber,
    ) -> (result: Result<(), Error>)
        ensures
            result == old(self)@.check_owner(origin, claim@),
            final(self)@ == old(self)@.transfer_claim(origin, to, claim@, block_number),
            final(self)@.wf(),
    {
        proof {
            use_type_invariant(&*self);
        }
        if !self.fits(&claim) {
            return Err(Error::ClaimTooLong);
        }
        let owner = match self.proofs.get(&claim) {
            Some((owner, _)) => owner,
            None => {
                return Err(Error::ClaimNotExist);
            },
        };
        if owner != origin {
            return Err(Error::NotClaimOwner);
        }
        self.write(claim.clone(), (to, block_number));
        self.deposit_event(Event::ClaimTransferred(origin, to, claim));
        proof {
            use_type_invariant(&*self);
        }
        Ok(())
    }
}

impl Clone for Pallet {
    /// A copy with the same configuration, claims and events.
    fn clone(&self) -> (copy: Pallet)
        ensures
            copy@ == self@,
    {
        proof {
            use_type_invariant(self);
        }
        let mut events: Vec<Event> = Vec::new();
        let mut i: usize = 0;
        while i < self.events.len()
            invariant
                i <= self.events.len(),
                events.len() == i,
                forall|j: int| 0 <= j < i ==> (#[trigger] events@[j])@ == self.events@[j]@,
            decreases self.events.len() - i,
        {
            events.push(self.events[i].clone());
            i += 1;
        }
        assert(event_views(events@) =~= event_views(self.events@));
        Pallet { config: self.config, proofs: self.proofs.clone(), events }
    }
}

impl PartialEq for Pallet {
    /// Two registries are equal when they have the same bound, hold the same
    /// claims with the same owners and blocks, and have logged the same
    /// events in the same order.
    fn eq(&self, other: &Pallet) -> (equal: bool) {
        let same_events = self.events == other.events;
        proof {
            lemma_same_events(self.events, other.events);
        }
        self.config.max_claim_length == other.config.max_claim_length && self.proofs
            == other.proofs && same_events
    }
}

impl Eq for Pallet {

}

impl vstd::std_specs::cmp::PartialEqSpecImpl for Pallet {
    open spec fn obeys_eq_spec() -> bool {
        true
    }

    open spec fn eq_spec(&self, other: &Pallet) -> bool {
        self@ == other@
    }
}

} // verus!
