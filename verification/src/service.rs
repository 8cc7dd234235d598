//! The membership state machine. Each operation validates the caller first,
//! then reads and writes the store through its per-list methods, and records
//! the domain events in the order their effects were committed.
//!
//! What each operation does is written once, as a spec-level transition on
//! the abstract `ServiceModel`; the executable methods are proved to realize
//! those transitions exactly.

use vstd::prelude::*;
use crate::types::{Identity, MemberRecord, Caller, Error, Event};
use crate::keys::{has_key, first_match, lemma_first_match_agrees};
use crate::store::{
    MembershipStore, StoreModel, store_inv, lists_bounded, lists_distinct,
};
use crate::laws::{lemma_step_keeps_bounds, lemma_step_keeps_inv};

verus! {

/// The abstract state of the whole service: the store contents plus the
/// ordered log of emitted events.
#[verifier::ext_equal]
pub struct ServiceModel {
    pub store: StoreModel,
    pub events: Seq<Event>,
}

/// The state a freshly constructed service starts in: three empty lists and
/// no events.
pub open spec fn init_model(cap: nat) -> ServiceModel {
    ServiceModel {
        store: StoreModel {
            wait: Seq::<Identity>::empty(),
            roster: Seq::<MemberRecord>::empty(),
            reserve: Seq::<MemberRecord>::empty(),
            cap: cap,
        },
        events: Seq::<Event>::empty(),
    }
}

/// What `join_wait_list` does: a signed identity not yet on the wait list is
/// appended to it, provided there is room; the caller itself is the joiner.
pub open spec fn join_step(m: ServiceModel, caller: Caller) -> (ServiceModel, Result<(), Error>) {
    match caller {
        Caller::Privileged => (m, Err(Error::BadOrigin)),
        Caller::Signed(x) => if has_key(m.store.wait, x) {
            (m, Err(Error::AlreadyExists))
        } else if m.store.wait.len() >= m.store.cap {
            (m, Err(Error::CapacityExceeded))
        } else {
            (
                ServiceModel {
                    store: StoreModel {
                        wait: m.store.wait.push(x),
                        roster: m.store.roster,
                        reserve: m.store.reserve,
                        cap: m.store.cap,
                    },
                    events: m.events.push(Event::WaitListed(x)),
                },
                Ok(()),
            )
        },
    }
}

/// What `promote` does: for a privileged caller, a wait-listed identity is
/// recorded on the roster with the given logical time, then taken off the
/// wait list. The roster gains its record before the wait list releases the
/// identity, so a full roster never strands a half-moved entry.
pub open spec fn promote_step(m: ServiceModel, caller: Caller, member: Identity, now: u64) -> (
    ServiceModel,
    Result<(), Error>,
) {
    match caller {
        Caller::Signed(_) => (m, Err(Error::BadOrigin)),
        Caller::Privileged => if !has_key(m.store.wait, member) {
            (m, Err(Error::NotAMember))
        } else if m.store.roster.len() >= m.store.cap {
            (m, Err(Error::CapacityExceeded))
        } else {
            (
                ServiceModel {
                    store: StoreModel {
                        wait: m.store.wait.remove(first_match(m.store.wait, member)),
                        roster: m.store.roster.push(
                            MemberRecord { identity: member, registered_at: now },
                        ),
                        reserve: m.store.reserve,
                        cap: m.store.cap,
                    },
                    events: m.events.push(Event::RemovedFromWaitList(member)).push(
                        Event::MemberAdded(member),
                    ),
                },
                Ok(()),
            )
        },
    }
}

/// What `remove` does: for a privileged caller, the first roster record that
/// carries the identity is removed.
pub open spec fn remove_step(m: ServiceModel, caller: Caller, member: Identity) -> (
    ServiceModel,
    Result<(), Error>,
) {
    match caller {
        Caller::Signed(_) => (m, Err(Error::BadOrigin)),
        Caller::Privileged => if !has_key(m.store.roster, member) {
            (m, Err(Error::NotFound))
        } else {
            (
                ServiceModel {
                    store: StoreModel {
                        wait: m.store.wait,
                        roster: m.store.roster.remove(first_match(m.store.roster, member)),
                        reserve: m.store.reserve,
                        cap: m.store.cap,
                    },
                    events: m.events.push(Event::MemberRemoved(member)),
                },
                Ok(()),
            )
        },
    }
}

/// The one admission the wait list's own check cannot see: a signed caller
/// that currently sits on the roster joining the wait list anew. A successful
/// join of this shape is the single transition that re-introduces an identity
/// to both lists at once.
pub open spec fn join_readmits_member(m: ServiceModel, caller: Caller) -> bool {
    match caller {
        Caller::Signed(x) => has_key(m.store.roster, x) && !has_key(m.store.wait, x)
            && m.store.wait.len() < m.store.cap,
        Caller::Privileged => false,
    }
}

/// The membership state machine over one exclusively-owned store.
pub struct MembershipService {
    store: MembershipStore,
    events: Vec<Event>,
}

impl View for MembershipService {
    type V = ServiceModel;

    closed spec fn view(&self) -> ServiceModel {
        ServiceModel { store: self.store@, events: self.events@ }
    }
}

impl MembershipService {
    /// The lists inside agree on one capacity.
    pub closed spec fn wf(&self) -> bool {
        self.store.wf()
    }

    /// A fresh service whose three lists are empty and bounded by `capacity`.
    pub fn new(capacity: usize) -> (r: MembershipService)
        ensures
            r.wf(),
            r@ == init_model(capacity as nat),
            store_inv(r@.store),
    {
        let r = MembershipService { store: MembershipStore::new(capacity), events: Vec::new() };
        proof {
            assert(r@ =~= init_model(capacity as nat));
        }
        r
    }

    /// A signed identity asks to join the wait list. Fails with
    /// `AlreadyExists` when it is already wait-listed, with
    /// `CapacityExceeded` when the wait list is full, and with `BadOrigin`
    /// for the privileged caller, which has no identity to enqueue; a failed
    /// call changes nothing.
    pub fn join_wait_list(&mut self, caller: Caller) -> (r: Result<(), Error>)
        requires
            old(self).wf(),
            store_inv(old(self)@.store),
        ensures
            final(self).wf(),
            final(self)@ == join_step(old(self)@, caller).0,
            r == join_step(old(self)@, caller).1,
            lists_bounded(final(self)@.store),
            lists_distinct(final(self)@.store),
            !join_readmits_member(old(self)@, caller) ==> store_inv(final(self)@.store),
    {
        let ghost m0 = self@;
        match caller {
            Caller::Privileged => Err(Error::BadOrigin),
            Caller::Signed(x) => {
                if self.store.wait_contains(x) {
                    Err(Error::AlreadyExists)
                } else {
                    match self.store.push_wait(x) {
                        Err(_) => Err(Error::CapacityExceeded),
                        Ok(()) => {
                            self.events.push(Event::WaitListed(x));
                            proof {
                                assert(self@ =~= join_step(m0, caller).0);
                                lemma_step_keeps_bounds(m0, caller, x, 0);
                                lemma_step_keeps_inv(m0, caller, x, 0);
                            }
                            Ok(())
                        },
                    }
                }
            },
        }
    }

    /// A privileged caller promotes a wait-listed identity onto the roster,
    /// stamped with the logical time `now`. Fails with `NotAMember` when the
    /// identity is not wait-listed, with `CapacityExceeded` when the roster
    /// is full (the wait list is then left untouched), and with `BadOrigin`
    /// for any signed caller, checked before any state is inspected; a failed
    /// call changes nothing.
    pub fn promote(&mut self, caller: Caller, member: Identity, now: u64) -> (r: Result<(), Error>)
        requires
            old(self).wf(),
            store_inv(old(self)@.store),
        ensures
            final(self).wf(),
            store_inv(final(self)@.store),
            final(self)@ == promote_step(old(self)@, caller, member, now).0,
            r == promote_step(old(self)@, caller, member, now).1,
    {
        let ghost m0 = self@;
        match caller {
            Caller::Signed(_) => Err(Error::BadOrigin),
            Caller::Privileged => {
                match self.store.wait_position(member) {
                    None => Err(Error::NotAMember),
                    Some(i) => {
                        proof {
                            lemma_first_match_agrees(m0.store.wait, member, i as int);
                        }
                        let rec = MemberRecord { identity: member, registered_at: now };
                        match self.store.push_roster(rec) {
                            Err(_) => Err(Error::CapacityExceeded),
                            Ok(()) => {
                                self.store.remove_wait_at(i);
                                self.events.push(Event::RemovedFromWaitList(member));
                                self.events.push(Event::MemberAdded(member));
                                proof {
                                    assert(self@ =~= promote_step(m0, caller, member, now).0);
                                    lemma_step_keeps_inv(m0, caller, member, now);
                                }
                                Ok(())
                            },
                        }
                    },
                }
            },
        }
    }

    /// A privileged caller removes a member from the roster. Fails with
    /// `NotFound` when no roster record carries the identity, and with
    /// `BadOrigin` for any signed caller, checked before any state is
    /// inspected; a failed call changes nothing.
    pub fn remove(&mut self, caller: Caller, member: Identity) -> (r: Result<(), Error>)
        requires
            old(self).wf(),
            store_inv(old(self)@.store),
        ensures
            final(self).wf(),
            store_inv(final(self)@.store),
            final(self)@ == remove_step(old(self)@, caller, member).0,
            r == remove_step(old(self)@, caller, member).1,
    {
        let ghost m0 = self@;
        match caller {
            Caller::Signed(_) => Err(Error::BadOrigin),
            Caller::Privileged => {
                match self.store.roster_position(member) {
                    None => Err(Error::NotFound),
                    Some(i) => {
                        proof {
                            lemma_first_match_agrees(m0.store.roster, member, i as int);
                        }
                        self.store.remove_roster_at(i);
                        self.events.push(Event::MemberRemoved(member));
                        proof {
                            assert(self@ =~= remove_step(m0, caller, member).0);
                            lemma_step_keeps_inv(m0, caller, member, 0);
                        }
                        Ok(())
                    },
                }
            },
        }
    }

    pub fn capacity(&self) -> (r: usize)
        ensures
            r as nat == self@.store.cap,
    {
        self.store.capacity()
    }

    pub fn wait_len(&self) -> (r: usize)
        ensures
            r == self@.store.wait.len(),
    {
        self.store.wait_len()
    }

    pub fn roster_len(&self) -> (r: usize)
        ensures
            r == self@.store.roster.len(),
    {
        self.store.roster_len()
    }

    pub fn reserve_len(&self) -> (r: usize)
        ensures
            r == self@.store.reserve.len(),
    {
        self.store.reserve_len()
    }

    /// Whether `x` currently waits for promotion.
    pub fn is_wait_listed(&self, x: Identity) -> (r: bool)
        ensures
            r == has_key(self@.store.wait, x),
    {
        self.store.wait_contains(x)
    }

    /// Whether `x` currently sits on the roster.
    pub fn is_member(&self, x: Identity) -> (r: bool)
        ensures
            r == has_key(self@.store.roster, x),
    {
        self.store.roster_contains(x)
    }

    pub fn wait_at(&self, index: usize) -> (r: Identity)
        requires
            index < self@.store.wait.len(),
        ensures
            r == self@.store.wait[index as int],
    {
        self.store.wait_at(index)
    }

    pub fn roster_at(&self, index: usize) -> (r: MemberRecord)
        requires
            index < self@.store.roster.len(),
        ensures
            r == self@.store.roster[index as int],
    {
        self.store.roster_at(index)
    }

    /// The events emitted so far, oldest first.
    pub fn events(&self) -> (r: &Vec<Event>)
        ensures
            r@ == self@.events,
    {
        &self.events
    }
}

} // verus!
