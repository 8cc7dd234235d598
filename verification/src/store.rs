//! The sole owner of the three membership lists. Every mutation goes through
//! one of the per-list read-modify-write methods below; each commits fully or
//! reports an error and leaves the list exactly as it was. The reserve list is
//! a reserved extension point: it is owned and persisted here, but no defined
//! operation populates or drains it.

use vstd::prelude::*;
use crate::types::{Identity, MemberRecord};
use crate::keys::{has_key, is_first_match, distinct_keys};
use crate::bounded_list::{BoundedList, CapacityExceeded};

verus! {

/// The abstract contents of a `MembershipStore`: the three list bodies and
/// the one capacity bound they share.
#[verifier::ext_equal]
pub struct StoreModel {
    pub wait: Seq<Identity>,
    pub roster: Seq<MemberRecord>,
    pub reserve: Seq<MemberRecord>,
    pub cap: nat,
}

/// No list outgrows the configured capacity.
pub open spec fn lists_bounded(m: StoreModel) -> bool {
    m.wait.len() <= m.cap && m.roster.len() <= m.cap && m.reserve.len() <= m.cap
}

/// Within each of the wait list and the roster, an identity appears at most once.
pub open spec fn lists_distinct(m: StoreModel) -> bool {
    distinct_keys(m.wait) && distinct_keys(m.roster)
}

/// An identity on the roster is absent from the wait list.
pub open spec fn wait_roster_disjoint(m: StoreModel) -> bool {
    forall|x: Identity| !(#[trigger] has_key(m.wait, x) && has_key(m.roster, x))
}

/// The store invariant the service maintains: bounded, duplicate-free lists
/// whose wait list and roster never share an identity.
pub open spec fn store_inv(m: StoreModel) -> bool {
    lists_bounded(m) && lists_distinct(m) && wait_roster_disjoint(m)
}

/// Owns the wait list, the club roster and the dormant reserve list, all
/// built with one capacity.
pub struct MembershipStore {
    wait_list: BoundedList<Identity>,
    club_roster: BoundedList<MemberRecord>,
    club_reserve: BoundedList<MemberRecord>,
}

impl View for MembershipStore {
    type V = StoreModel;

    closed spec fn view(&self) -> StoreModel {
        StoreModel {
            wait: self.wait_list@,
            roster: self.club_roster@,
            reserve: self.club_reserve@,
            cap: self.wait_list.cap(),
        }
    }
}

impl MembershipStore {
    /// All three lists agree on one capacity.
    pub closed spec fn wf(&self) -> bool {
        self.club_roster.cap() == self.wait_list.cap()
            && self.club_reserve.cap() == self.wait_list.cap()
    }

    /// A store of three empty lists, each bounded by `capacity`.
    pub fn new(capacity: usize) -> (r: MembershipStore)
        ensures
            r.wf(),
            r@.wait == Seq::<Identity>::empty(),
            r@.roster == Seq::<MemberRecord>::empty(),
            r@.reserve == Seq::<MemberRecord>::empty(),
            r@.cap == capacity as nat,
    {
        MembershipStore {
            wait_list: BoundedList::new(capacity),
            club_roster: BoundedList::new(capacity),
            club_reserve: BoundedList::new(capacity),
        }
    }

    pub fn capacity(&self) -> (r: usize)
        ensures
            r as nat == self@.cap,
    {
        self.wait_list.capacity()
    }

    pub fn wait_len(&self) -> (r: usize)
        ensures
            r == self@.wait.len(),
    {
        self.wait_list.len()
    }

    pub fn roster_len(&self) -> (r: usize)
        ensures
            r == self@.roster.len(),
    {
        self.club_roster.len()
    }

    pub fn reserve_len(&self) -> (r: usize)
        ensures
            r == self@.reserve.len(),
    {
        self.club_reserve.len()
    }

    pub fn wait_at(&self, index: usize) -> (r: Identity)
        requires
            index < self@.wait.len(),
        ensures
            r == self@.wait[index as int],
    {
        *self.wait_list.get(index)
    }

    pub fn roster_at(&self, index: usize) -> (r: MemberRecord)
        requires
            index < self@.roster.len(),
        ensures
            r == self@.roster[index as int],
    {
        *self.club_roster.get(index)
    }

    /// First wait-list position held by `x`, if any.
    pub fn wait_position(&self, x: Identity) -> (r: Option<usize>)
        ensures
            match r {
                Some(i) => is_first_match(self@.wait, x, i as int),
                None => !has_key(self@.wait, x),
            },
    {
        self.wait_list.position(x)
    }

    /// First roster position whose record carries `x`, if any.
    pub fn roster_position(&self, x: Identity) -> (r: Option<usize>)
        ensures
            match r {
                Some(i) => is_first_match(self@.roster, x, i as int),
                None => !has_key(self@.roster, x),
            },
    {
        self.club_roster.position(x)
    }

    pub fn wait_contains(&self, x: Identity) -> (r: bool)
        ensures
            r == has_key(self@.wait, x),
    {
        self.wait_list.contains(x)
    }

    pub fn roster_contains(&self, x: Identity) -> (r: bool)
        ensures
            r == has_key(self@.roster, x),
    {
        self.club_roster.contains(x)
    }

    /// Append to the wait list; a full list is reported and left unchanged.
    pub fn push_wait(&mut self, x: Identity) -> (r: Result<(), CapacityExceeded>)
        ensures
            final(self).wf() == old(self).wf(),
            final(self)@.roster == old(self)@.roster,
            final(self)@.reserve == old(self)@.reserve,
            final(self)@.cap == old(self)@.cap,
            match r {
                Ok(()) => old(self)@.wait.len() < old(self)@.cap
                    && final(self)@.wait == old(self)@.wait.push(x),
                Err(_) => old(self)@.wait.len() >= old(self)@.cap
                    && final(self)@.wait == old(self)@.wait,
            },
    {
        self.wait_list.push(x)
    }

    /// Append to the roster; a full roster is reported and left unchanged.
    pub fn push_roster(&mut self, rec: MemberRecord) -> (r: Result<(), CapacityExceeded>)
        requires
            old(self).wf(),
        ensures
            final(self).wf(),
            final(self)@.wait == old(self)@.wait,
            final(self)@.reserve == old(self)@.reserve,
            final(self)@.cap == old(self)@.cap,
            match r {
                Ok(()) => old(self)@.roster.len() < old(self)@.cap
                    && final(self)@.roster == old(self)@.roster.push(rec),
                Err(_) => old(self)@.roster.len() >= old(self)@.cap
                    && final(self)@.roster == old(self)@.roster,
            },
    {
        self.club_roster.push(rec)
    }

    /// Remove the wait-list entry at `index`, preserving the order of the rest.
    pub fn remove_wait_at(&mut self, index: usize) -> (r: Identity)
        requires
            index < old(self)@.wait.len(),
        ensures
            final(self).wf() == old(self).wf(),
            r == old(self)@.wait[index as int],
            final(self)@.wait == old(self)@.wait.remove(index as int),
            final(self)@.roster == old(self)@.roster,
            final(self)@.reserve == old(self)@.reserve,
            final(self)@.cap == old(self)@.cap,
    {
        self.wait_list.remove_at(index)
    }

    /// Remove the roster record at `index`, preserving the order of the rest.
    pub fn remove_roster_at(&mut self, index: usize) -> (r: MemberRecord)
        requires
            index < old(self)@.roster.len(),
        ensures
            final(self).wf() == old(self).wf(),
            r == old(self)@.roster[index as int],
            final(self)@.roster == old(self)@.roster.remove(index as int),
            final(self)@.wait == old(self)@.wait,
            final(self)@.reserve == old(self)@.reserve,
            final(self)@.cap == old(self)@.cap,
    {
        self.club_roster.remove_at(index)
    }
}

} // verus!
