//! A generic fixed-capacity ordered container. Every mutation is
//! capacity-checked, and a refused mutation leaves the contents untouched.

use vstd::prelude::*;
use crate::types::{Identity, Keyed};
use crate::keys::{has_key, is_first_match, lemma_first_match_agrees};

verus! {

/// Returned by `push` when the list already holds `cap()` elements.
#[derive(Clone, Copy, PartialEq, Eq, Structural, Debug)]
pub struct CapacityExceeded;

/// An ordered sequence with a fixed maximum length chosen at construction.
pub struct BoundedList<T> {
    items: Vec<T>,
    capacity: usize,
}

impl<T> View for BoundedList<T> {
    type V = Seq<T>;

    closed spec fn view(&self) -> Seq<T> {
        self.items@
    }
}

impl<T> BoundedList<T> {
    /// The maximum number of elements the list will ever hold.
    pub closed spec fn cap(&self) -> nat {
        self.capacity as nat
    }

    /// An empty list that will never grow beyond `capacity` elements.
    pub fn new(capacity: usize) -> (r: BoundedList<T>)
        ensures
            r@ == Seq::<T>::empty(),
            r.cap() == capacity as nat,
    {
        BoundedList { items: Vec::new(), capacity }
    }

    pub fn len(&self) -> (r: usize)
        ensures
            r == self@.len(),
    {
        self.items.len()
    }

    pub fn capacity(&self) -> (r: usize)
        ensures
            r as nat == self.cap(),
    {
        self.capacity
    }

    /// Read the element at `index`.
    pub fn get(&self, index: usize) -> (r: &T)
        requires
            index < self@.len(),
        ensures
            *r == self@[index as int],
    {
        &self.items[index]
    }

    /// Append `item` at the end; a full list is reported and left unchanged.
    pub fn push(&mut self, item: T) -> (r: Result<(), CapacityExceeded>)
        ensures
            final(self).cap() == old(self).cap(),
            match r {
                Ok(()) => old(self)@.len() < old(self).cap() && final(self)@ == old(self)@.push(item),
                Err(_) => old(self)@.len() >= old(self).cap() && final(self)@ == old(self)@,
            },
    {
        if self.items.len() < self.capacity {
            self.items.push(item);
            Ok(())
        } else {
            Err(CapacityExceeded)
        }
    }

    /// Remove and return the element at `index`, shifting the elements after
    /// it one place left; their relative order is preserved.
    pub fn remove_at(&mut self, index: usize) -> (r: T)
        requires
            index < old(self)@.len(),
        ensures
            final(self).cap() == old(self).cap(),
            r == old(self)@[index as int],
            final(self)@ == old(self)@.remove(index as int),
    {
        self.items.remove(index)
    }
}

impl<T: Keyed> BoundedList<T> {
    /// The first position whose element carries the identity `x`, if any.
    pub fn position(&self, x: Identity) -> (r: Option<usize>)
        ensures
            match r {
                Some(i) => is_first_match(self@, x, i as int),
                None => !has_key(self@, x),
            },
    {
        let n = self.items.len();
        let mut k: usize = 0;
        while k < n
            invariant
                n == self@.len(),
                k <= n,
                forall|j: int| 0 <= j < k ==> #[trigger] self@[j].key_spec() != x,
            decreases n - k,
    {
            if self.items[k].key() == x {
                return Some(k);
            }
            k = k + 1;
        }
        None
    }

    /// Whether some element carries the identity `x`.
    pub fn contains(&self, x: Identity) -> (r: bool)
        ensures
            r == has_key(self@, x),
    {
        match self.position(x) {
            Some(i) => {
                proof {
                    lemma_first_match_agrees(self@, x, i as int);
                }
                true
            },
            None => false,
        }
    }
}

} // verus!
