//! An independent collaborator beside the membership core: a single mutable
//! counter with one-time initialization and overflow-checked arithmetic. It
//! shares the caller model with the membership service but touches none of
//! its state.

use vstd::prelude::*;
use crate::types::{Identity, Caller};

verus! {

/// Every failure a counter operation can report.
#[derive(Clone, Copy, PartialEq, Eq, Structural, Debug)]
pub enum CounterError {
    /// `sub` would take the value below zero.
    StorageUnderflow,
    /// `add` would take the value above `u32::MAX`.
    StorageOverflow,
    /// The caller is not a signed identity.
    BadOrigin,
}

/// Counter events, recorded in the order their effects were committed; each
/// carries the value after the change and the signed caller that made it.
#[derive(Clone, Copy, PartialEq, Eq, Structural, Debug)]
pub enum CounterEvent {
    NumberStored(u32, Identity),
    IncrementedNumber(u32, Identity),
    DecrementedNumber(u32, Identity),
}

/// A single stored value with checked arithmetic. The value starts at zero,
/// and `set_once` writes it only while it is still zero.
pub struct CounterService {
    value: u32,
    events: Vec<CounterEvent>,
}

impl CounterService {
    /// The stored value.
    pub closed spec fn val(&self) -> u32 {
        self.value
    }

    /// The events emitted so far, oldest first.
    pub closed spec fn log(&self) -> Seq<CounterEvent> {
        self.events@
    }

    /// A counter holding zero, with no events yet.
    pub fn new() -> (r: CounterService)
        ensures
            r.val() == 0,
            r.log() == Seq::<CounterEvent>::empty(),
    {
        CounterService { value: 0, events: Vec::new() }
    }

    pub fn read(&self) -> (r: u32)
        ensures
            r == self.val(),
    {
        self.value
    }

    /// A signed caller stores `number`, but only while the value is still
    /// zero; a later call changes nothing and still reports success. The
    /// privileged caller is refused.
    pub fn set_once(&mut self, caller: Caller, number: u32) -> (r: Result<(), CounterError>)
        ensures
            match caller {
                Caller::Privileged => r == Err::<(), CounterError>(CounterError::BadOrigin)
                    && final(self).val() == old(self).val()
                    && final(self).log() == old(self).log(),
                Caller::Signed(who) => r == Ok::<(), CounterError>(()) && if old(self).val() == 0 {
                    final(self).val() == number && final(self).log() == old(self).log().push(
                        CounterEvent::NumberStored(number, who),
                    )
                } else {
                    final(self).val() == old(self).val() && final(self).log() == old(self).log()
                },
            },
    {
        match caller {
            Caller::Privileged => Err(CounterError::BadOrigin),
            Caller::Signed(who) => {
                if self.value == 0 {
                    self.value = number;
                    self.events.push(CounterEvent::NumberStored(number, who));
                }
                Ok(())
            },
        }
    }

    /// A signed caller adds `number` to the value; a sum beyond `u32::MAX` is
    /// refused without effect. The privileged caller is refused.
    pub fn add(&mut self, caller: Caller, number: u32) -> (r: Result<(), CounterError>)
        ensures
            match caller {
                Caller::Privileged => r == Err::<(), CounterError>(CounterError::BadOrigin)
                    && final(self).val() == old(self).val()
                    && final(self).log() == old(self).log(),
                Caller::Signed(who) => if old(self).val() + number <= u32::MAX {
                    r == Ok::<(), CounterError>(()) && final(self).val() == old(self).val() + number
                        && final(self).log() == old(self).log().push(
                        CounterEvent::IncrementedNumber((old(self).val() + number) as u32, who),
                    )
                } else {
                    r == Err::<(), CounterError>(CounterError::StorageOverflow)
                        && final(self).val() == old(self).val()
                        && final(self).log() == old(self).log()
                },
            },
    {
        match caller {
            Caller::Privileged => Err(CounterError::BadOrigin),
            Caller::Signed(who) => {
                if number <= u32::MAX - self.value {
                    self.value = self.value + number;
                    self.events.push(CounterEvent::IncrementedNumber(self.value, who));
                    Ok(())
                } else {
                    Err(CounterError::StorageOverflow)
                }
            },
        }
    }

    /// A signed caller subtracts `number` from the value; a difference below
    /// zero is refused without effect. The privileged caller is refused.
    pub fn sub(&mut self, caller: Caller, number: u32) -> (r: Result<(), CounterError>)
        ensures
            match caller {
                Caller::Privileged => r == Err::<(), CounterError>(CounterError::BadOrigin)
                    && final(self).val() == old(self).val()
                    && final(self).log() == old(self).log(),
                Caller::Signed(who) => if number <= old(self).val() {
                    r == Ok::<(), CounterError>(()) && final(self).val() == old(self).val() - number
                        && final(self).log() == old(self).log().push(
                        CounterEvent::DecrementedNumber((old(self).val() - number) as u32, who),
                    )
                } else {
                    r == Err::<(), CounterError>(CounterError::StorageUnderflow)
                        && final(self).val() == old(self).val()
                        && final(self).log() == old(self).log()
                },
            },
    {
        match caller {
            Caller::Privileged => Err(CounterError::BadOrigin),
            Caller::Signed(who) => {
                if number <= self.value {
                    self.value = self.value - number;
                    self.events.push(CounterEvent::DecrementedNumber(self.value, who));
                    Ok(())
                } else {
                    Err(CounterError::StorageUnderflow)
                }
            },
        }
    }

    /// The counter events so far, oldest first.
    pub fn events(&self) -> (r: &Vec<CounterEvent>)
        ensures
            r@ == self.log(),
    {
        &self.events
    }
}

} // verus!
