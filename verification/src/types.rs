//! The data the membership service works on: identities, roster records,
//! authenticated callers, errors, and domain events.

use vstd::prelude::*;

verus! {

/// An opaque, comparable, cloneable account handle. Nothing beyond equality
/// is assumed of it.
#[derive(Clone, Copy, PartialEq, Eq, Structural, Debug, Hash)]
pub struct Identity(pub u64);

/// A roster entry: the admitted identity together with the logical time at
/// which it was promoted. A record is immutable once created.
#[derive(Clone, Copy, Debug)]
pub struct MemberRecord {
    pub identity: Identity,
    pub registered_at: u64,
}

/// Two records denote the same member exactly when their identities agree;
/// the registration time takes no part in equality.
impl PartialEq for MemberRecord {
    fn eq(&self, other: &MemberRecord) -> bool {
        self.identity == other.identity
    }
}

impl vstd::std_specs::cmp::PartialEqSpecImpl for MemberRecord {
    open spec fn obeys_eq_spec() -> bool {
        true
    }

    open spec fn eq_spec(&self, other: &MemberRecord) -> bool {
        self.identity == other.identity
    }
}

/// How a request arrives at the service: authenticated as an ordinary signed
/// identity, or as the privileged (root) caller. Authentication itself happens
/// in a dispatch layer outside this library; the service never re-derives
/// privilege.
#[derive(Clone, Copy, PartialEq, Eq, Structural, Debug)]
pub enum Caller {
    Signed(Identity),
    Privileged,
}

/// Every failure an operation can report. Each is a recoverable outcome; a
/// failed operation leaves the store untouched.
#[derive(Clone, Copy, PartialEq, Eq, Structural, Debug)]
pub enum Error {
    /// `join_wait_list` target is already on the wait list.
    AlreadyExists,
    /// `promote` target is absent from the wait list.
    NotAMember,
    /// `remove` target is absent from the roster.
    NotFound,
    /// A push would grow a list beyond its capacity.
    CapacityExceeded,
    /// The caller lacks the standing the operation demands.
    BadOrigin,
}

/// Domain events, recorded in the order their effects were committed.
#[derive(Clone, Copy, PartialEq, Eq, Structural, Debug)]
pub enum Event {
    WaitListed(Identity),
    RemovedFromWaitList(Identity),
    MemberAdded(Identity),
    MemberRemoved(Identity),
}

/// Anything stored in a membership list carries an identity, and lookups and
/// removals match on it (first match wins; there is no secondary ordering).
pub trait Keyed: Sized {
    /// The identity that lookups go by.
    spec fn key_spec(&self) -> Identity;

    /// Executable access to the same identity.
    fn key(&self) -> (r: Identity)
        ensures
            r == self.key_spec(),
    ;
}

impl Keyed for Identity {
    open spec fn key_spec(&self) -> Identity {
        *self
    }

    fn key(&self) -> (r: Identity) {
        *self
    }
}

impl Keyed for MemberRecord {
    open spec fn key_spec(&self) -> Identity {
        self.identity
    }

    fn key(&self) -> (r: Identity) {
        self.identity
    }
}

} // verus!
