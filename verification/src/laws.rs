//! The guarantees the state machine gives, stated over the abstract
//! transitions and proved once and for all: the capacity bound and the
//! wait-list/roster exclusion are preserved by every operation, repeated
//! joins are refused, absent targets are refused without effect, a full wait
//! list admits nobody, the join-promote-remove round trip behaves exactly as
//! stated, and unprivileged callers are always turned away.

use vstd::prelude::*;
use crate::types::{Identity, MemberRecord, Caller, Error, Event, Keyed};
use crate::keys::{
    has_key, first_match, lemma_first_match_exists, lemma_first_match_agrees,
    lemma_push_has_key, lemma_push_distinct, lemma_remove_has_key, lemma_remove_distinct,
};
use crate::store::{StoreModel, store_inv, lists_bounded, lists_distinct};
use crate::service::{
    ServiceModel, init_model, join_step, promote_step, remove_step, join_readmits_member,
};

verus! {

/// In every state satisfying the store invariant, both membership lists fit
/// the configured capacity. Together with `lemma_step_keeps_inv` and the
/// invariant that a fresh service starts in, the bound holds after every step
/// of every sequence of operations.
pub proof fn lemma_lists_bounded_always(m: StoreModel)
    requires
        store_inv(m),
    ensures
        m.wait.len() <= m.cap,
        m.roster.len() <= m.cap,
{
}

/// In every state satisfying the store invariant, no identity sits on the
/// wait list and the roster at once.
pub proof fn lemma_never_in_both(m: StoreModel, x: Identity)
    requires
        store_inv(m),
    ensures
        !(has_key(m.wait, x) && has_key(m.roster, x)),
{
}

/// Every transition keeps all three lists within the capacity bound.
pub proof fn lemma_step_keeps_bounds(m: ServiceModel, c: Caller, x: Identity, now: u64)
    requires
        lists_bounded(m.store),
    ensures
        lists_bounded(join_step(m, c).0.store),
        lists_bounded(promote_step(m, c, x, now).0.store),
        lists_bounded(remove_step(m, c, x).0.store),
{
    match c {
        Caller::Signed(_) => {},
        Caller::Privileged => {
            if has_key(m.store.wait, x) && m.store.roster.len() < m.store.cap {
                lemma_first_match_exists(m.store.wait, x);
                m.store.wait.remove_ensures(first_match(m.store.wait, x));
            }
            if has_key(m.store.roster, x) {
                lemma_first_match_exists(m.store.roster, x);
                m.store.roster.remove_ensures(first_match(m.store.roster, x));
            }
        },
    }
}

/// Every transition preserves the full store invariant, with one exception
/// that is named rather than hidden: a join that readmits a current roster
/// member (`join_readmits_member`) re-breaks the wait-list/roster exclusion.
/// Even then the lists stay bounded and duplicate-free.
pub proof fn lemma_step_keeps_inv(m: ServiceModel, c: Caller, x: Identity, now: u64)
    requires
        store_inv(m.store),
    ensures
        lists_bounded(join_step(m, c).0.store),
        lists_distinct(join_step(m, c).0.store),
        !join_readmits_member(m, c) ==> store_inv(join_step(m, c).0.store),
        store_inv(promote_step(m, c, x, now).0.store),
        store_inv(remove_step(m, c, x).0.store),
{
    lemma_step_keeps_bounds(m, c, x, now);
    match c {
        Caller::Signed(y) => {
            if !has_key(m.store.wait, y) && m.store.wait.len() < m.store.cap {
                let m1 = join_step(m, c).0;
                lemma_push_distinct(m.store.wait, y);
                if !has_key(m.store.roster, y) {
                    assert forall|z: Identity|
                        !(#[trigger] has_key(m1.store.wait, z) && has_key(
                            m1.store.roster,
                            z,
                        )) by {
                        lemma_push_has_key(m.store.wait, y, z);
                    }
                }
            }
        },
        Caller::Privileged => {
            if has_key(m.store.wait, x) && m.store.roster.len() < m.store.cap {
                lemma_first_match_exists(m.store.wait, x);
                let i = first_match(m.store.wait, x);
                let rec = MemberRecord { identity: x, registered_at: now };
                lemma_remove_distinct(m.store.wait, i);
                assert(m.store.wait[i].key_spec() == x);
                assert(!has_key(m.store.roster, x));
                lemma_push_distinct(m.store.roster, rec);
                let m2 = promote_step(m, c, x, now).0;
                assert forall|z: Identity|
                    !(#[trigger] has_key(m2.store.wait, z) && has_key(m2.store.roster, z)) by {
                    lemma_push_has_key(m.store.roster, rec, z);
                    lemma_remove_has_key(m.store.wait, i, z);
                }
            }
            if has_key(m.store.roster, x) {
                lemma_first_match_exists(m.store.roster, x);
                let i = first_match(m.store.roster, x);
                lemma_remove_distinct(m.store.roster, i);
                let m3 = remove_step(m, c, x).0;
                assert forall|z: Identity|
                    !(#[trigger] has_key(m3.store.wait, z) && has_key(m3.store.roster, z)) by {
                    lemma_remove_has_key(m.store.roster, i, z);
                }
            }
        },
    }
}

/// Joining twice in a row without an intervening promotion: the first call
/// admits the identity, the second is refused with `AlreadyExists` and
/// changes nothing, and the wait list has grown by exactly one entry.
pub proof fn lemma_join_twice(m: ServiceModel, x: Identity)
    requires
        !has_key(m.store.wait, x),
        m.store.wait.len() < m.store.cap,
    ensures
        join_step(m, Caller::Signed(x)).1 == Ok::<(), Error>(()),
        join_step(join_step(m, Caller::Signed(x)).0, Caller::Signed(x)).1 == Err::<(), Error>(
            Error::AlreadyExists,
        ),
        join_step(join_step(m, Caller::Signed(x)).0, Caller::Signed(x)).0 == join_step(
            m,
            Caller::Signed(x),
        ).0,
        join_step(join_step(m, Caller::Signed(x)).0, Caller::Signed(x)).0.store.wait.len()
            == m.store.wait.len() + 1,
{
    let m1 = join_step(m, Caller::Signed(x)).0;
    lemma_push_has_key(m.store.wait, x, x);
    assert(has_key(m1.store.wait, x));
}

/// Promoting an identity that never joined the wait list is refused with
/// `NotAMember`, and the whole state is left unchanged.
pub proof fn lemma_promote_absent(m: ServiceModel, x: Identity, now: u64)
    requires
        !has_key(m.store.wait, x),
    ensures
        promote_step(m, Caller::Privileged, x, now).1 == Err::<(), Error>(Error::NotAMember),
        promote_step(m, Caller::Privileged, x, now).0 == m,
{
}

/// Removing an identity that was never promoted is refused with `NotFound`,
/// and the whole state is left unchanged.
pub proof fn lemma_remove_absent(m: ServiceModel, x: Identity)
    requires
        !has_key(m.store.roster, x),
    ensures
        remove_step(m, Caller::Privileged, x).1 == Err::<(), Error>(Error::NotFound),
        remove_step(m, Caller::Privileged, x).0 == m,
{
}

/// With the wait list at capacity, a newcomer is refused with
/// `CapacityExceeded`: the list keeps its full length and does not gain the
/// newcomer, and nothing else changes either.
pub proof fn lemma_join_full(m: ServiceModel, y: Identity)
    requires
        m.store.wait.len() == m.store.cap,
        !has_key(m.store.wait, y),
    ensures
        join_step(m, Caller::Signed(y)).1 == Err::<(), Error>(Error::CapacityExceeded),
        join_step(m, Caller::Signed(y)).0 == m,
        join_step(m, Caller::Signed(y)).0.store.wait.len() == m.store.cap,
        !has_key(join_step(m, Caller::Signed(y)).0.store.wait, y),
{
}

/// The full round trip from a fresh service: a join admits `a` to the wait
/// list; a privileged promotion empties the wait list and puts exactly `a`'s
/// record on the roster, the events reading wait-listed, removed from the
/// wait list, member added, in that order; a privileged removal then empties
/// the roster and appends the member-removed event.
pub proof fn lemma_end_to_end(
    cap: nat,
    a: Identity,
    t: u64,
    m1: ServiceModel,
    m2: ServiceModel,
    m3: ServiceModel,
)
    requires
        1 <= cap,
        m1 == join_step(init_model(cap), Caller::Signed(a)).0,
        m2 == promote_step(m1, Caller::Privileged, a, t).0,
        m3 == remove_step(m2, Caller::Privileged, a).0,
    ensures
        join_step(init_model(cap), Caller::Signed(a)).1 == Ok::<(), Error>(()),
        promote_step(m1, Caller::Privileged, a, t).1 == Ok::<(), Error>(()),
        m2.store.wait.len() == 0,
        m2.store.roster =~= seq![(MemberRecord { identity: a, registered_at: t })],
        m2.events =~= seq![
            Event::WaitListed(a),
            Event::RemovedFromWaitList(a),
            Event::MemberAdded(a),
        ],
        remove_step(m2, Caller::Privileged, a).1 == Ok::<(), Error>(()),
        m3.store.roster.len() == 0,
        m3.store.wait.len() == 0,
        m3.events =~= m2.events.push(Event::MemberRemoved(a)),
{
    let m0 = init_model(cap);
    assert(!has_key(m0.store.wait, a));
    assert(m1.store.wait[0].key_spec() == a);
    assert(has_key(m1.store.wait, a));
    lemma_first_match_agrees(m1.store.wait, a, 0);
    m1.store.wait.remove_ensures(0);
    assert(m2.store.wait.len() == 0);
    assert(m2.store.roster[0].key_spec() == a);
    assert(has_key(m2.store.roster, a));
    lemma_first_match_agrees(m2.store.roster, a, 0);
    m2.store.roster.remove_ensures(0);
}

/// A signed (unprivileged) caller is always turned away from `promote` and
/// `remove` with `BadOrigin`, whatever the target's actual standing, and
/// nothing changes.
pub proof fn lemma_unprivileged_refused(m: ServiceModel, y: Identity, x: Identity, now: u64)
    ensures
        promote_step(m, Caller::Signed(y), x, now).1 == Err::<(), Error>(Error::BadOrigin),
        promote_step(m, Caller::Signed(y), x, now).0 == m,
        remove_step(m, Caller::Signed(y), x).1 == Err::<(), Error>(Error::BadOrigin),
        remove_step(m, Caller::Signed(y), x).0 == m,
{
}

} // verus!
