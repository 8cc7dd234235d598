use dolfhinclub::types::{Caller, Error, Event, Identity, MemberRecord};
use dolfhinclub::service::MembershipService;

#[test]
fn lists_never_outgrow_capacity() {
    let m: usize = 3;
    let mut s = MembershipService::new(m);
    for k in 0..10u64 {
        let _ = s.join_wait_list(Caller::Signed(Identity(k)));
        assert!(s.wait_len() <= m);
        assert!(s.roster_len() <= m);
    }
    for k in 0..10u64 {
        let _ = s.promote(Caller::Privileged, Identity(k), k);
        assert!(s.wait_len() <= m);
        assert!(s.roster_len() <= m);
    }
}

#[test]
fn never_in_wait_list_and_roster_at_once() {
    let mut s = MembershipService::new(4);
    let a = Identity(1);
    assert_eq!(s.join_wait_list(Caller::Signed(a)), Ok(()));
    assert!(s.is_wait_listed(a) && !s.is_member(a));
    assert_eq!(s.promote(Caller::Privileged, a, 9), Ok(()));
    assert!(!s.is_wait_listed(a) && s.is_member(a));
    assert_eq!(s.remove(Caller::Privileged, a), Ok(()));
    assert!(!s.is_wait_listed(a) && !s.is_member(a));
}

#[test]
fn join_twice_yields_already_exists() {
    let mut s = MembershipService::new(5);
    let a = Identity(42);
    assert_eq!(s.join_wait_list(Caller::Signed(a)), Ok(()));
    assert_eq!(s.join_wait_list(Caller::Signed(a)), Err(Error::AlreadyExists));
    assert_eq!(s.wait_len(), 1);
    assert_eq!(s.events().len(), 1);
}

#[test]
fn promote_never_joined_yields_not_a_member() {
    let mut s = MembershipService::new(5);
    assert_eq!(s.join_wait_list(Caller::Signed(Identity(1))), Ok(()));
    assert_eq!(s.promote(Caller::Privileged, Identity(2), 3), Err(Error::NotAMember));
    assert_eq!(s.wait_len(), 1);
    assert_eq!(s.roster_len(), 0);
    assert_eq!(s.events().len(), 1);
}

#[test]
fn remove_never_promoted_yields_not_found() {
    let mut s = MembershipService::new(5);
    assert_eq!(s.join_wait_list(Caller::Signed(Identity(1))), Ok(()));
    assert_eq!(s.remove(Caller::Privileged, Identity(1)), Err(Error::NotFound));
    assert_eq!(s.remove(Caller::Privileged, Identity(9)), Err(Error::NotFound));
    assert_eq!(s.wait_len(), 1);
    assert_eq!(s.roster_len(), 0);
    assert_eq!(s.events().len(), 1);
}

#[test]
fn join_on_full_wait_list_yields_capacity_exceeded() {
    let m: usize = 2;
    let mut s = MembershipService::new(m);
    assert_eq!(s.join_wait_list(Caller::Signed(Identity(1))), Ok(()));
    assert_eq!(s.join_wait_list(Caller::Signed(Identity(2))), Ok(()));
    let y = Identity(3);
    assert_eq!(s.join_wait_list(Caller::Signed(y)), Err(Error::CapacityExceeded));
    assert_eq!(s.wait_len(), m);
    assert!(!s.is_wait_listed(y));
}

#[test]
fn join_with_zero_capacity_yields_capacity_exceeded() {
    let mut s = MembershipService::new(0);
    assert_eq!(s.join_wait_list(Caller::Signed(Identity(1))), Err(Error::CapacityExceeded));
    assert_eq!(s.wait_len(), 0);
}

#[test]
fn promote_on_full_roster_leaves_wait_list_untouched() {
    let mut s = MembershipService::new(1);
    let a = Identity(1);
    assert_eq!(s.join_wait_list(Caller::Signed(a)), Ok(()));
    assert_eq!(s.promote(Caller::Privileged, a, 1), Ok(()));
    let b = Identity(2);
    assert_eq!(s.join_wait_list(Caller::Signed(b)), Ok(()));
    assert_eq!(s.promote(Caller::Privileged, b, 2), Err(Error::CapacityExceeded));
    assert!(s.is_wait_listed(b));
    assert!(!s.is_member(b));
    assert_eq!(s.wait_len(), 1);
    assert_eq!(s.roster_len(), 1);
}

#[test]
fn end_to_end_round_trip_with_events_in_order() {
    let mut s = MembershipService::new(4);
    let a = Identity(11);
    assert_eq!(s.join_wait_list(Caller::Signed(a)), Ok(()));
    assert_eq!(s.promote(Caller::Privileged, a, 77), Ok(()));
    assert_eq!(s.wait_len(), 0);
    assert_eq!(s.roster_len(), 1);
    let rec = s.roster_at(0);
    assert_eq!(rec.identity, a);
    assert_eq!(rec.registered_at, 77);
    assert_eq!(
        s.events().clone(),
        vec![Event::WaitListed(a), Event::RemovedFromWaitList(a), Event::MemberAdded(a)]
    );
    assert_eq!(s.remove(Caller::Privileged, a), Ok(()));
    assert_eq!(s.roster_len(), 0);
    assert_eq!(s.events().len(), 4);
    assert_eq!(s.events()[3], Event::MemberRemoved(a));
}

#[test]
fn unprivileged_promote_and_remove_yield_bad_origin() {
    let mut s = MembershipService::new(4);
    let a = Identity(1);
    let stranger = Identity(2);
    assert_eq!(s.join_wait_list(Caller::Signed(a)), Ok(()));
    // target present on the wait list
    assert_eq!(s.promote(Caller::Signed(stranger), a, 1), Err(Error::BadOrigin));
    // target absent everywhere
    assert_eq!(s.promote(Caller::Signed(stranger), Identity(9), 1), Err(Error::BadOrigin));
    assert_eq!(s.remove(Caller::Signed(stranger), a), Err(Error::BadOrigin));
    assert_eq!(s.remove(Caller::Signed(stranger), Identity(9)), Err(Error::BadOrigin));
    // a member as target, removed by itself: still refused
    assert_eq!(s.promote(Caller::Privileged, a, 1), Ok(()));
    assert_eq!(s.remove(Caller::Signed(a), a), Err(Error::BadOrigin));
    assert!(s.is_member(a));
    assert_eq!(s.events().len(), 3);
}

#[test]
fn privileged_caller_cannot_join_wait_list() {
    let mut s = MembershipService::new(4);
    assert_eq!(s.join_wait_list(Caller::Privileged), Err(Error::BadOrigin));
    assert_eq!(s.wait_len(), 0);
    assert_eq!(s.events().len(), 0);
}

#[test]
fn promotion_preserves_wait_list_order() {
    let mut s = MembershipService::new(4);
    for k in 1..=3u64 {
        assert_eq!(s.join_wait_list(Caller::Signed(Identity(k))), Ok(()));
    }
    assert_eq!(s.promote(Caller::Privileged, Identity(2), 5), Ok(()));
    assert_eq!(s.wait_len(), 2);
    assert_eq!(s.wait_at(0), Identity(1));
    assert_eq!(s.wait_at(1), Identity(3));
}

#[test]
fn reserve_list_stays_empty() {
    let mut s = MembershipService::new(3);
    assert_eq!(s.join_wait_list(Caller::Signed(Identity(1))), Ok(()));
    assert_eq!(s.promote(Caller::Privileged, Identity(1), 1), Ok(()));
    assert_eq!(s.remove(Caller::Privileged, Identity(1)), Ok(()));
    assert_eq!(s.reserve_len(), 0);
    assert_eq!(s.capacity(), 3);
}

#[test]
fn record_equality_ignores_registration_time() {
    let one = MemberRecord { identity: Identity(5), registered_at: 1 };
    let other = MemberRecord { identity: Identity(5), registered_at: 99 };
    let third = MemberRecord { identity: Identity(6), registered_at: 1 };
    assert_eq!(one, other);
    assert_ne!(one, third);
}

#[test]
fn removed_member_may_join_again() {
    let mut s = MembershipService::new(2);
    let a = Identity(8);
    assert_eq!(s.join_wait_list(Caller::Signed(a)), Ok(()));
    assert_eq!(s.promote(Caller::Privileged, a, 1), Ok(()));
    assert_eq!(s.remove(Caller::Privileged, a), Ok(()));
    assert_eq!(s.join_wait_list(Caller::Signed(a)), Ok(()));
    assert!(s.is_wait_listed(a));
    assert!(!s.is_member(a));
}
