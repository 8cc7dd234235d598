use dolfhinclub::bounded_list::BoundedList;
use dolfhinclub::types::{Identity, MemberRecord};

#[test]
fn push_up_to_capacity_then_refused() {
    let mut list: BoundedList<Identity> = BoundedList::new(2);
    assert_eq!(list.capacity(), 2);
    assert!(list.push(Identity(1)).is_ok());
    assert!(list.push(Identity(2)).is_ok());
    assert!(list.push(Identity(3)).is_err());
    assert_eq!(list.len(), 2);
    assert_eq!(*list.get(0), Identity(1));
    assert_eq!(*list.get(1), Identity(2));
}

#[test]
fn remove_at_shifts_later_elements_left() {
    let mut list: BoundedList<Identity> = BoundedList::new(3);
    assert!(list.push(Identity(1)).is_ok());
    assert!(list.push(Identity(2)).is_ok());
    assert!(list.push(Identity(3)).is_ok());
    let removed = list.remove_at(1);
    assert_eq!(removed, Identity(2));
    assert_eq!(list.len(), 2);
    assert_eq!(*list.get(0), Identity(1));
    assert_eq!(*list.get(1), Identity(3));
}

#[test]
fn position_returns_first_match() {
    let mut list: BoundedList<MemberRecord> = BoundedList::new(3);
    assert!(list.push(MemberRecord { identity: Identity(7), registered_at: 1 }).is_ok());
    assert!(list.push(MemberRecord { identity: Identity(8), registered_at: 2 }).is_ok());
    assert!(list.push(MemberRecord { identity: Identity(7), registered_at: 3 }).is_ok());
    assert_eq!(list.position(Identity(7)), Some(0));
    assert_eq!(list.position(Identity(8)), Some(1));
    assert_eq!(list.position(Identity(9)), None);
}

#[test]
fn contains_matches_by_identity() {
    let mut list: BoundedList<MemberRecord> = BoundedList::new(2);
    assert!(!list.contains(Identity(4)));
    assert!(list.push(MemberRecord { identity: Identity(4), registered_at: 0 }).is_ok());
    assert!(list.contains(Identity(4)));
    assert!(!list.contains(Identity(5)));
}

#[test]
fn zero_capacity_list_accepts_nothing() {
    let mut list: BoundedList<Identity> = BoundedList::new(0);
    assert!(list.push(Identity(1)).is_err());
    assert_eq!(list.len(), 0);
}
