use dolfhinclub::counter::{CounterError, CounterEvent, CounterService};
use dolfhinclub::types::{Caller, Identity};

#[test]
fn set_once_stores_only_while_zero() {
    let mut c = CounterService::new();
    assert_eq!(c.read(), 0);
    let who = Identity(1);
    assert_eq!(c.set_once(Caller::Signed(who), 10), Ok(()));
    assert_eq!(c.read(), 10);
    // a later call still reports success but changes nothing
    assert_eq!(c.set_once(Caller::Signed(who), 99), Ok(()));
    assert_eq!(c.read(), 10);
    assert_eq!(c.events().clone(), vec![CounterEvent::NumberStored(10, who)]);
}

#[test]
fn add_and_sub_move_the_value_and_log_events() {
    let mut c = CounterService::new();
    let who = Identity(2);
    assert_eq!(c.add(Caller::Signed(who), 7), Ok(()));
    assert_eq!(c.read(), 7);
    assert_eq!(c.sub(Caller::Signed(who), 3), Ok(()));
    assert_eq!(c.read(), 4);
    assert_eq!(
        c.events().clone(),
        vec![
            CounterEvent::IncrementedNumber(7, who),
            CounterEvent::DecrementedNumber(4, who),
        ]
    );
}

#[test]
fn add_beyond_max_yields_storage_overflow() {
    let mut c = CounterService::new();
    let who = Identity(3);
    assert_eq!(c.add(Caller::Signed(who), u32::MAX), Ok(()));
    assert_eq!(c.add(Caller::Signed(who), 1), Err(CounterError::StorageOverflow));
    assert_eq!(c.read(), u32::MAX);
    assert_eq!(c.events().len(), 1);
}

#[test]
fn sub_below_zero_yields_storage_underflow() {
    let mut c = CounterService::new();
    let who = Identity(4);
    assert_eq!(c.sub(Caller::Signed(who), 1), Err(CounterError::StorageUnderflow));
    assert_eq!(c.read(), 0);
    assert_eq!(c.add(Caller::Signed(who), 5), Ok(()));
    assert_eq!(c.sub(Caller::Signed(who), 6), Err(CounterError::StorageUnderflow));
    assert_eq!(c.read(), 5);
}

#[test]
fn privileged_caller_is_refused_everywhere() {
    let mut c = CounterService::new();
    assert_eq!(c.set_once(Caller::Privileged, 10), Err(CounterError::BadOrigin));
    assert_eq!(c.add(Caller::Privileged, 1), Err(CounterError::BadOrigin));
    assert_eq!(c.sub(Caller::Privileged, 1), Err(CounterError::BadOrigin));
    assert_eq!(c.read(), 0);
    assert_eq!(c.events().len(), 0);
}
