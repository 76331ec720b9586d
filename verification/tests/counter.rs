//! Tests for the counter service and program.

use my_dapp::counter::{ActorId, CounterEvent, CounterProgram, CounterService};

const ACTOR_ID: u64 = 42;

fn setup() -> CounterProgram {
    CounterProgram::new(ActorId { id: ACTOR_ID })
}

#[test]
fn test_initial_value_is_zero() {
    let program = setup();

    assert_eq!(program.counter().value(), 0);
}

#[test]
fn test_increment() {
    let mut program = setup();

    let new_value = program.counter_mut().increment();

    assert_eq!(new_value, 1);
    assert_eq!(program.counter().value(), 1);
}

#[test]
fn test_decrement() {
    let mut program = setup();

    program.counter_mut().increment();
    let new_value = program.counter_mut().decrement();

    assert_eq!(new_value, 0);
}

#[test]
fn test_add_amount() {
    let mut program = setup();

    let new_value = program.counter_mut().add(10);

    assert_eq!(new_value, 10);
}

#[test]
fn test_reset_by_owner() {
    let mut program = setup();

    program.counter_mut().add(100);
    let result = program.counter_mut().reset(ActorId { id: ACTOR_ID });

    assert_eq!(result, Ok(0));
}

#[test]
fn test_reset_by_non_owner_fails() {
    let mut program = setup();

    const OTHER_ACTOR: u64 = 99;

    program.counter_mut().add(100);
    let result = program.counter_mut().reset(ActorId { id: OTHER_ACTOR });

    assert!(result.is_err());
    assert_eq!(program.counter().value(), 100);
}

#[test]
fn reset_error_names_the_owner_rule() {
    let mut program = setup();

    let result = program.counter_mut().reset(ActorId { id: 7 });

    assert_eq!(result, Err("Only owner can reset the counter"));
}

#[test]
fn owner_is_the_creator() {
    let program = setup();

    assert_eq!(program.counter().owner(), ActorId { id: ACTOR_ID });
}

#[test]
fn sub_amount_subtracts() {
    let mut service = CounterService::new();

    service.add(10);
    let new_value = service.sub(3);

    assert_eq!(new_value, 7);
}

#[test]
fn add_saturates_at_the_top() {
    let mut service = CounterService::new();

    service.add(i64::MAX);
    let new_value = service.add(1);

    assert_eq!(new_value, i64::MAX);
}

#[test]
fn sub_saturates_at_the_bottom() {
    let mut service = CounterService::new();

    service.sub(i64::MAX);
    let new_value = service.sub(i64::MAX);

    assert_eq!(new_value, i64::MIN);
}

#[test]
fn sub_of_minimum_amount_saturates_upward() {
    let mut service = CounterService::new();

    let new_value = service.sub(i64::MIN);

    assert_eq!(new_value, i64::MAX);
}

#[test]
fn operations_log_value_changed_events() {
    let mut service = CounterService::new();

    service.add(5);
    service.sub(2);

    let events = service.events();
    assert_eq!(events.len(), 2);
    assert_eq!(
        events[0],
        CounterEvent::ValueChanged { old_value: 0, new_value: 5 }
    );
    assert_eq!(
        events[1],
        CounterEvent::ValueChanged { old_value: 5, new_value: 3 }
    );
}

#[test]
fn reset_logs_reset_then_value_changed() {
    let mut service = CounterService::new();
    service.init(ActorId { id: ACTOR_ID });

    service.add(9);
    let result = service.reset(ActorId { id: ACTOR_ID });

    assert_eq!(result, Ok(0));
    let events = service.events();
    assert_eq!(events.len(), 3);
    assert_eq!(events[1], CounterEvent::Reset { by: ActorId { id: ACTOR_ID } });
    assert_eq!(
        events[2],
        CounterEvent::ValueChanged { old_value: 9, new_value: 0 }
    );
}

#[test]
fn take_events_drains_the_log() {
    let mut service = CounterService::new();

    service.increment();
    let taken = service.take_events();

    assert_eq!(taken.len(), 1);
    assert_eq!(service.events().len(), 0);
    assert_eq!(service.value(), 1);
}
