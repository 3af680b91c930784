use yanor_core::activity::{ActivityPhase, ActivityPhaseQueue};
use yanor_core::tick::StatusTag;

fn phase(name: &str, duration: usize) -> ActivityPhase {
    ActivityPhase { name: name.to_string(), duration }
}

#[test]
fn new_initializes_countdown_to_first_duration() {
    let q = ActivityPhaseQueue::new(vec![phase("a", 2), phase("b", 1)]);
    assert_eq!(q.ticks_to_next_phase, 2);
    assert_eq!(q.phases.len(), 2);
}

#[test]
fn new_on_empty_phase_list_has_countdown_zero() {
    let q = ActivityPhaseQueue::new(vec![]);
    assert_eq!(q.ticks_to_next_phase, 0);
    assert!(q.phases.is_empty());
}

#[test]
fn peek_returns_front_phase() {
    let q = ActivityPhaseQueue::new(vec![phase("a", 2), phase("b", 1)]);
    let front = q.peek().expect("front phase");
    assert_eq!(front.name, "a");
    assert_eq!(front.duration, 2);

    let empty = ActivityPhaseQueue::new(vec![]);
    assert!(empty.peek().is_none());
}

#[test]
fn pop_returns_new_front_not_the_popped_phase() {
    let mut q = ActivityPhaseQueue::new(vec![phase("a", 2), phase("b", 1)]);
    let next = q.pop().expect("next phase");
    assert_eq!(next.name, "b");
    assert_eq!(next.duration, 1);
    assert!(q.pop().is_none());
    assert!(q.pop().is_none());
}

#[test]
fn advance_runs_the_documented_phase_schedule() {
    // phase list [(a,2), (b,1)]: countdown starts at 2
    let mut q = ActivityPhaseQueue::new(vec![phase("a", 2), phase("b", 1)]);
    assert_eq!(q.ticks_to_next_phase, 2);

    // pass 1: countdown 2 > 1, decrement, still ticking
    assert_eq!(q.advance(), StatusTag::NeedsTick);
    assert_eq!(q.ticks_to_next_phase, 1);
    assert_eq!(q.phases.len(), 2);

    // pass 2: countdown 1, pop to b, countdown = b's duration
    assert_eq!(q.advance(), StatusTag::NeedsTick);
    assert_eq!(q.ticks_to_next_phase, 1);
    assert_eq!(q.phases.len(), 1);
    assert_eq!(q.peek().unwrap().name, "b");

    // pass 3: countdown 1, pop, queue empty, back to idle
    assert_eq!(q.advance(), StatusTag::Idle);
    assert_eq!(q.ticks_to_next_phase, 0);
    assert!(q.phases.is_empty());
}

#[test]
fn advance_on_empty_queue_goes_straight_to_idle() {
    let mut q = ActivityPhaseQueue::new(vec![]);
    assert_eq!(q.ticks_to_next_phase, 0);
    assert_eq!(q.advance(), StatusTag::Idle);
    assert_eq!(q.ticks_to_next_phase, 0);
    assert!(q.phases.is_empty());
}
