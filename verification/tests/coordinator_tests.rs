use yanor_core::activity::{Activity, ActivityPhase};
use yanor_core::coordinator::{AssignError, TickCoordinator};
use yanor_core::input::InputController;
use yanor_core::tick::{StatusTag, TickState};

struct TwoPhase;

impl Activity for TwoPhase {
    fn name(&self) -> String {
        "two-phase".to_string()
    }

    fn phase_queue(&self) -> Vec<ActivityPhase> {
        vec![
            ActivityPhase { name: "a".to_string(), duration: 2 },
            ActivityPhase { name: "b".to_string(), duration: 1 },
        ]
    }
}

struct NoPhases;

impl Activity for NoPhases {
    fn name(&self) -> String {
        "lazy".to_string()
    }

    fn phase_queue(&self) -> Vec<ActivityPhase> {
        vec![]
    }
}

enum AnyActivity {
    TwoPhase,
    NoPhases,
}

impl Activity for AnyActivity {
    fn name(&self) -> String {
        match self {
            AnyActivity::TwoPhase => "two-phase".to_string(),
            AnyActivity::NoPhases => "lazy".to_string(),
        }
    }

    fn phase_queue(&self) -> Vec<ActivityPhase> {
        match self {
            AnyActivity::TwoPhase => vec![
                ActivityPhase { name: "a".to_string(), duration: 2 },
                ActivityPhase { name: "b".to_string(), duration: 1 },
            ],
            AnyActivity::NoPhases => vec![],
        }
    }
}

fn member(queue_position: usize) -> Option<InputController> {
    Some(InputController { queue_position })
}

#[test]
fn set_tag_holds_exactly_one_tag() {
    let mut c: TickCoordinator<TwoPhase> = TickCoordinator::new();
    let id = c.add_actor(None, None);
    assert!(c.actors[id].status.is_none());

    c.set_tag(id, StatusTag::Idle);
    assert_eq!(c.actors[id].status, Some(StatusTag::Idle));

    c.set_tag(id, StatusTag::NeedsTick);
    assert_eq!(c.actors[id].status, Some(StatusTag::NeedsTick));

    c.set_tag(id, StatusTag::TickDone);
    assert_eq!(c.actors[id].status, Some(StatusTag::TickDone));
}

#[test]
fn start_ticking_enters_pre_tick_once() {
    let mut c: TickCoordinator<TwoPhase> = TickCoordinator::new();
    assert_eq!(c.tick_state, TickState::NotYetTicking);
    c.start_ticking();
    assert_eq!(c.tick_state, TickState::PreTick);
    // calling it again is a no-op
    c.start_ticking();
    assert_eq!(c.tick_state, TickState::PreTick);
}

#[test]
fn pre_tick_waits_for_idle_actors() {
    let mut c: TickCoordinator<TwoPhase> = TickCoordinator::new();
    let a = c.add_actor(Some(StatusTag::Idle), None);
    c.start_ticking();

    c.pre_tick_pass();
    assert_eq!(c.tick_state, TickState::PreTick);

    c.assign(a, TwoPhase).unwrap();
    c.pre_tick_pass();
    assert_eq!(c.tick_state, TickState::Tick);
}

#[test]
fn tick_waits_for_pending_actors() {
    let mut c: TickCoordinator<TwoPhase> = TickCoordinator::new();
    let a = c.add_actor(Some(StatusTag::Idle), None);
    c.start_ticking();
    c.assign(a, TwoPhase).unwrap();
    c.pre_tick_pass();
    assert_eq!(c.tick_state, TickState::Tick);

    c.tick_pass();
    assert_eq!(c.tick_state, TickState::Tick);

    c.set_tag(a, StatusTag::TickDone);
    c.tick_pass();
    assert_eq!(c.tick_state, TickState::PostTick);
}

#[test]
fn post_tick_advances_and_returns_to_pre_tick() {
    let mut c: TickCoordinator<TwoPhase> = TickCoordinator::new();
    let a = c.add_actor(Some(StatusTag::Idle), None);
    c.start_ticking();
    c.assign(a, TwoPhase).unwrap();
    assert_eq!(c.actors[a].phase_queue.as_ref().unwrap().ticks_to_next_phase, 2);

    c.pre_tick_pass();
    c.set_tag(a, StatusTag::TickDone);
    c.tick_pass();
    assert_eq!(c.tick_state, TickState::PostTick);

    c.post_tick_pass();
    assert_eq!(c.tick_state, TickState::PreTick);
    assert_eq!(c.actors[a].status, Some(StatusTag::NeedsTick));
    assert_eq!(c.actors[a].phase_queue.as_ref().unwrap().ticks_to_next_phase, 1);
}

#[test]
fn post_tick_stalls_on_tick_done_actor_without_queue() {
    let mut c: TickCoordinator<TwoPhase> = TickCoordinator::new();
    let a = c.add_actor(Some(StatusTag::TickDone), None);
    // drive into PostTick legitimately: no Idle, no NeedsTick actors
    c.start_ticking();
    c.pre_tick_pass();
    assert_eq!(c.tick_state, TickState::Tick);
    c.tick_pass();
    assert_eq!(c.tick_state, TickState::PostTick);
    // the TickDone actor has no phase queue: the pass cannot clear it
    c.post_tick_pass();
    assert_eq!(c.tick_state, TickState::PostTick);
    assert_eq!(c.actors[a].status, Some(StatusTag::TickDone));
}

#[test]
fn full_activity_lifecycle_over_three_ticks() {
    let mut c: TickCoordinator<TwoPhase> = TickCoordinator::new();
    let a = c.add_actor(Some(StatusTag::Idle), None);
    c.start_ticking();
    c.assign(a, TwoPhase).unwrap();

    // the attached queue is exactly the activity's phase list, countdown at
    // the front phase's full duration
    let q = c.actors[a].phase_queue.as_ref().unwrap();
    assert_eq!(q.ticks_to_next_phase, 2);
    assert_eq!(q.phases.len(), 2);
    assert_eq!(q.phases[0].name, "a");
    assert_eq!(q.phases[0].duration, 2);
    assert_eq!(q.phases[1].name, "b");
    assert_eq!(q.phases[1].duration, 1);

    // three tick cycles: countdown 2 -> 1 -> pop to b (1) -> done
    for expected in [Some(1usize), Some(1usize), None] {
        c.pre_tick_pass();
        assert_eq!(c.tick_state, TickState::Tick);
        c.set_tag(a, StatusTag::TickDone);
        c.tick_pass();
        assert_eq!(c.tick_state, TickState::PostTick);
        c.post_tick_pass();
        assert_eq!(c.tick_state, TickState::PreTick);
        match expected {
            Some(ticks) => {
                assert_eq!(c.actors[a].status, Some(StatusTag::NeedsTick));
                assert_eq!(c.actors[a].phase_queue.as_ref().unwrap().ticks_to_next_phase, ticks);
            }
            None => {
                // queue emptied: actor idles and the activity is detached
                assert_eq!(c.actors[a].status, Some(StatusTag::Idle));
                assert!(c.actors[a].activity.is_none());
                assert!(c.actors[a].phase_queue.is_none());
            }
        }
    }
}

#[test]
fn empty_activity_idles_on_first_post_tick_visit() {
    let mut c: TickCoordinator<AnyActivity> = TickCoordinator::new();
    let a = c.add_actor(Some(StatusTag::Idle), None);
    c.start_ticking();
    c.assign(a, AnyActivity::NoPhases).unwrap();
    // countdown is 0 at assignment
    assert_eq!(c.actors[a].phase_queue.as_ref().unwrap().ticks_to_next_phase, 0);

    c.pre_tick_pass();
    c.set_tag(a, StatusTag::TickDone);
    c.tick_pass();
    c.post_tick_pass();

    // straight to Idle with the activity detached
    assert_eq!(c.actors[a].status, Some(StatusTag::Idle));
    assert!(c.actors[a].activity.is_none());
    assert!(c.actors[a].phase_queue.is_none());
}

#[test]
fn assign_rejects_an_actor_already_busy() {
    let mut c: TickCoordinator<TwoPhase> = TickCoordinator::new();
    let a = c.add_actor(Some(StatusTag::Idle), None);
    assert!(c.assign(a, TwoPhase).is_ok());
    assert_eq!(c.assign(a, TwoPhase), Err(AssignError::ActivityInProgress));
    // the refused assignment changed nothing
    assert_eq!(c.actors[a].status, Some(StatusTag::NeedsTick));
    assert_eq!(c.actors[a].phase_queue.as_ref().unwrap().ticks_to_next_phase, 2);
}

#[test]
fn round_robin_orders_by_priority_key() {
    // priority keys [5, 1, 3]: rebuilt order is [1, 3, 5]; key 1 goes active
    let mut c: TickCoordinator<TwoPhase> = TickCoordinator::new();
    let a5 = c.add_actor(Some(StatusTag::Idle), member(5));
    let a1 = c.add_actor(Some(StatusTag::Idle), member(1));
    let a3 = c.add_actor(Some(StatusTag::Idle), member(3));

    let residual = c.queue_input_controllers();
    assert!(!residual);
    assert_eq!(c.input_queue.active, Some(a1));
    assert_eq!(c.input_queue.entries, vec![a3, a5]);
}

#[test]
fn round_robin_breaks_key_ties_by_creation_order() {
    let mut c: TickCoordinator<TwoPhase> = TickCoordinator::new();
    let first = c.add_actor(Some(StatusTag::Idle), member(2));
    let second = c.add_actor(Some(StatusTag::Idle), member(2));
    let zero = c.add_actor(Some(StatusTag::Idle), member(0));

    c.queue_input_controllers();
    assert_eq!(c.input_queue.active, Some(zero));
    assert_eq!(c.input_queue.entries, vec![first, second]);
}

#[test]
fn rebuild_replaces_residual_queue_contents() {
    let mut c: TickCoordinator<TwoPhase> = TickCoordinator::new();
    let a5 = c.add_actor(Some(StatusTag::Idle), member(5));
    let a1 = c.add_actor(Some(StatusTag::Idle), member(1));
    let a3 = c.add_actor(Some(StatusTag::Idle), member(3));

    let residual = c.queue_input_controllers();
    assert!(!residual);
    assert_eq!(c.input_queue.entries, vec![a3, a5]);

    // a second rebuild finds the leftover queue, reports it, and rebuilds from
    // the scan alone: the fresh contents, not a union with the old ones
    let residual = c.queue_input_controllers();
    assert!(residual);
    assert_eq!(c.input_queue.active, Some(a1));
    assert_eq!(c.input_queue.entries, vec![a3, a5]);
}

#[test]
fn rebuild_skips_non_idle_and_non_member_actors() {
    let mut c: TickCoordinator<TwoPhase> = TickCoordinator::new();
    let _plain = c.add_actor(Some(StatusTag::Idle), None);
    let busy = c.add_actor(Some(StatusTag::NeedsTick), member(0));
    let idle = c.add_actor(Some(StatusTag::Idle), member(9));
    assert!(busy != idle);

    c.queue_input_controllers();
    assert_eq!(c.input_queue.active, Some(idle));
    assert!(c.input_queue.entries.is_empty());
}

#[test]
fn promotion_on_release_without_new_episode() {
    // queue [7, 9] with actor 7 active: once 7's Idle tag clears, 9 goes
    // active with no new PreTick episode in between
    let mut c: TickCoordinator<TwoPhase> = TickCoordinator::new();
    let seven = c.add_actor(Some(StatusTag::Idle), member(7));
    let nine = c.add_actor(Some(StatusTag::Idle), member(9));

    c.queue_input_controllers();
    assert_eq!(c.input_queue.active, Some(seven));
    assert_eq!(c.input_queue.entries, vec![nine]);

    c.assign(seven, TwoPhase).unwrap();
    assert_eq!(c.input_queue.active, Some(nine));
    assert!(c.input_queue.entries.is_empty());
}

#[test]
fn promotion_leaves_slot_empty_when_nobody_waits() {
    let mut c: TickCoordinator<TwoPhase> = TickCoordinator::new();
    let only = c.add_actor(Some(StatusTag::Idle), member(0));
    c.queue_input_controllers();
    assert_eq!(c.input_queue.active, Some(only));

    c.assign(only, TwoPhase).unwrap();
    assert_eq!(c.input_queue.active, None);
}

#[test]
fn queued_actor_leaving_idle_is_evicted() {
    let mut c: TickCoordinator<TwoPhase> = TickCoordinator::new();
    let front = c.add_actor(Some(StatusTag::Idle), member(0));
    let waiting = c.add_actor(Some(StatusTag::Idle), member(1));
    let last = c.add_actor(Some(StatusTag::Idle), member(2));

    c.queue_input_controllers();
    assert_eq!(c.input_queue.active, Some(front));
    assert_eq!(c.input_queue.entries, vec![waiting, last]);

    // a waiting (not active) actor is assigned an activity: it leaves the
    // queue; the active slot does not move
    c.assign(waiting, TwoPhase).unwrap();
    assert_eq!(c.input_queue.active, Some(front));
    assert_eq!(c.input_queue.entries, vec![last]);
}

#[test]
fn assignment_revokes_active_slot_and_promotes() {
    let mut c: TickCoordinator<TwoPhase> = TickCoordinator::new();
    let a = c.add_actor(Some(StatusTag::Idle), member(0));
    let b = c.add_actor(Some(StatusTag::Idle), member(1));
    c.start_ticking();
    assert_eq!(c.input_queue.active, Some(a));

    c.assign(a, TwoPhase).unwrap();
    assert_eq!(c.actors[a].status, Some(StatusTag::NeedsTick));
    assert!(c.actors[a].activity.is_some());
    assert_eq!(c.input_queue.active, Some(b));
}

#[test]
fn setting_idle_again_keeps_the_active_slot() {
    let mut c: TickCoordinator<TwoPhase> = TickCoordinator::new();
    let a = c.add_actor(Some(StatusTag::Idle), member(0));
    let b = c.add_actor(Some(StatusTag::Idle), member(1));
    c.queue_input_controllers();
    assert_eq!(c.input_queue.active, Some(a));
    assert_eq!(c.input_queue.entries, vec![b]);

    // re-tagging the active actor Idle releases nothing
    c.set_tag(a, StatusTag::Idle);
    assert_eq!(c.input_queue.active, Some(a));
    assert_eq!(c.input_queue.entries, vec![b]);
}

#[test]
fn rebuild_with_nobody_eligible_leaves_the_slot_empty() {
    let mut c: TickCoordinator<TwoPhase> = TickCoordinator::new();
    c.add_actor(Some(StatusTag::NeedsTick), member(0));
    c.add_actor(Some(StatusTag::Idle), None);

    let residual = c.queue_input_controllers();
    assert!(!residual);
    assert_eq!(c.input_queue.active, None);
    assert!(c.input_queue.entries.is_empty());
}

#[test]
fn post_tick_transition_opens_a_fresh_round_robin_episode() {
    let mut c: TickCoordinator<TwoPhase> = TickCoordinator::new();
    let player = c.add_actor(Some(StatusTag::Idle), member(0));
    c.start_ticking();
    assert_eq!(c.input_queue.active, Some(player));

    c.assign(player, TwoPhase).unwrap();
    assert_eq!(c.input_queue.active, None);
    c.pre_tick_pass();
    c.set_tag(player, StatusTag::TickDone);
    c.tick_pass();
    c.post_tick_pass();

    // back in PreTick; the actor is mid-activity (NeedsTick), so the rebuilt
    // queue holds nobody and the slot stays empty
    assert_eq!(c.tick_state, TickState::PreTick);
    assert_eq!(c.input_queue.active, None);
    assert!(c.input_queue.entries.is_empty());
}
