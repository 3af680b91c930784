use vstd::prelude::*;

verus! {

/// Global tick state: the coordinator starts in `NotYetTicking`, moves to
/// `PreTick` exactly once, and then cycles `PreTick -> Tick -> PostTick ->
/// PreTick` forever.
#[derive(Clone, Copy, Debug, PartialEq, Eq, Structural)]
pub enum TickState {
    NotYetTicking,
    PreTick,
    Tick,
    PostTick,
}

/// Per-actor exclusive status marker. An actor holds at most one of these at
/// any time; exclusivity is structural because the actor stores a single
/// `Option<StatusTag>` field.
#[derive(Clone, Copy, Debug, PartialEq, Eq, Structural)]
pub enum StatusTag {
    Idle,
    NeedsTick,
    TickDone,
}

} // verus!
