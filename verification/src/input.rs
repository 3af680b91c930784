use vstd::prelude::*;

verus! {

/// Marks an actor as a participant in manual input arbitration. A lower
/// `queue_position` puts the actor earlier in the round-robin; ties are broken
/// by creation order.
#[derive(Clone, Copy, Debug, PartialEq, Eq, Structural)]
pub struct InputController {
    pub queue_position: usize,
}

/// The process-wide round-robin state: the FIFO of actors waiting for the
/// input slot, and the single active slot itself. At most one actor holds the
/// slot at a time, structurally, because the slot is one `Option`.
pub struct InputControllerQueue {
    pub entries: Vec<usize>,
    pub active: Option<usize>,
}

impl InputControllerQueue {
    /// An empty round-robin: nobody waiting, nobody active.
    pub fn new() -> (q: Self)
        ensures
            q.entries@.len() == 0,
            q.active is None,
    {
        InputControllerQueue { entries: Vec::new(), active: None }
    }
}

} // verus!
