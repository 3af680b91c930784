use vstd::prelude::*;

use crate::tick::StatusTag;

verus! {

/// One timed segment of an activity's timeline: a name and a duration in
/// ticks. A well-formed phase lasts at least one tick.
pub struct ActivityPhase {
    pub name: String,
    pub duration: usize,
}

impl ActivityPhase {
    /// A phase is well formed when its duration is positive.
    pub open spec fn wf(self) -> bool {
        self.duration >= 1
    }

    /// The mathematical content of a phase: the characters of its name and
    /// its duration in ticks.
    pub open spec fn model(self) -> (Seq<char>, nat) {
        (self.name@, self.duration as nat)
    }
}

/// The content of a whole phase list, in order.
pub open spec fn phase_models(phases: Seq<ActivityPhase>) -> Seq<(Seq<char>, nat)> {
    phases.map_values(|p: ActivityPhase| p.model())
}

/// The ordered sequence of phases owned by one actor, together with the
/// countdown for the current front phase.
pub struct ActivityPhaseQueue {
    pub phases: Vec<ActivityPhase>,
    pub ticks_to_next_phase: usize,
}

/// How one PostTick visit rewrites a phase queue, and which status tag the
/// visited actor takes afterwards:
/// - more than one tick left on the front phase: decrement, keep ticking;
/// - the front phase ends and another follows: pop it, restart the countdown
///   at the new front's full duration, keep ticking;
/// - nothing follows: the queue empties, the countdown drops to 0, and the
///   actor goes back to `Idle` (the caller detaches the activity).
pub open spec fn advance_rel(
    pre: ActivityPhaseQueue,
    post: ActivityPhaseQueue,
    tag: StatusTag,
) -> bool {
    if pre.ticks_to_next_phase > 1 {
        &&& post.phases@ == pre.phases@
        &&& post.ticks_to_next_phase == pre.ticks_to_next_phase - 1
        &&& tag == StatusTag::NeedsTick
    } else if pre.phases@.len() > 1 {
        &&& post.phases@ == pre.phases@.drop_first()
        &&& post.ticks_to_next_phase == pre.phases@[1].duration
        &&& tag == StatusTag::NeedsTick
    } else {
        &&& post.phases@.len() == 0
        &&& post.ticks_to_next_phase == 0
        &&& tag == StatusTag::Idle
    }
}

impl ActivityPhaseQueue {
    /// Well-formedness: every phase lasts at least one tick; the countdown is
    /// 0 exactly when no phase remains, and otherwise counts down the front
    /// phase, so it lies between 1 and that phase's full duration.
    pub open spec fn wf(self) -> bool {
        &&& forall|i: int| 0 <= i < self.phases@.len() ==> (#[trigger] self.phases@[i]).wf()
        &&& if self.phases@.len() == 0 {
            self.ticks_to_next_phase == 0
        } else {
            1 <= self.ticks_to_next_phase <= self.phases@[0].duration
        }
    }

    /// Builds a queue over the given phases, with the countdown initialized to
    /// the first phase's full duration, or 0 when there are no phases.
    pub fn new(phases: Vec<ActivityPhase>) -> (q: Self)
        requires
            forall|i: int| 0 <= i < phases@.len() ==> (#[trigger] phases@[i]).wf(),
        ensures
            q.wf(),
            q.phases@ == phases@,
            phases@.len() == 0 ==> q.ticks_to_next_phase == 0,
            phases@.len() > 0 ==> q.ticks_to_next_phase == phases@[0].duration,
    {
        let ticks_to_next_phase = if phases.len() == 0 {
            0
        } else {
            phases[0].duration
        };
        Self { phases, ticks_to_next_phase }
    }

    /// The current front phase, if any.
    pub fn peek(&self) -> (r: Option<&ActivityPhase>)
        ensures
            match r {
                Some(p) => self.phases@.len() > 0 && *p == self.phases@[0],
                None => self.phases@.len() == 0,
            },
    {
        if self.phases.len() == 0 {
            None
        } else {
            Some(&self.phases[0])
        }
    }

    /// Pops the front phase and returns the *new* front of the queue (the
    /// next phase), rather than what was popped. Popping an empty queue is a
    /// no-op. The countdown is left untouched: callers reset it themselves.
    pub fn pop(&mut self) -> (r: Option<&ActivityPhase>)
        ensures
            final(self).ticks_to_next_phase == old(self).ticks_to_next_phase,
            old(self).phases@.len() == 0 ==> final(self).phases@ == old(self).phases@,
            old(self).phases@.len() > 0 ==> final(self).phases@ == old(self).phases@.drop_first(),
            match r {
                Some(p) => final(self).phases@.len() > 0 && *p == final(self).phases@[0],
                None => final(self).phases@.len() == 0,
            },
    {
        if self.phases.len() > 0 {
            let popped = self.phases.remove(0);
            proof {
                assert(self.phases@ =~= old(self).phases@.drop_first());
            }
        }
        if self.phases.len() == 0 {
            None
        } else {
            Some(&self.phases[0])
        }
    }

    /// One PostTick visit: runs the phase-advance algorithm on this queue and
    /// returns the status tag the visited actor takes afterwards. A returned
    /// `Idle` means the queue has emptied and the activity is to be detached.
    pub fn advance(&mut self) -> (tag: StatusTag)
        requires
            old(self).wf(),
        ensures
            final(self).wf(),
            advance_rel(*old(self), *final(self), tag),
    {
        if self.ticks_to_next_phase > 1 {
            self.ticks_to_next_phase = self.ticks_to_next_phase - 1;
            StatusTag::NeedsTick
        } else {
            if self.phases.len() > 0 {
                let popped = self.phases.remove(0);
                proof {
                    assert(self.phases@ =~= old(self).phases@.drop_first());
                }
            }
            if self.phases.len() > 0 {
                self.ticks_to_next_phase = self.phases[0].duration;
                StatusTag::NeedsTick
            } else {
                self.ticks_to_next_phase = 0;
                StatusTag::Idle
            }
        }
    }
}

/// An activity producing zero phases starts with countdown 0 and, on its very
/// next PostTick visit, sends its actor straight to `Idle` (with the activity
/// detached): the advance never hands such an actor `NeedsTick`.
pub proof fn lemma_empty_activity_idles(
    pre: ActivityPhaseQueue,
    post: ActivityPhaseQueue,
    tag: StatusTag,
)
    requires
        pre.wf(),
        pre.phases@.len() == 0,
        advance_rel(pre, post, tag),
    ensures
        pre.ticks_to_next_phase == 0,
        tag == StatusTag::Idle,
        tag != StatusTag::NeedsTick,
        post.phases@.len() == 0,
        post.ticks_to_next_phase == 0,
{
}

/// A pluggable behavior assigned to an actor. An implementation must derive
/// its phase list deterministically from its own immutable state alone, and
/// every phase it produces lasts at least one tick.
pub trait Activity {
    /// The phase list this behavior derives — names and durations — as a
    /// function of the behavior value alone. `phase_queue` returns exactly
    /// this list, so an implementation whose list is non-empty overrides this
    /// default.
    open spec fn phases_spec(&self) -> Seq<(Seq<char>, nat)> {
        Seq::empty()
    }

    /// A human-readable name for the behavior.
    fn name(&self) -> String;

    /// The ordered phase list this behavior runs through.
    fn phase_queue(&self) -> (phases: Vec<ActivityPhase>)
        ensures
            phase_models(phases@) == self.phases_spec(),
            forall|i: int| 0 <= i < phases@.len() ==> (#[trigger] phases@[i]).wf(),
    ;
}

/// The behavior currently assigned to an actor; owned by that actor while
/// assigned and destroyed on detach.
pub struct CurrentActivity<A: Activity>(pub A);

} // verus!
