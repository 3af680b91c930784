use vstd::prelude::*;

use crate::activity::{advance_rel, phase_models, Activity, ActivityPhaseQueue, CurrentActivity};
use crate::input::{InputController, InputControllerQueue};
use crate::tick::{StatusTag, TickState};

verus! {

/// One simulation participant. Its identity is its index in the coordinator's
/// actor table; actors are never removed, so identities stay stable.
pub struct Actor<A: Activity> {
    /// The exclusive status marker, or none (pre-spawn / between assignments).
    pub status: Option<StatusTag>,
    /// The behavior currently assigned, if any; owned here, destroyed on detach.
    pub activity: Option<CurrentActivity<A>>,
    /// The phase queue derived from the current activity.
    pub phase_queue: Option<ActivityPhaseQueue>,
    /// Present when the actor participates in manual input arbitration.
    pub input: Option<InputController>,
}

impl<A: Activity> Actor<A> {
    /// Whether the actor currently holds the given status tag.
    pub open spec fn holds(self, tag: StatusTag) -> bool {
        self.status == Some(tag)
    }

    /// The actor can be scheduled for manual input: it is input-eligible and
    /// currently idle.
    pub open spec fn awaiting_input(self) -> bool {
        self.holds(StatusTag::Idle) && self.input is Some
    }

    /// An activity and its derived phase queue come and go together, and the
    /// queue, when present, is well formed.
    pub open spec fn wf(self) -> bool {
        &&& self.activity is Some <==> self.phase_queue is Some
        &&& (self.phase_queue matches Some(q) ==> q.wf())
    }
}

/// Tag exclusivity, structurally: an actor's status is a single
/// `Option<StatusTag>` field, so at every observation point it holds at most
/// one of Idle, NeedsTick and TickDone.
pub proof fn lemma_tag_exclusive<A: Activity>(a: Actor<A>, t1: StatusTag, t2: StatusTag)
    requires
        a.holds(t1),
        a.holds(t2),
    ensures
        t1 == t2,
{
}

/// The whole change `set_tag` makes to the tagged actor: the requested status,
/// everything else untouched.
pub open spec fn same_but_status<A: Activity>(
    pre: Actor<A>,
    post: Actor<A>,
    status: Option<StatusTag>,
) -> bool {
    &&& post.status == status
    &&& post.activity == pre.activity
    &&& post.phase_queue == pre.phase_queue
    &&& post.input == pre.input
}

/// The round-robin priority key of an actor (its input membership's queue
/// position; irrelevant for actors without one).
pub open spec fn priority_key<A: Activity>(a: Actor<A>) -> int {
    match a.input {
        Some(c) => c.queue_position as int,
        None => 0,
    }
}

/// How `set_tag` rewrites the round-robin bookkeeping:
/// - setting Idle never touches the queue (it is rebuilt only per PreTick
///   episode, never appended to across episodes);
/// - clearing the active actor's Idle tag releases the slot and promotes the
///   next queued actor, if any;
/// - clearing the Idle tag of an actor still waiting in the queue evicts it;
/// - anything else leaves the queue alone.
pub open spec fn promotion_rel<A: Activity>(
    pre: TickCoordinator<A>,
    post: TickCoordinator<A>,
    id: usize,
    tag: StatusTag,
) -> bool {
    let q = pre.input_queue;
    let r = post.input_queue;
    if tag == StatusTag::Idle {
        r.active == q.active && r.entries@ == q.entries@
    } else if q.active == Some(id) {
        if q.entries@.len() == 0 {
            r.active is None && r.entries@ == q.entries@
        } else {
            r.active == Some(q.entries@[0]) && r.entries@ == q.entries@.drop_first()
        }
    } else if q.entries@.contains(id) {
        &&& r.active == q.active
        &&& exists|k: int|
            0 <= k < q.entries@.len() && #[trigger] q.entries@[k] == id && r.entries@
                == q.entries@.remove(k)
    } else {
        r.active == q.active && r.entries@ == q.entries@
    }
}

/// `x` comes before `y` in a round-robin episode: strictly smaller priority
/// key, or equal keys and `x` created earlier (the scan runs in creation
/// order and the sort is stable).
pub open spec fn before_in_round<A: Activity>(actors: Seq<Actor<A>>, x: usize, y: usize) -> bool {
    ||| priority_key(actors[x as int]) < priority_key(actors[y as int])
    ||| (priority_key(actors[x as int]) == priority_key(actors[y as int]) && x < y)
}

/// `q` is the freshly rebuilt round-robin list for the given actor table: it
/// holds exactly the idle, input-eligible actors, in round-robin order.
pub open spec fn rebuilt_order_ok<A: Activity>(actors: Seq<Actor<A>>, q: Seq<usize>) -> bool {
    &&& forall|id: usize|
        #[trigger] q.contains(id) <==> id < actors.len() && actors[id as int].awaiting_input()
    &&& forall|k1: int, k2: int| 0 <= k1 < k2 < q.len() ==> before_in_round(actors, q[k1], q[k2])
}

/// The round-robin state right after a PreTick repopulation: the slot granted
/// to the front of the freshly rebuilt list (when anyone was eligible), the
/// rest waiting in order. Only the actor table determines this state: prior
/// queue contents never survive into the new episode.
pub open spec fn rebuild_rel<A: Activity>(actors: Seq<Actor<A>>, q: InputControllerQueue) -> bool {
    match q.active {
        None => q.entries@.len() == 0 && rebuilt_order_ok(actors, q.entries@),
        Some(a) => rebuilt_order_ok(actors, seq![a] + q.entries@),
    }
}

/// Two id lists with the same members, both strictly in round-robin order,
/// are the same list.
proof fn lemma_sorted_ids_unique<A: Activity>(actors: Seq<Actor<A>>, q1: Seq<usize>, q2: Seq<usize>)
    requires
        forall|id: usize| #[trigger] q1.contains(id) <==> q2.contains(id),
        forall|k1: int, k2: int| 0 <= k1 < k2 < q1.len() ==> before_in_round(actors, q1[k1], q1[k2]),
        forall|k1: int, k2: int| 0 <= k1 < k2 < q2.len() ==> before_in_round(actors, q2[k1], q2[k2]),
    ensures
        q1 == q2,
    decreases q1.len(),
{
    if q1.len() == 0 {
        if q2.len() > 0 {
            assert(q2.contains(q2[0]));
            assert(q1.contains(q2[0]));
        }
        assert(q1 =~= q2);
    } else {
        assert(q1.contains(q1[0]));
        assert(q2.contains(q1[0]));
        let p2 = choose|p2: int| 0 <= p2 < q2.len() && #[trigger] q2[p2] == q1[0];
        assert(q2.contains(q2[0]));
        assert(q1.contains(q2[0]));
        let p1 = choose|p1: int| 0 <= p1 < q1.len() && #[trigger] q1[p1] == q2[0];
        // the two heads must agree: otherwise each would come strictly before
        // the other
        if p2 > 0 && p1 > 0 {
            assert(before_in_round(actors, q2[0], q2[p2]));
            assert(before_in_round(actors, q1[0], q1[p1]));
        }
        assert(q1[0] == q2[0]);
        // the tails hold the same members: strict order makes entries distinct
        let t1 = q1.drop_first();
        let t2 = q2.drop_first();
        assert forall|id: usize| #[trigger] t1.contains(id) <==> t2.contains(id) by {
            if t1.contains(id) {
                let k = choose|k: int| 0 <= k < t1.len() && #[trigger] t1[k] == id;
                assert(q1[k + 1] == id);
                assert(before_in_round(actors, q1[0], q1[k + 1]));
                assert(q1.contains(id) && id != q1[0]);
                assert(q2.contains(id));
                let k2 = choose|k2: int| 0 <= k2 < q2.len() && #[trigger] q2[k2] == id;
                assert(k2 != 0);
                assert(t2[k2 - 1] == id);
                assert(t2.contains(id));
            }
            if t2.contains(id) {
                let k = choose|k: int| 0 <= k < t2.len() && #[trigger] t2[k] == id;
                assert(q2[k + 1] == id);
                assert(before_in_round(actors, q2[0], q2[k + 1]));
                assert(q2.contains(id) && id != q2[0]);
                assert(q1.contains(id));
                let k1 = choose|k1: int| 0 <= k1 < q1.len() && #[trigger] q1[k1] == id;
                assert(k1 != 0);
                assert(t1[k1 - 1] == id);
                assert(t1.contains(id));
            }
        };
        lemma_sorted_ids_unique(actors, t1, t2);
        assert forall|i: int| 0 <= i < q1.len() implies q1[i] == q2[i] by {
            if i > 0 {
                assert(t1[i - 1] == q1[i]);
                assert(t2[i - 1] == q2[i]);
            }
        };
        assert(q1 =~= q2);
    }
}

/// Round-robin determinism, and with it queue non-accumulation: the state of
/// the round-robin after a repopulation is a function of the actor table
/// alone, so nothing of any earlier queue contents can survive into the new
/// episode.
pub proof fn lemma_rebuild_deterministic<A: Activity>(
    actors: Seq<Actor<A>>,
    q1: InputControllerQueue,
    q2: InputControllerQueue,
)
    requires
        rebuild_rel(actors, q1),
        rebuild_rel(actors, q2),
    ensures
        q1.active == q2.active,
        q1.entries@ == q2.entries@,
{
    let full1 = match q1.active {
        None => q1.entries@,
        Some(a) => seq![a] + q1.entries@,
    };
    let full2 = match q2.active {
        None => q2.entries@,
        Some(a) => seq![a] + q2.entries@,
    };
    assert forall|id: usize| #[trigger] full1.contains(id) <==> full2.contains(id) by {
        if full1.contains(id) {
            assert(id < actors.len() && actors[id as int].awaiting_input());
        }
        if full2.contains(id) {
            assert(id < actors.len() && actors[id as int].awaiting_input());
        }
    };
    lemma_sorted_ids_unique(actors, full1, full2);
    if q1.active is Some {
        assert(full1[0] == q1.active->0);
        assert(full1.len() > 0);
        if q2.active is None {
            assert(full2.contains(full1[0]));
        }
        assert(q1.entries@ =~= full1.drop_first());
        assert(q2.entries@ =~= full2.drop_first());
    } else {
        assert(q1.entries@.len() == 0);
        if q2.active is Some {
            assert(full2[0] == q2.active->0);
            assert(full1.contains(full2[0]));
        }
        assert(q1.entries@ =~= q2.entries@);
    }
}

/// How one full PostTick pass rewrites one actor: a TickDone actor with a
/// phase queue is advanced — and detached when its queue empties — while every
/// other actor is left untouched.
pub open spec fn advanced_from<A: Activity>(pre: Actor<A>, post: Actor<A>) -> bool {
    match pre.phase_queue {
        Some(q) => {
            if pre.holds(StatusTag::TickDone) {
                if q.ticks_to_next_phase > 1 || q.phases@.len() > 1 {
                    &&& post.status == Some(StatusTag::NeedsTick)
                    &&& post.activity == pre.activity
                    &&& post.input == pre.input
                    &&& (post.phase_queue matches Some(q2) && advance_rel(
                        q,
                        q2,
                        StatusTag::NeedsTick,
                    ))
                } else {
                    &&& post.status == Some(StatusTag::Idle)
                    &&& post.activity is None
                    &&& post.phase_queue is None
                    &&& post.input == pre.input
                }
            } else {
                post == pre
            }
        },
        None => post == pre,
    }
}

/// Why an assignment was refused.
#[derive(Clone, Copy, Debug, PartialEq, Eq, Structural)]
pub enum AssignError {
    /// The actor already carries an activity. Assignment never replaces one
    /// silently; it can be retried after the current activity detaches.
    ActivityInProgress,
}

/// The tick coordinator: sole owner of the tick state, the actor table and the
/// input round-robin. All mutation of those singletons goes through its
/// operations.
pub struct TickCoordinator<A: Activity> {
    pub actors: Vec<Actor<A>>,
    pub tick_state: TickState,
    pub input_queue: InputControllerQueue,
}

impl<A: Activity> TickCoordinator<A> {
    /// A queue entry is a valid actor id whose actor is input-eligible and
    /// currently idle.
    pub open spec fn queue_entry_ok(self, id: usize) -> bool {
        &&& id < self.actors@.len()
        &&& self.actors@[id as int].input is Some
        &&& self.actors@[id as int].holds(StatusTag::Idle)
    }

    /// Coordinator well-formedness: every actor is well formed; queued actors
    /// are valid, idle, input-eligible and pairwise distinct; the active
    /// actor, if any, is likewise idle and input-eligible and is not also
    /// waiting in the queue.
    pub open spec fn wf(self) -> bool {
        &&& forall|i: int| 0 <= i < self.actors@.len() ==> (#[trigger] self.actors@[i]).wf()
        &&& forall|k: int|
            0 <= k < self.input_queue.entries@.len() ==> self.queue_entry_ok(
                #[trigger] self.input_queue.entries@[k],
            )
        &&& forall|k1: int, k2: int|
            0 <= k1 < k2 < self.input_queue.entries@.len() ==> self.input_queue.entries@[k1]
                != self.input_queue.entries@[k2]
        &&& (self.input_queue.active matches Some(id) ==> self.queue_entry_ok(id)
            && !self.input_queue.entries@.contains(id))
    }

    /// A fresh coordinator: no actors, ticking not yet started, empty
    /// round-robin.
    pub fn new() -> (c: Self)
        ensures
            c.wf(),
            c.actors@.len() == 0,
            c.tick_state == TickState::NotYetTicking,
            c.input_queue.entries@.len() == 0,
            c.input_queue.active is None,
    {
        TickCoordinator {
            actors: Vec::new(),
            tick_state: TickState::NotYetTicking,
            input_queue: InputControllerQueue::new(),
        }
    }

    /// Adds a participant with the given initial status and optional input
    /// membership, and returns its identity. A new actor never joins a
    /// round-robin episode already underway.
    pub fn add_actor(&mut self, status: Option<StatusTag>, input: Option<InputController>) -> (id:
        usize)
        requires
            old(self).wf(),
        ensures
            final(self).wf(),
            id == old(self).actors@.len(),
            final(self).actors@ == old(self).actors@.push(
                (Actor { status, activity: None, phase_queue: None, input }),
            ),
            final(self).tick_state == old(self).tick_state,
            final(self).input_queue == old(self).input_queue,
    {
        let id = self.actors.len();
        self.actors.push(Actor { status, activity: None, phase_queue: None, input });
        id
    }

    /// Replaces one actor's status field, touching nothing else. Private: the
    /// public mutation path is `set_tag`, which also keeps the round-robin
    /// bookkeeping consistent.
    fn set_status(&mut self, id: usize, status: Option<StatusTag>)
        requires
            id < old(self).actors@.len(),
        ensures
            final(self).actors@.len() == old(self).actors@.len(),
            same_but_status(old(self).actors@[id as int], final(self).actors@[id as int], status),
            forall|j: int|
                0 <= j < old(self).actors@.len() && j != id ==> final(self).actors@[j] == old(
                    self,
                ).actors@[j],
            final(self).tick_state == old(self).tick_state,
            final(self).input_queue == old(self).input_queue,
    {
        let a = &mut self.actors[id];
        a.status = status;
    }

    /// Releases the active input slot and grants it to the front of the
    /// queue, if anybody is waiting; otherwise nobody holds the slot until the
    /// next PreTick repopulation.
    fn promote(&mut self)
        ensures
            final(self).actors == old(self).actors,
            final(self).tick_state == old(self).tick_state,
            old(self).input_queue.entries@.len() == 0 ==> final(self).input_queue.active is None
                && final(self).input_queue.entries@ == old(self).input_queue.entries@,
            old(self).input_queue.entries@.len() > 0 ==> final(self).input_queue.active == Some(
                old(self).input_queue.entries@[0],
            ) && final(self).input_queue.entries@ == old(self).input_queue.entries@.drop_first(),
    {
        if self.input_queue.entries.len() > 0 {
            let next = self.input_queue.entries.remove(0);
            self.input_queue.active = Some(next);
            proof {
                assert(self.input_queue.entries@ =~= old(self).input_queue.entries@.drop_first());
            }
        } else {
            self.input_queue.active = None;
        }
    }

    /// Removes the given actor from the waiting queue, if it is there.
    fn evict(&mut self, id: usize)
        ensures
            final(self).actors == old(self).actors,
            final(self).tick_state == old(self).tick_state,
            final(self).input_queue.active == old(self).input_queue.active,
            old(self).input_queue.entries@.contains(id) ==> exists|k: int|
                0 <= k < old(self).input_queue.entries@.len() && #[trigger] old(
                    self,
                ).input_queue.entries@[k] == id && final(self).input_queue.entries@ == old(
                    self,
                ).input_queue.entries@.remove(k),
            !old(self).input_queue.entries@.contains(id) ==> final(self).input_queue.entries@
                == old(self).input_queue.entries@,
    {
        let mut k: usize = 0;
        while k < self.input_queue.entries.len()
            invariant
                *self == *old(self),
                k <= self.input_queue.entries@.len(),
                forall|j: int| 0 <= j < k ==> self.input_queue.entries@[j] != id,
            decreases self.input_queue.entries@.len() - k,
        {
            if self.input_queue.entries[k] == id {
                let removed = self.input_queue.entries.remove(k);
                return ;
            }
            k += 1;
        }
    }

    /// The sole mutation path for actor status: atomically replaces whatever
    /// tag the actor held with the requested one (exactly one holds
    /// afterwards), and keeps the round-robin consistent. Whenever the change
    /// clears the active actor's Idle tag, the next queued actor is promoted
    /// to the slot; whenever it clears a queued actor's Idle tag, that actor
    /// leaves the queue.
    pub fn set_tag(&mut self, id: usize, tag: StatusTag)
        requires
            old(self).wf(),
            id < old(self).actors@.len(),
        ensures
            final(self).wf(),
            final(self).actors@.len() == old(self).actors@.len(),
            same_but_status(
                old(self).actors@[id as int],
                final(self).actors@[id as int],
                Some(tag),
            ),
            forall|j: int|
                0 <= j < old(self).actors@.len() && j != id ==> final(self).actors@[j] == old(
                    self,
                ).actors@[j],
            final(self).tick_state == old(self).tick_state,
            promotion_rel(*old(self), *final(self), id, tag),
    {
        let is_idle_tag = match tag {
            StatusTag::Idle => true,
            _ => false,
        };
        if !is_idle_tag {
            let is_active = match self.input_queue.active {
                Some(a) => a == id,
                None => false,
            };
            if is_active {
                self.promote();
            } else {
                self.evict(id);
            }
        }
        self.set_status(id, Some(tag));
    }

    /// The priority key an actor sorts under in the round-robin.
    fn key_of(&self, id: usize) -> (k: usize)
        requires
            id < self.actors@.len(),
        ensures
            k as int == priority_key(self.actors@[id as int]),
    {
        let a = &self.actors[id];
        match &a.input {
            Some(c) => c.queue_position,
            None => 0,
        }
    }

    /// First position in `sorted` whose key is strictly greater than `kx`;
    /// inserting there keeps equal keys in their existing (scan) order.
    fn find_insert_pos(&self, sorted: &Vec<usize>, kx: usize) -> (p: usize)
        requires
            forall|j: int| 0 <= j < sorted@.len() ==> #[trigger] sorted@[j] < self.actors@.len(),
        ensures
            p <= sorted@.len(),
            forall|j: int| 0 <= j < p ==> priority_key(self.actors@[#[trigger] sorted@[j] as int])
                <= kx,
            p < sorted@.len() ==> priority_key(self.actors@[sorted@[p as int] as int]) > kx,
    {
        let mut p: usize = 0;
        while p < sorted.len()
            invariant
                p <= sorted@.len(),
                forall|j: int| 0 <= j < sorted@.len() ==> #[trigger] sorted@[j]
                    < self.actors@.len(),
                forall|j: int|
                    0 <= j < p ==> priority_key(self.actors@[#[trigger] sorted@[j] as int]) <= kx,
            decreases sorted@.len() - p,
        {
            let ky = self.key_of(sorted[p]);
            if ky > kx {
                return p;
            }
            p += 1;
        }
        p
    }

    /// Stable insertion sort of distinct, ascending actor ids into round-robin
    /// order: ascending priority key, ties kept in ascending id order.
    fn sort_round_robin(&self, ids: Vec<usize>) -> (sorted: Vec<usize>)
        requires
            forall|k: int| 0 <= k < ids@.len() ==> #[trigger] ids@[k] < self.actors@.len(),
            forall|k1: int, k2: int| 0 <= k1 < k2 < ids@.len() ==> ids@[k1] < ids@[k2],
        ensures
            forall|id: usize| #[trigger] sorted@.contains(id) <==> ids@.contains(id),
            forall|k1: int, k2: int|
                0 <= k1 < k2 < sorted@.len() ==> before_in_round(
                    self.actors@,
                    sorted@[k1],
                    sorted@[k2],
                ),
            forall|k: int| 0 <= k < sorted@.len() ==> #[trigger] sorted@[k] < self.actors@.len(),
    {
        let mut sorted: Vec<usize> = Vec::new();
        let mut i: usize = 0;
        while i < ids.len()
            invariant
                i <= ids@.len(),
                forall|k: int| 0 <= k < ids@.len() ==> #[trigger] ids@[k] < self.actors@.len(),
                forall|k1: int, k2: int| 0 <= k1 < k2 < ids@.len() ==> ids@[k1] < ids@[k2],
                forall|id: usize| #[trigger] sorted@.contains(id) <==> ids@.subrange(
                    0,
                    i as int,
                ).contains(id),
                forall|k1: int, k2: int|
                    0 <= k1 < k2 < sorted@.len() ==> before_in_round(
                        self.actors@,
                        sorted@[k1],
                        sorted@[k2],
                    ),
                forall|k: int| 0 <= k < sorted@.len() ==> #[trigger] sorted@[k]
                    < self.actors@.len(),
            decreases ids@.len() - i,
        {
            let x = ids[i];
            let kx = self.key_of(x);
            let p = self.find_insert_pos(&sorted, kx);
            let ghost pre_sorted = sorted@;
            sorted.insert(p, x);
            proof {
                pre_sorted.insert_ensures(p as int, x);
                // every element already placed is an earlier id than x
                assert forall|j: int| 0 <= j < pre_sorted.len() implies pre_sorted[j] < x by {
                    assert(pre_sorted.contains(pre_sorted[j]));
                    let jj = choose|jj: int|
                        0 <= jj < i && ids@.subrange(0, i as int)[jj] == pre_sorted[j];
                    assert(ids@[jj] == pre_sorted[j]);
                };
                // membership: exactly the first i + 1 ids
                assert forall|id: usize| #[trigger] sorted@.contains(id) <==> ids@.subrange(
                    0,
                    i + 1,
                ).contains(id) by {
                    if sorted@.contains(id) {
                        let k = choose|k: int| 0 <= k < sorted@.len() && sorted@[k] == id;
                        if k < p {
                            assert(pre_sorted[k] == id);
                            assert(pre_sorted.contains(id));
                            let k2 = choose|k2: int|
                                0 <= k2 < i && ids@.subrange(0, i as int)[k2] == id;
                            assert(ids@.subrange(0, i + 1)[k2] == id);
                        } else if k == p {
                            assert(ids@.subrange(0, i + 1)[i as int] == id);
                        } else {
                            assert(pre_sorted[k - 1] == id);
                            assert(pre_sorted.contains(id));
                            let k2 = choose|k2: int|
                                0 <= k2 < i && ids@.subrange(0, i as int)[k2] == id;
                            assert(ids@.subrange(0, i + 1)[k2] == id);
                        }
                    }
                    if ids@.subrange(0, i + 1).contains(id) {
                        let k = choose|k: int|
                            0 <= k < i + 1 && #[trigger] ids@.subrange(0, i + 1)[k] == id;
                        if k < i {
                            assert(ids@.subrange(0, i as int)[k] == id);
                            assert(ids@.subrange(0, i as int).contains(id));
                            assert(pre_sorted.contains(id));
                            let k2 = choose|k2: int|
                                0 <= k2 < pre_sorted.len() && pre_sorted[k2] == id;
                            if k2 < p {
                                assert(sorted@[k2] == id);
                            } else {
                                assert(sorted@[k2 + 1] == id);
                            }
                            assert(sorted@.contains(id));
                        } else {
                            assert(id == x);
                            assert(sorted@[p as int] == id);
                            assert(sorted@.contains(id));
                        }
                    }
                };
                // order: the new element sits between smaller-or-equal keys of
                // earlier ids and strictly greater keys
                assert forall|k1: int, k2: int|
                    0 <= k1 < k2 < sorted@.len() implies before_in_round(
                    self.actors@,
                    sorted@[k1],
                    sorted@[k2],
                ) by {
                    if k1 == p {
                        assert(sorted@[k2] == pre_sorted[k2 - 1]);
                        if k2 - 1 > p {
                            assert(before_in_round(self.actors@, pre_sorted[p as int], pre_sorted[k2
                                - 1]));
                        }
                        assert(priority_key(self.actors@[pre_sorted[p as int] as int]) > kx);
                    } else if k2 == p {
                        assert(sorted@[k1] == pre_sorted[k1]);
                        assert(priority_key(self.actors@[pre_sorted[k1] as int]) <= kx);
                        assert(pre_sorted[k1] < x);
                    } else {
                        if k1 < p && k2 < p {
                        } else if k1 < p && k2 > p {
                            assert(sorted@[k1] == pre_sorted[k1]);
                            assert(sorted@[k2] == pre_sorted[k2 - 1]);
                        } else {
                            assert(sorted@[k1] == pre_sorted[k1 - 1]);
                            assert(sorted@[k2] == pre_sorted[k2 - 1]);
                        }
                    }
                };
            }
            i += 1;
        }
        proof {
            assert(ids@.subrange(0, ids@.len() as int) =~= ids@);
        }
        sorted
    }

    /// PreTick repopulation of the round-robin. Any residual queue left over
    /// from an earlier episode is cleared first (reported through the return
    /// value so the host can warn about it), then every idle input-eligible
    /// actor is enqueued in round-robin order, and the front of the fresh
    /// queue, if any, is granted the active slot.
    pub fn queue_input_controllers(&mut self) -> (residual: bool)
        requires
            old(self).wf(),
        ensures
            final(self).wf(),
            residual == (old(self).input_queue.entries@.len() > 0),
            final(self).actors == old(self).actors,
            final(self).tick_state == old(self).tick_state,
            rebuild_rel(final(self).actors@, final(self).input_queue),
    {
        let residual = self.input_queue.entries.len() > 0;
        if residual {
            self.input_queue.entries.clear();
        }
        let mut collected: Vec<usize> = Vec::new();
        let mut i: usize = 0;
        while i < self.actors.len()
            invariant
                i <= self.actors@.len(),
                forall|id: usize| #[trigger] collected@.contains(id) <==> id < i
                    && self.actors@[id as int].awaiting_input(),
                forall|k1: int, k2: int| 0 <= k1 < k2 < collected@.len() ==> collected@[k1]
                    < collected@[k2],
                forall|k: int| 0 <= k < collected@.len() ==> #[trigger] collected@[k] < i,
            decreases self.actors@.len() - i,
        {
            let a = &self.actors[i];
            let idle = match a.status {
                Some(StatusTag::Idle) => true,
                _ => false,
            };
            if idle && a.input.is_some() {
                let ghost pre = collected@;
                collected.push(i);
                proof {
                    assert forall|id: usize| #[trigger] collected@.contains(id) <==> id < i + 1
                        && self.actors@[id as int].awaiting_input() by {
                        if collected@.contains(id) {
                            let k = choose|k: int| 0 <= k < collected@.len() && collected@[k] == id;
                            if k < pre.len() {
                                assert(pre[k] == id);
                                assert(pre.contains(id));
                            }
                        }
                        if id < i + 1 && self.actors@[id as int].awaiting_input() {
                            if id < i {
                                assert(pre.contains(id));
                                let k = choose|k: int| 0 <= k < pre.len() && pre[k] == id;
                                assert(collected@[k] == id);
                            } else {
                                assert(collected@[pre.len() as int] == id);
                            }
                        }
                    };
                }
            } else {
                proof {
                    assert forall|id: usize| #[trigger] collected@.contains(id) <==> id < i + 1
                        && self.actors@[id as int].awaiting_input() by {
                        if id == i {
                            assert(!self.actors@[id as int].awaiting_input());
                        }
                    };
                }
            }
            i += 1;
        }
        let mut sorted = self.sort_round_robin(collected);
        let ghost full = sorted@;
        proof {
            assert(rebuilt_order_ok(self.actors@, full));
        }
        if sorted.len() > 0 {
            let head = sorted.remove(0);
            self.input_queue.active = Some(head);
            self.input_queue.entries = sorted;
            proof {
                assert(seq![head] + self.input_queue.entries@ =~= full);
                assert forall|k: int|
                    0 <= k < self.input_queue.entries@.len() implies self.queue_entry_ok(
                    #[trigger] self.input_queue.entries@[k],
                ) by {
                    assert(full[k + 1] == self.input_queue.entries@[k]);
                    assert(full.contains(full[k + 1]));
                };
                assert(full.contains(full[0]));
                assert forall|k1: int, k2: int|
                    0 <= k1 < k2 < self.input_queue.entries@.len()
                        implies self.input_queue.entries@[k1] != self.input_queue.entries@[k2] by {
                    assert(full[k1 + 1] == self.input_queue.entries@[k1]);
                    assert(full[k2 + 1] == self.input_queue.entries@[k2]);
                    assert(before_in_round(self.actors@, full[k1 + 1], full[k2 + 1]));
                };
                assert(!self.input_queue.entries@.contains(head)) by {
                    if self.input_queue.entries@.contains(head) {
                        let k = choose|k: int|
                            0 <= k < self.input_queue.entries@.len()
                                && self.input_queue.entries@[k] == head;
                        assert(full[k + 1] == head);
                        assert(before_in_round(self.actors@, full[0], full[k + 1]));
                    }
                };
            }
        } else {
            self.input_queue.active = None;
            self.input_queue.entries = sorted;
        }
        residual
    }

    /// Whether any actor currently holds the given tag.
    fn any_holds(&self, tag: StatusTag) -> (r: bool)
        ensures
            r == exists|i: int|
                0 <= i < self.actors@.len() && (#[trigger] self.actors@[i]).holds(tag),
    {
        let mut i: usize = 0;
        while i < self.actors.len()
            invariant
                i <= self.actors@.len(),
                forall|j: int| 0 <= j < i ==> !(#[trigger] self.actors@[j]).holds(tag),
            decreases self.actors@.len() - i,
        {
            let a = &self.actors[i];
            let held = match a.status {
                Some(t) => t == tag,
                None => false,
            };
            if held {
                return true;
            }
            i += 1;
        }
        false
    }

    /// The single lifecycle entry point: moves the coordinator from
    /// NotYetTicking into its first PreTick episode, repopulating the
    /// round-robin on entry. Once ticking has started, calling it again is a
    /// no-op.
    pub fn start_ticking(&mut self)
        requires
            old(self).wf(),
        ensures
            final(self).wf(),
            old(self).tick_state != TickState::NotYetTicking ==> *final(self) == *old(self),
            old(self).tick_state == TickState::NotYetTicking ==> {
                &&& final(self).tick_state == TickState::PreTick
                &&& final(self).actors == old(self).actors
                &&& rebuild_rel(final(self).actors@, final(self).input_queue)
            },
    {
        let not_started = match self.tick_state {
            TickState::NotYetTicking => true,
            _ => false,
        };
        if not_started {
            self.tick_state = TickState::PreTick;
            let _residual = self.queue_input_controllers();
        }
    }

    /// One PreTick scheduling pass: the coordinator moves on to Tick exactly
    /// when no actor holds Idle; while any actor remains Idle it stays put,
    /// performing no phase work itself.
    pub fn pre_tick_pass(&mut self)
        requires
            old(self).wf(),
            old(self).tick_state == TickState::PreTick,
        ensures
            final(self).wf(),
            final(self).actors == old(self).actors,
            final(self).input_queue == old(self).input_queue,
            final(self).tick_state == (if exists|i: int|
                0 <= i < old(self).actors@.len() && (#[trigger] old(self).actors@[i]).holds(
                    StatusTag::Idle,
                ) {
                TickState::PreTick
            } else {
                TickState::Tick
            }),
    {
        if !self.any_holds(StatusTag::Idle) {
            self.tick_state = TickState::Tick;
        }
    }

    /// One Tick scheduling pass: the coordinator moves on to PostTick exactly
    /// when no actor holds NeedsTick. Domain systems run while it waits here,
    /// marking each NeedsTick actor TickDone once its unit of work is done.
    pub fn tick_pass(&mut self)
        requires
            old(self).wf(),
            old(self).tick_state == TickState::Tick,
        ensures
            final(self).wf(),
            final(self).actors == old(self).actors,
            final(self).input_queue == old(self).input_queue,
            final(self).tick_state == (if exists|i: int|
                0 <= i < old(self).actors@.len() && (#[trigger] old(self).actors@[i]).holds(
                    StatusTag::NeedsTick,
                ) {
                TickState::Tick
            } else {
                TickState::PostTick
            }),
    {
        if !self.any_holds(StatusTag::NeedsTick) {
            self.tick_state = TickState::PostTick;
        }
    }

    /// One PostTick scheduling pass: runs the phase-advance algorithm over
    /// every TickDone actor (total over the set — no actor is skipped), then
    /// moves back to PreTick, opening a fresh round-robin episode, exactly
    /// when no TickDone actor remains. A TickDone actor without a phase queue
    /// is left as it is and stalls the transition.
    pub fn post_tick_pass(&mut self)
        requires
            old(self).wf(),
            old(self).tick_state == TickState::PostTick,
        ensures
            final(self).wf(),
            final(self).actors@.len() == old(self).actors@.len(),
            forall|i: int|
                0 <= i < old(self).actors@.len() ==> advanced_from(
                    old(self).actors@[i],
                    final(self).actors@[i],
                ),
            (forall|i: int|
                0 <= i < final(self).actors@.len() ==> !(#[trigger] final(self).actors@[i]).holds(
                    StatusTag::TickDone,
                )) ==> final(self).tick_state == TickState::PreTick && rebuild_rel(
                final(self).actors@,
                final(self).input_queue,
            ),
            (exists|i: int|
                0 <= i < final(self).actors@.len() && (#[trigger] final(self).actors@[i]).holds(
                    StatusTag::TickDone,
                )) ==> {
                &&& final(self).tick_state == TickState::PostTick
                &&& final(self).input_queue.active == old(self).input_queue.active
                &&& final(self).input_queue.entries@ == old(self).input_queue.entries@
            },
    {
        let mut i: usize = 0;
        while i < self.actors.len()
            invariant
                self.wf(),
                i <= self.actors@.len(),
                self.actors@.len() == old(self).actors@.len(),
                self.tick_state == TickState::PostTick,
                self.input_queue.active == old(self).input_queue.active,
                self.input_queue.entries@ == old(self).input_queue.entries@,
                forall|j: int|
                    i <= j < old(self).actors@.len() ==> self.actors@[j] == old(self).actors@[j],
                forall|j: int|
                    0 <= j < i ==> advanced_from(old(self).actors@[j], self.actors@[j]),
            decreases self.actors@.len() - i,
        {
            let a = &self.actors[i];
            let is_done = match a.status {
                Some(StatusTag::TickDone) => true,
                _ => false,
            };
            if is_done && a.phase_queue.is_some() {
                let a = &mut self.actors[i];
                let tag = match &mut a.phase_queue {
                    Some(q) => q.advance(),
                    None => StatusTag::TickDone,
                };
                let went_idle = match tag {
                    StatusTag::Idle => true,
                    _ => false,
                };
                if went_idle {
                    a.activity = None;
                    a.phase_queue = None;
                }
                self.set_tag(i, tag);
            }
            i += 1;
        }
        if !self.any_holds(StatusTag::TickDone) {
            self.tick_state = TickState::PreTick;
            let _residual = self.queue_input_controllers();
        }
    }

    /// Assigns a behavior to an actor carrying none: stores it, derives and
    /// attaches its phase queue (countdown at the first phase's full duration,
    /// 0 for a phase-less activity) and marks the actor NeedsTick. An actor
    /// performing an activity is not simultaneously eligible for manual input,
    /// so the assignment also releases the actor's active input slot or queue
    /// place, promoting the next waiting actor. An actor already carrying an
    /// activity is refused, unchanged: assignment never replaces silently.
    pub fn assign(&mut self, id: usize, activity: A) -> (r: Result<(), AssignError>)
        requires
            old(self).wf(),
            id < old(self).actors@.len(),
        ensures
            final(self).wf(),
            final(self).tick_state == old(self).tick_state,
            final(self).actors@.len() == old(self).actors@.len(),
            r is Err <==> old(self).actors@[id as int].activity is Some,
            r is Err ==> *final(self) == *old(self) && r == Result::<(), AssignError>::Err(
                AssignError::ActivityInProgress,
            ),
            r is Ok ==> {
                &&& final(self).actors@[id as int].status == Some(StatusTag::NeedsTick)
                &&& final(self).actors@[id as int].input == old(self).actors@[id as int].input
                &&& (final(self).actors@[id as int].activity matches Some(c) && c.0 == activity)
                &&& (final(self).actors@[id as int].phase_queue matches Some(q) && q.wf()
                    && phase_models(q.phases@) == activity.phases_spec() && (
                activity.phases_spec().len() == 0 ==> q.ticks_to_next_phase == 0) && (
                activity.phases_spec().len() > 0 ==> q.ticks_to_next_phase
                    == activity.phases_spec()[0].1))
                &&& forall|j: int|
                    0 <= j < old(self).actors@.len() && j != id ==> final(self).actors@[j] == old(
                        self,
                    ).actors@[j]
                &&& promotion_rel(*old(self), *final(self), id, StatusTag::NeedsTick)
            },
    {
        let busy = self.actors[id].activity.is_some();
        if busy {
            return Err(AssignError::ActivityInProgress);
        }
        let phases = activity.phase_queue();
        proof {
            if phases@.len() > 0 {
                assert(phase_models(phases@)[0] == phases@[0].model());
            }
        }
        let queue = ActivityPhaseQueue::new(phases);
        let a = &mut self.actors[id];
        a.activity = Some(CurrentActivity(activity));
        a.phase_queue = Some(queue);
        self.set_tag(id, StatusTag::NeedsTick);
        Ok(())
    }
}

} // verus!
