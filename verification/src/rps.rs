use vstd::prelude::*;

use crate::activity::{phase_models, Activity, ActivityPhase};
use crate::coordinator::{same_but_status, Actor, TickCoordinator};
use crate::tick::StatusTag;

verus! {

/// The move a player performs for one round: a one-tick activity.
#[derive(Clone, Copy, Debug, PartialEq, Eq, Structural)]
pub enum RpsActivity {
    Rock,
    Paper,
    Scissors,
}

/// The display name of each move.
pub open spec fn move_name(m: RpsActivity) -> Seq<char> {
    match m {
        RpsActivity::Rock => "rock"@,
        RpsActivity::Paper => "paper"@,
        RpsActivity::Scissors => "scissors"@,
    }
}

impl Activity for RpsActivity {
    /// Every move runs one phase, named "whatever", lasting one tick.
    open spec fn phases_spec(&self) -> Seq<(Seq<char>, nat)> {
        seq![("whatever"@, 1nat)]
    }

    fn name(&self) -> (r: String)
        ensures
            r@ == move_name(*self),
    {
        match self {
            RpsActivity::Rock => "rock".to_owned(),
            RpsActivity::Paper => "paper".to_owned(),
            RpsActivity::Scissors => "scissors".to_owned(),
        }
    }

    fn phase_queue(&self) -> (phases: Vec<ActivityPhase>)
        ensures
            phases@.len() == 1,
            phases@[0].duration == 1,
            phases@[0].name@ == "whatever"@,
    {
        let mut phases: Vec<ActivityPhase> = Vec::new();
        phases.push(ActivityPhase { name: "whatever".to_owned(), duration: 1 });
        proof {
            assert(phase_models(phases@) =~= self.phases_spec());
        }
        phases
    }
}

/// How one pairing ends, from the first player's point of view.
#[derive(Clone, Copy, Debug, PartialEq, Eq, Structural)]
pub enum RpsOutcome {
    Tie,
    Player1Wins,
    Player2Wins,
}

/// `a` beats `b`: rock breaks scissors, paper covers rock, scissors cut paper.
pub open spec fn beats(a: RpsActivity, b: RpsActivity) -> bool {
    ||| (a == RpsActivity::Rock && b == RpsActivity::Scissors)
    ||| (a == RpsActivity::Paper && b == RpsActivity::Rock)
    ||| (a == RpsActivity::Scissors && b == RpsActivity::Paper)
}

/// The outcome of one pairing: a tie on equal moves, otherwise a win for
/// whichever side beats the other.
pub open spec fn outcome_of(a: RpsActivity, b: RpsActivity) -> RpsOutcome {
    if a == b {
        RpsOutcome::Tie
    } else if beats(a, b) {
        RpsOutcome::Player1Wins
    } else {
        RpsOutcome::Player2Wins
    }
}

/// Resolves one pairing by the classic rules.
pub fn resolve(a: RpsActivity, b: RpsActivity) -> (r: RpsOutcome)
    ensures
        r == outcome_of(a, b),
{
    match (a, b) {
        (RpsActivity::Rock, RpsActivity::Rock) => RpsOutcome::Tie,
        (RpsActivity::Paper, RpsActivity::Paper) => RpsOutcome::Tie,
        (RpsActivity::Scissors, RpsActivity::Scissors) => RpsOutcome::Tie,
        (RpsActivity::Rock, RpsActivity::Scissors) => RpsOutcome::Player1Wins,
        (RpsActivity::Paper, RpsActivity::Rock) => RpsOutcome::Player1Wins,
        (RpsActivity::Scissors, RpsActivity::Paper) => RpsOutcome::Player1Wins,
        (RpsActivity::Rock, RpsActivity::Paper) => RpsOutcome::Player2Wins,
        (RpsActivity::Paper, RpsActivity::Scissors) => RpsOutcome::Player2Wins,
        (RpsActivity::Scissors, RpsActivity::Rock) => RpsOutcome::Player2Wins,
    }
}

/// Per-player tally of finished pairings.
#[derive(Clone, Copy, Debug, PartialEq, Eq, Structural)]
pub struct ScoreTracker {
    pub wins: usize,
    pub ties: usize,
    pub losses: usize,
}

impl ScoreTracker {
    /// A fresh, all-zero tally.
    pub fn new() -> (s: Self)
        ensures
            s.wins == 0 && s.ties == 0 && s.losses == 0,
    {
        ScoreTracker { wins: 0, ties: 0, losses: 0 }
    }
}

/// Counts finished rounds and says when the configured number is reached.
#[derive(Clone, Copy, Debug, PartialEq, Eq, Structural)]
pub struct RoundCounter {
    pub current_round: usize,
    pub num_rounds: usize,
}

impl RoundCounter {
    /// Marks one more round as finished and reports whether the game is over.
    pub fn increment(&mut self) -> (finished: bool)
        requires
            old(self).current_round < usize::MAX,
        ensures
            final(self).current_round == old(self).current_round + 1,
            final(self).num_rounds == old(self).num_rounds,
            finished == (final(self).current_round >= final(self).num_rounds),
    {
        self.current_round += 1;
        self.current_round >= self.num_rounds
    }
}

/// The move a drawn index stands for; anything past the first two falls to
/// Scissors.
pub open spec fn index_move(i: u32) -> RpsActivity {
    if i == 0 {
        RpsActivity::Rock
    } else if i == 1 {
        RpsActivity::Paper
    } else {
        RpsActivity::Scissors
    }
}

/// Maps a drawn index to its move.
pub fn move_from_index(i: u32) -> (m: RpsActivity)
    ensures
        m == index_move(i),
{
    match i {
        0 => RpsActivity::Rock,
        1 => RpsActivity::Paper,
        _ => RpsActivity::Scissors,
    }
}

/// The move a keyboard choice stands for: r is rock, p is paper, s is
/// scissors, anything else no move at all.
pub open spec fn key_move(key: char) -> Option<RpsActivity> {
    if key == 'r' {
        Some(RpsActivity::Rock)
    } else if key == 'p' {
        Some(RpsActivity::Paper)
    } else if key == 's' {
        Some(RpsActivity::Scissors)
    } else {
        None
    }
}

/// Maps a pressed key to the move it chooses, if any.
pub fn move_from_key(key: char) -> (m: Option<RpsActivity>)
    ensures
        m == key_move(key),
{
    if key == 'r' {
        Some(RpsActivity::Rock)
    } else if key == 'p' {
        Some(RpsActivity::Paper)
    } else if key == 's' {
        Some(RpsActivity::Scissors)
    } else {
        None
    }
}

/// Relies on rand::rng (the thread-local generator) and
/// rand::RngExt::random_range: returns a value drawn from `0..n`. The sampler
/// panics only on an empty range, which the precondition rules out; acquiring
/// or reseeding the thread-local generator can also panic if the operating
/// system's entropy source fails, an environment failure of the same class as
/// running out of memory.
#[verifier::external_body]
fn random_index_below(n: u32) -> (r: u32)
    requires
        1 <= n,
    ensures
        r < n,
{
    rand::RngExt::random_range(&mut rand::rng(), 0..n)
}

/// Draws one of the three moves at random.
fn random_rps_move() -> RpsActivity {
    move_from_index(random_index_below(3))
}

/// The actor awaits a decision: idle, with no activity assigned.
pub open spec fn undecided(a: Actor<RpsActivity>) -> bool {
    a.holds(StatusTag::Idle) && a.activity is None
}

/// `post` is `pre` right after choosing `mv`: the move attached as its
/// activity, its one-tick phase list attached with the countdown started, the
/// actor marked NeedsTick, everything else kept.
pub open spec fn chose_move(
    pre: Actor<RpsActivity>,
    post: Actor<RpsActivity>,
    mv: RpsActivity,
) -> bool {
    &&& post.status == Some(StatusTag::NeedsTick)
    &&& (post.activity matches Some(cur) && cur.0 == mv)
    &&& (post.phase_queue matches Some(q) && q.wf() && phase_models(q.phases@)
        == mv.phases_spec() && q.ticks_to_next_phase == 1)
    &&& post.input == pre.input
}

/// `post` is `pre` right after choosing some move.
pub open spec fn chose_any_move(pre: Actor<RpsActivity>, post: Actor<RpsActivity>) -> bool {
    exists|mv: RpsActivity| chose_move(pre, post, mv)
}

/// Decision pass for the always-rock players, run while the coordinator waits
/// in PreTick: every listed actor that still awaits a decision chooses Rock.
/// Listed actors decide for themselves, so they carry no input membership.
#[verifier::loop_isolation(false)]
pub fn process_idle_rock_controllers(c: &mut TickCoordinator<RpsActivity>, controllers: &Vec<usize>)
    requires
        old(c).wf(),
        forall|k: int|
            0 <= k < controllers@.len() ==> #[trigger] controllers@[k] < old(c).actors@.len(),
        forall|k: int|
            0 <= k < controllers@.len() ==> old(c).actors@[#[trigger] controllers@[k] as int].input
                is None,
    ensures
        final(c).wf(),
        final(c).actors@.len() == old(c).actors@.len(),
        final(c).tick_state == old(c).tick_state,
        final(c).input_queue.active == old(c).input_queue.active,
        final(c).input_queue.entries@ == old(c).input_queue.entries@,
        forall|i: int|
            0 <= i < old(c).actors@.len() ==> {
                if controllers@.contains(i as usize) && undecided(old(c).actors@[i]) {
                    chose_move(old(c).actors@[i], final(c).actors@[i], RpsActivity::Rock)
                } else {
                    (#[trigger] final(c).actors@[i]) == old(c).actors@[i]
                }
            },
{
    let ghost c0 = *c;
    let n = c.actors.len();
    let mut k: usize = 0;
    while k < controllers.len()
        invariant
            c.wf(),
            k <= controllers@.len(),
            n == c0.actors@.len(),
            c.actors@.len() == c0.actors@.len(),
            c.tick_state == c0.tick_state,
            c.input_queue.active == c0.input_queue.active,
            c.input_queue.entries@ == c0.input_queue.entries@,
            forall|i: int|
                0 <= i < c0.actors@.len() ==> {
                    ||| (#[trigger] c.actors@[i]) == c0.actors@[i]
                    ||| (controllers@.contains(i as usize) && undecided(c0.actors@[i])
                        && chose_move(c0.actors@[i], c.actors@[i], RpsActivity::Rock))
                },
            forall|kk: int|
                0 <= kk < k ==> !undecided(c.actors@[#[trigger] controllers@[kk] as int]),
        decreases controllers@.len() - k,
    {
        let id = controllers[k];
        let a = &c.actors[id];
        let idle = match a.status {
            Some(StatusTag::Idle) => true,
            _ => false,
        };
        if idle && a.activity.is_none() {
            let ghost c_pre = *c;
            let r = c.assign(id, RpsActivity::Rock);
            proof {
                assert(r is Ok);
                assert(!c_pre.input_queue.entries@.contains(id));
                assert(controllers@[k as int] == id);
                assert(c_pre.actors@[id as int] == c0.actors@[id as int]);
            }
        }
        k += 1;
    }
    proof {
        assert forall|i: int|
            0 <= i < c0.actors@.len() && controllers@.contains(i as usize) && undecided(
                c0.actors@[i],
            ) implies chose_move(c0.actors@[i], c.actors@[i], RpsActivity::Rock) by {
            assert(c0.actors@.len() == n);
            let kk = choose|kk: int|
                0 <= kk < controllers@.len() && #[trigger] controllers@[kk] == i as usize;
            assert(!undecided(c.actors@[controllers@[kk] as int]));
        };
    }
}

/// Decision pass for the random players, run while the coordinator waits in
/// PreTick: every listed actor that still awaits a decision draws a move at
/// random. Listed actors decide for themselves, so they carry no input
/// membership.
#[verifier::loop_isolation(false)]
pub fn process_idle_random_controllers(
    c: &mut TickCoordinator<RpsActivity>,
    controllers: &Vec<usize>,
)
    requires
        old(c).wf(),
        forall|k: int|
            0 <= k < controllers@.len() ==> #[trigger] controllers@[k] < old(c).actors@.len(),
        forall|k: int|
            0 <= k < controllers@.len() ==> old(c).actors@[#[trigger] controllers@[k] as int].input
                is None,
    ensures
        final(c).wf(),
        final(c).actors@.len() == old(c).actors@.len(),
        final(c).tick_state == old(c).tick_state,
        final(c).input_queue.active == old(c).input_queue.active,
        final(c).input_queue.entries@ == old(c).input_queue.entries@,
        forall|i: int|
            0 <= i < old(c).actors@.len() ==> {
                if controllers@.contains(i as usize) && undecided(old(c).actors@[i]) {
                    chose_any_move(old(c).actors@[i], final(c).actors@[i])
                } else {
                    (#[trigger] final(c).actors@[i]) == old(c).actors@[i]
                }
            },
{
    let ghost c0 = *c;
    let n = c.actors.len();
    let mut k: usize = 0;
    while k < controllers.len()
        invariant
            c.wf(),
            k <= controllers@.len(),
            n == c0.actors@.len(),
            c.actors@.len() == c0.actors@.len(),
            c.tick_state == c0.tick_state,
            c.input_queue.active == c0.input_queue.active,
            c.input_queue.entries@ == c0.input_queue.entries@,
            forall|i: int|
                0 <= i < c0.actors@.len() ==> {
                    ||| (#[trigger] c.actors@[i]) == c0.actors@[i]
                    ||| (controllers@.contains(i as usize) && undecided(c0.actors@[i])
                        && chose_any_move(c0.actors@[i], c.actors@[i]))
                },
            forall|kk: int|
                0 <= kk < k ==> !undecided(c.actors@[#[trigger] controllers@[kk] as int]),
        decreases controllers@.len() - k,
    {
        let id = controllers[k];
        let a = &c.actors[id];
        let idle = match a.status {
            Some(StatusTag::Idle) => true,
            _ => false,
        };
        if idle && a.activity.is_none() {
            let mv = random_rps_move();
            let ghost c_pre = *c;
            let r = c.assign(id, mv);
            proof {
                assert(r is Ok);
                assert(!c_pre.input_queue.entries@.contains(id));
                assert(controllers@[k as int] == id);
                assert(c_pre.actors@[id as int] == c0.actors@[id as int]);
                assert(chose_move(c0.actors@[id as int], c.actors@[id as int], mv));
            }
        }
        k += 1;
    }
    proof {
        assert forall|i: int|
            0 <= i < c0.actors@.len() && controllers@.contains(i as usize) && undecided(
                c0.actors@[i],
            ) implies chose_any_move(c0.actors@[i], c.actors@[i]) by {
            assert(c0.actors@.len() == n);
            let kk = choose|kk: int|
                0 <= kk < controllers@.len() && #[trigger] controllers@[kk] == i as usize;
            assert(!undecided(c.actors@[controllers@[kk] as int]));
        };
    }
}

/// The move an actor brings to the current round: its assigned activity, but
/// only while the actor still needs the tick. Everyone else sits the round
/// out.
pub open spec fn rps_move(a: Actor<RpsActivity>) -> Option<RpsActivity> {
    if a.holds(StatusTag::NeedsTick) {
        match a.activity {
            Some(c) => Some(c.0),
            None => None,
        }
    } else {
        None
    }
}

/// The whole actor table's moves for the current round, by actor id.
pub open spec fn moves_of(actors: Seq<Actor<RpsActivity>>) -> Seq<Option<RpsActivity>> {
    actors.map_values(|a: Actor<RpsActivity>| rps_move(a))
}

/// How many participants at positions other than `skip` bring a move that,
/// paired against `mv` as the first player, ends with outcome `o`.
pub open spec fn count_outcomes(
    mv: RpsActivity,
    moves: Seq<Option<RpsActivity>>,
    skip: int,
    o: RpsOutcome,
) -> nat
    decreases moves.len(),
{
    if moves.len() == 0 {
        0
    } else {
        count_outcomes(mv, moves.drop_last(), skip, o) + (if moves.len() - 1 != skip
            && (moves.last() matches Some(m) && outcome_of(mv, m) == o) {
            1nat
        } else {
            0nat
        })
    }
}

/// Tallies one participant's round: how many of the other participants' moves
/// its own move wins against, ties with and loses to.
fn tally_round(mv: RpsActivity, moves: &Vec<Option<RpsActivity>>, me: usize) -> (t: (
    usize,
    usize,
    usize,
))
    ensures
        t.0 == count_outcomes(mv, moves@, me as int, RpsOutcome::Player1Wins),
        t.1 == count_outcomes(mv, moves@, me as int, RpsOutcome::Tie),
        t.2 == count_outcomes(mv, moves@, me as int, RpsOutcome::Player2Wins),
        t.0 <= moves@.len() && t.1 <= moves@.len() && t.2 <= moves@.len(),
{
    let n = moves.len();
    let mut wins: usize = 0;
    let mut ties: usize = 0;
    let mut losses: usize = 0;
    let mut j: usize = 0;
    while j < n
        invariant
            n == moves@.len(),
            j <= n,
            wins == count_outcomes(mv, moves@.subrange(0, j as int), me as int, RpsOutcome::Player1Wins),
            ties == count_outcomes(mv, moves@.subrange(0, j as int), me as int, RpsOutcome::Tie),
            losses == count_outcomes(
                mv,
                moves@.subrange(0, j as int),
                me as int,
                RpsOutcome::Player2Wins,
            ),
            wins <= j && ties <= j && losses <= j,
        decreases n - j,
    {
        let ghost pre = moves@.subrange(0, j as int);
        if j != me {
            match moves[j] {
                Some(other) => {
                    match resolve(mv, other) {
                        RpsOutcome::Player1Wins => {
                            wins += 1;
                        },
                        RpsOutcome::Tie => {
                            ties += 1;
                        },
                        RpsOutcome::Player2Wins => {
                            losses += 1;
                        },
                    }
                },
                None => {},
            }
        }
        j += 1;
        proof {
            let cur = moves@.subrange(0, j as int);
            assert(cur.drop_last() =~= pre);
            assert(cur.last() == moves@[j - 1]);
        }
    }
    proof {
        assert(moves@.subrange(0, n as int) =~= moves@);
    }
    (wins, ties, losses)
}

/// Runs one round of rock-paper-scissors: every participant — each NeedsTick
/// actor with an assigned activity — plays its move against every other
/// participant, its tally takes one win, tie or loss per pairing, and it is
/// marked TickDone. Non-participants, their tallies, the tick state and the
/// round-robin are untouched. `scores` is the per-actor tally table, indexed
/// like the actor table.
#[verifier::loop_isolation(false)]
pub fn do_rps_activities(c: &mut TickCoordinator<RpsActivity>, scores: &mut Vec<ScoreTracker>)
    requires
        old(c).wf(),
        old(scores)@.len() == old(c).actors@.len(),
        forall|i: int|
            0 <= i < old(scores)@.len() ==> {
                &&& (#[trigger] old(scores)@[i]).wins + old(c).actors@.len() <= usize::MAX
                &&& old(scores)@[i].ties + old(c).actors@.len() <= usize::MAX
                &&& old(scores)@[i].losses + old(c).actors@.len() <= usize::MAX
            },
    ensures
        final(c).wf(),
        final(c).actors@.len() == old(c).actors@.len(),
        final(scores)@.len() == old(scores)@.len(),
        final(c).tick_state == old(c).tick_state,
        final(c).input_queue.active == old(c).input_queue.active,
        final(c).input_queue.entries@ == old(c).input_queue.entries@,
        forall|i: int|
            0 <= i < old(c).actors@.len() ==> match rps_move(#[trigger] old(c).actors@[i]) {
                Some(mv) => {
                    &&& same_but_status(
                        old(c).actors@[i],
                        final(c).actors@[i],
                        Some(StatusTag::TickDone),
                    )
                    &&& final(scores)@[i].wins == old(scores)@[i].wins + count_outcomes(
                        mv,
                        moves_of(old(c).actors@),
                        i,
                        RpsOutcome::Player1Wins,
                    )
                    &&& final(scores)@[i].ties == old(scores)@[i].ties + count_outcomes(
                        mv,
                        moves_of(old(c).actors@),
                        i,
                        RpsOutcome::Tie,
                    )
                    &&& final(scores)@[i].losses == old(scores)@[i].losses + count_outcomes(
                        mv,
                        moves_of(old(c).actors@),
                        i,
                        RpsOutcome::Player2Wins,
                    )
                },
                None => final(c).actors@[i] == old(c).actors@[i] && final(scores)@[i] == old(
                    scores,
                )@[i],
            },
{
    let ghost c0 = *c;
    let ghost scores0 = scores@;
    let n = c.actors.len();
    // snapshot every actor's move first, so that tagging participants TickDone
    // mid-round cannot skew later pairings
    let mut moves: Vec<Option<RpsActivity>> = Vec::new();
    let mut i: usize = 0;
    while i < n
        invariant
            n == c.actors@.len(),
            i <= n,
            moves@.len() == i,
            forall|j: int| 0 <= j < i ==> moves@[j] == rps_move(c.actors@[j]),
        decreases n - i,
    {
        let a = &c.actors[i];
        let pending = match a.status {
            Some(StatusTag::NeedsTick) => true,
            _ => false,
        };
        let mv = if pending {
            match &a.activity {
                Some(cur) => Some(cur.0),
                None => None,
            }
        } else {
            None
        };
        moves.push(mv);
        i += 1;
    }
    proof {
        assert(moves@ =~= moves_of(c.actors@));
    }
    let mut i: usize = 0;
    while i < n
        invariant
            c.wf(),
            n == c.actors@.len(),
            n == c0.actors@.len(),
            i <= n,
            scores@.len() == scores0.len(),
            scores0.len() == n,
            c.tick_state == c0.tick_state,
            c.input_queue.active == c0.input_queue.active,
            c.input_queue.entries@ == c0.input_queue.entries@,
            moves@ == moves_of(c0.actors@),
            forall|k: int|
                0 <= k < scores0.len() ==> {
                    &&& (#[trigger] scores0[k]).wins + n <= usize::MAX
                    &&& scores0[k].ties + n <= usize::MAX
                    &&& scores0[k].losses + n <= usize::MAX
                },
            forall|j: int| i <= j < n ==> (#[trigger] c.actors@[j]) == c0.actors@[j],
            forall|j: int| i <= j < n ==> (#[trigger] scores@[j]) == scores0[j],
            forall|j: int|
                0 <= j < i ==> match rps_move(#[trigger] c0.actors@[j]) {
                    Some(mv) => {
                        &&& same_but_status(
                            c0.actors@[j],
                            c.actors@[j],
                            Some(StatusTag::TickDone),
                        )
                        &&& scores@[j].wins == scores0[j].wins + count_outcomes(
                            mv,
                            moves_of(c0.actors@),
                            j,
                            RpsOutcome::Player1Wins,
                        )
                        &&& scores@[j].ties == scores0[j].ties + count_outcomes(
                            mv,
                            moves_of(c0.actors@),
                            j,
                            RpsOutcome::Tie,
                        )
                        &&& scores@[j].losses == scores0[j].losses + count_outcomes(
                            mv,
                            moves_of(c0.actors@),
                            j,
                            RpsOutcome::Player2Wins,
                        )
                    },
                    None => c.actors@[j] == c0.actors@[j] && scores@[j] == scores0[j],
                },
        decreases n - i,
    {
        let mv_opt = moves[i];
        match mv_opt {
            Some(mv) => {
                let (wins, ties, losses) = tally_round(mv, &moves, i);
                proof {
                    assert(rps_move(c0.actors@[i as int]) == Some(mv));
                    assert(c0.actors@[i as int].holds(StatusTag::NeedsTick));
                    assert(scores@[i as int] == scores0[i as int]);
                    assert(scores0[i as int].wins + n <= usize::MAX);
                    assert(scores0[i as int].ties + n <= usize::MAX);
                    assert(scores0[i as int].losses + n <= usize::MAX);
                    assert(wins <= n && ties <= n && losses <= n);
                }
                let ghost scores_pre = scores@;
                let cur = scores.remove(i);
                let tallied = ScoreTracker {
                    wins: cur.wins + wins,
                    ties: cur.ties + ties,
                    losses: cur.losses + losses,
                };
                scores.insert(i, tallied);
                proof {
                    assert(scores@ =~= scores_pre.update(i as int, tallied));
                }
                c.set_tag(i, StatusTag::TickDone);
            },
            None => {},
        }
        i += 1;
    }
}

} // verus!
