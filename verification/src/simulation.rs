//! Playing many turns to see how far a player gets before a bust.

use crate::face::Value;
use crate::rolling::thread_rng;
use crate::scoring::{lemma_scoring_range, scoring};
use crate::strategy::{reserve_all_push_luck, reserve_some_push_luck};
use crate::turn::{follows, sound, step, StateRolled, StateUnrolled};
use vstd::prelude::*;

verus! {

/// How far a turn that banks nothing is from its end: a bust ends it, and so
/// does the limit, which each roll that scores brings nearer.
pub open spec fn rounds_left(state: StateUnrolled) -> nat {
    if state.score_at_risk == 0 {
        0
    } else {
        (usize::MAX - state.score_at_risk + 1) as nat
    }
}

/// What one round does to a turn that banks nothing and is played by a
/// player who reserves dice that score: the points at risk are lost or grow,
/// and stay in fifties.
proof fn lemma_round_played<F: Fn(&StateRolled) -> Vec<Value>>(
    state: StateUnrolled,
    strategy: F,
    next: StateUnrolled,
)
    requires
        state.score == 0,
        state.score_at_risk % 50 == 0,
        exists|rolled: Seq<Value>| #[trigger] follows(state, strategy, rolled, next),
        forall|shown: StateRolled, reserved: Vec<Value>|
            shown.well_formed() && #[trigger] call_ensures(strategy, (&shown,), reserved)
                ==> reserved@.len() > 0 && (state.score_at_risk > 0 ==> scoring(
                reserved@,
            ).points > 0),
    ensures
        next.score == 0,
        next.score_at_risk % 50 == 0,
        next.score_at_risk == 0 || state.score_at_risk == 0 || next.score_at_risk
            > state.score_at_risk,
{
    let rolled = choose|rolled: Seq<Value>| #[trigger] follows(state, strategy, rolled, next);
    if scoring(rolled).points != 0 {
        let (shown, reserved) = choose|shown: StateRolled, reserved: Vec<Value>|
            {
                &&& #[trigger] call_ensures(strategy, (&shown,), reserved)
                &&& shown.well_formed()
                &&& shown@ == state@.offer(rolled)
                &&& next@ == state@.after(rolled, reserved@)
            };
        lemma_scoring_range(reserved@);
    }
}

/// Plays `count` turns and tells, for each, the most points that were at
/// risk in it before it ended.
///
/// The first roll of a turn is played by the player who reserves some of the
/// dice that score, every later roll by the one who reserves all of them.
/// Neither ever banks, so a turn ends in a bust. It also ends, as if in a
/// bust, once the points at risk leave no room in a `usize` for the 3000
/// points that one more roll may be worth.
pub fn samples(count: usize) -> (turns: Vec<usize>)
    ensures
        turns@.len() == count,
        forall|i: int| 0 <= i < turns@.len() ==> turns@[i] % 50 == 0,
{
    let mut rng = thread_rng();
    let mut left = count;
    let mut state = StateUnrolled::default();
    let mut turns: Vec<usize> = Vec::with_capacity(count);
    while left > 0
        invariant
            turns@.len() + left == count,
            forall|i: int| 0 <= i < turns@.len() ==> turns@[i] % 50 == 0,
            state.dice_left <= 6,
            state.score_at_risk == 0,
            state.score == 0,
        decreases left,
    {
        let mut max: usize = 0;
        let ghost before = state;
        state = step(state, reserve_some_push_luck, &mut rng);
        proof {
            lemma_round_played(before, reserve_some_push_luck, state);
        }
        while state.score_at_risk > 0
            invariant
                state.dice_left <= 6,
                state.score == 0,
                state.score_at_risk % 50 == 0,
                max % 50 == 0,
            decreases rounds_left(state),
        {
            max = state.score_at_risk;
            if state.score_at_risk > usize::MAX - 3000 {
                state = StateUnrolled { dice_left: 6, score_at_risk: 0, score: state.score };
            } else {
                let ghost before = state;
                state = step(state, reserve_all_push_luck, &mut rng);
                proof {
                    lemma_round_played(before, reserve_all_push_luck, state);
                }
            }
        }
        turns.push(max);
        left = left - 1;
    }
    turns
}

} // verus!
