//! Two players that never stop rolling.
//!
//! A strategy is shown the state of the turn after a roll that scores and
//! says which of the dice that score it reserves. Reserving none would end
//! the turn and bank the points; these two always reserve some.

use crate::face::Value;
use crate::tally::{lemma_tally_of_nothing, lemma_tally_of_push, Counts, Tally};
use crate::turn::{Offer, StateRolled};
use vstd::prelude::*;

verus! {

/// The test that a die shows another face than `v`.
pub open spec fn other_than(v: Value) -> spec_fn(Value) -> bool {
    |d: Value| d != v
}

/// The dice of `dice` that do not show `v`, in their order.
pub open spec fn without_face(dice: Seq<Value>, v: Value) -> Seq<Value> {
    dice.filter(other_than(v))
}

/// Taking the dice of one face away from a roll takes them from its tally,
/// and nothing else.
pub proof fn lemma_tally_without_face(dice: Seq<Value>, v: Value)
    ensures
        Tally::of(without_face(dice, v)) == Tally::of(dice).without(v),
        without_face(dice, v).len() + Tally::of(dice).count(v) == dice.len(),
    decreases dice.len(),
{
    let keep = other_than(v);
    if dice.len() == 0 {
        assert(dice =~= Seq::<Value>::empty());
        assert(dice.filter(keep) =~= Seq::<Value>::empty());
        lemma_tally_of_nothing();
    } else {
        let front = dice.drop_last();
        let last = dice.last();
        assert(front.push(last) =~= dice);
        lemma_tally_without_face(front, v);
        front.lemma_filter_push(last, keep);
        lemma_tally_of_push(front, last);
        if last != v {
            lemma_tally_of_push(front.filter(keep), last);
        }
    }
}

/// The choice of the player who reserves every die that scores.
pub open spec fn all_push_luck(shown: Offer) -> Seq<Value> {
    shown.scorable
}

/// The choice of the player who reserves most dice that score, but not all:
///
/// - every die, where every die of the roll scores, for all six may then be
///   rolled again;
/// - else, all but the twos, where three twos score along with other dice;
/// - else, all but the fives, where more than three dice were rolled, fewer
///   than three fives score, and other dice score beside them;
/// - else every die.
pub open spec fn some_push_luck(shown: Offer) -> Seq<Value> {
    let scorable = shown.scorable;
    let held = Tally::of(scorable);
    if scorable.len() == shown.rolled {
        scorable
    } else if held.twos == 3 && scorable.len() > 3 {
        without_face(scorable, Value::Two)
    } else if held.fives < 3 && scorable.len() > held.fives && shown.rolled > 3 {
        without_face(scorable, Value::Five)
    } else {
        scorable
    }
}

/// The dice of `dice` that do not show `v`, in their order.
fn dice_without(dice: &Vec<Value>, v: Value) -> (rest: Vec<Value>)
    ensures
        rest@ == without_face(dice@, v),
{
    let ghost keep = other_than(v);
    let mut rest: Vec<Value> = Vec::new();
    let mut i: usize = 0;
    proof {
        dice@.take(0).lemma_filter_len(keep);
    }
    while i < dice.len()
        invariant
            i <= dice.len(),
            keep == other_than(v),
            rest@ == dice@.take(i as int).filter(keep),
        decreases dice.len() - i,
    {
        proof {
            dice@.take(i as int).lemma_filter_push(dice@[i as int], keep);
            assert(dice@.take(i as int).push(dice@[i as int]) =~= dice@.take(i + 1));
        }
        if dice[i] != v {
            rest.push(dice[i]);
        }
        i = i + 1;
    }
    proof {
        assert(dice@.take(dice@.len() as int) =~= dice@);
    }
    rest
}

/// Reserves every die that scores, and so never stops rolling.
pub fn reserve_all_push_luck(state: &StateRolled) -> (reserved: Vec<Value>)
    ensures
        reserved@ == all_push_luck(state@),
        reserved@.to_multiset().subset_of(state.scorable@.to_multiset()),
        reserved@.len() == state.scorable@.len(),
{
    state.scorable.clone()
}

/// Reserves most dice that score, but not all, and never stops rolling.
pub fn reserve_some_push_luck(state: &StateRolled) -> (reserved: Vec<Value>)
    ensures
        reserved@ == some_push_luck(state@),
        reserved@.to_multiset().subset_of(state.scorable@.to_multiset()),
        reserved@.len() <= state.scorable@.len(),
        state.scorable@.len() > 0 ==> reserved@.len() > 0,
{
    let held = Counts::of(state.scorable.as_slice());
    proof {
        lemma_tally_without_face(state.scorable@, Value::Two);
        lemma_tally_without_face(state.scorable@, Value::Five);
    }
    if state.scorable.len() == state.rolled {
        return reserve_all_push_luck(state);
    }
    if held.twos == 3 && state.scorable.len() > 3 {
        return dice_without(&state.scorable, Value::Two);
    }
    if held.fives < 3 && state.scorable.len() > held.fives && state.rolled > 3 {
        return dice_without(&state.scorable, Value::Five);
    }
    reserve_all_push_luck(state)
}

} // verus!
