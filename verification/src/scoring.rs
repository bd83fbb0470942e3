//! What a roll is worth.

use crate::combination::{
    lemma_face_taken_is_there, lemma_first_combination, lemma_nothing_in_no_dice,
    lemma_same_combination, Combination,
};
use crate::face::{push_all, Value};
use crate::tally::{
    lemma_tally_of_concat, lemma_tally_of_nothing, lemma_tally_total, Counts, Tally,
};
use vstd::prelude::*;

verus! {

/// The worth of a roll: its points, and the dice that earn them.
pub struct Scored {
    pub points: nat,
    pub consumed: Seq<Value>,
}

impl Scored {
    /// This worth, earned by the dice left over after a combination worth
    /// `points` that took the dice `consumed`.
    pub open spec fn after(self, points: nat, consumed: Seq<Value>) -> Scored {
        Scored { points: points + self.points, consumed: consumed + self.consumed }
    }
}

/// The worth of the dice counted in `t`: that of the first combination they
/// hold and, where that combination leaves dice over to be scored, of those
/// dice in their turn.
pub open spec fn best(t: Tally) -> Scored
    decreases t.total(),
    via best_ends
{
    let found = Combination::first(t);
    match found.face_taken() {
        Some(v) => best(t.without(v)).after(found.points(t), found.dice(t)),
        None => Scored { points: found.points(t), consumed: found.dice(t) },
    }
}

/// Scoring ends: every combination that leaves dice over leaves fewer.
#[via_fn]
proof fn best_ends(t: Tally) {
    lemma_face_taken_is_there(t);
}

/// The worth of a roll.
pub open spec fn scoring(dice: Seq<Value>) -> Scored {
    best(Tally::of(dice))
}

/// No die is worth more than 500 points, whatever the combination.
pub proof fn lemma_points_bound(t: Tally)
    ensures
        best(t).points <= 500 * t.total(),
    decreases t.total(),
{
    let found = Combination::first(t);
    lemma_first_combination(t);
    match found.face_taken() {
        Some(v) => {
            lemma_points_bound(t.without(v));
        },
        None => {},
    }
}

/// Scores at most six counted dice.
pub fn score_counts(counts: Counts) -> (result: (usize, Vec<Value>))
    requires
        counts@.total() <= 6,
    ensures
        result.0 == best(counts@).points,
        result.1@ == best(counts@).consumed,
    decreases counts@.total(),
{
    let found = Combination::found_in(&counts);
    let points = found.points_in(&counts);
    let mut consumed = found.dice_in(&counts);
    match found.face_to_take() {
        Some(v) => {
            proof {
                lemma_face_taken_is_there(counts@);
                lemma_points_bound(counts@.without(v));
            }
            let rest = score_counts(counts.without(v));
            push_all(&mut consumed, &rest.1);
            (points + rest.0, consumed)
        },
        None => (points, consumed),
    }
}

/// Scores a roll of at most six dice: the points of the first combination
/// that it holds and of what that combination leaves over, and the dice that
/// earn them, in the order in which they were taken.
pub fn score(dice: &[Value]) -> (result: (usize, Vec<Value>))
    requires
        dice@.len() <= 6,
    ensures
        result.0 == scoring(dice@).points,
        result.1@ == scoring(dice@).consumed,
        result.1@.to_multiset().subset_of(dice@.to_multiset()),
        result.0 <= 3000,
{
    proof {
        lemma_consumed_from_roll(dice@);
        lemma_scoring_range(dice@);
    }
    score_counts(Counts::of(dice))
}

/// The dice taken by a combination of one face together with dice taken of
/// what it leaves over.
proof fn lemma_taken_after(t: Tally, v: Value, head: Seq<Value>, tail: Seq<Value>)
    requires
        0 < t.count(v),
        Tally::of(head) == Tally::only(v, t.count(v)),
        Tally::of(tail).within(t.without(v)),
    ensures
        Tally::of(head + tail) == Tally::only(v, t.count(v)).plus(Tally::of(tail)),
        Tally::of(head + tail).within(t),
        Tally::of(head + tail).count(v) == t.count(v),
        Tally::of(head + tail).without(v) == Tally::of(tail),
        0 < (head + tail).len() <= t.total(),
{
    lemma_tally_of_concat(head, tail);
    lemma_tally_total(head + tail);
}

/// Scoring takes dice that are there: of no face more than are counted.
pub proof fn lemma_consumed_within(t: Tally)
    ensures
        Tally::of(best(t).consumed).within(t),
        best(t).consumed.len() <= t.total(),
    decreases t.total(),
{
    let found = Combination::first(t);
    lemma_first_combination(t);
    match found.face_taken() {
        Some(v) => {
            lemma_consumed_within(t.without(v));
            lemma_taken_after(t, v, found.dice(t), best(t.without(v)).consumed);
        },
        None => {
            lemma_tally_total(found.dice(t));
        },
    }
}

/// Scoring gives points in fifties, and gives none exactly when it takes no
/// die, which is when the dice hold no combination.
pub proof fn lemma_points_and_dice(t: Tally)
    ensures
        best(t).points % 50 == 0,
        best(t).points == 0 <==> best(t).consumed.len() == 0,
        best(t).points == 0 <==> Combination::first(t) is Nothing,
    decreases t.total(),
{
    let found = Combination::first(t);
    lemma_first_combination(t);
    lemma_tally_total(found.dice(t));
    match found.face_taken() {
        Some(v) => {
            lemma_points_and_dice(t.without(v));
        },
        None => {},
    }
}

/// Dice that were taken score again as they did: of at most six dice, the
/// taken ones alone are worth the same points and are all taken again, in
/// the same order.
pub proof fn lemma_best_of_consumed(t: Tally)
    requires
        t.total() <= 6,
    ensures
        best(Tally::of(best(t).consumed)) == best(t),
    decreases t.total(),
{
    let found = Combination::first(t);
    let c = Tally::of(best(t).consumed);
    lemma_first_combination(t);
    match found.face_taken() {
        Some(v) => {
            let rest = t.without(v);
            lemma_best_of_consumed(rest);
            lemma_consumed_within(rest);
            lemma_taken_after(t, v, found.dice(t), best(rest).consumed);
            lemma_same_combination(t, c, v);
        },
        None => {
            if found is Nothing {
                lemma_nothing_again(t);
            } else {
                assert(c == t);
            }
        },
    }
}

/// Dice that hold no combination leave no dice to score again.
proof fn lemma_nothing_again(t: Tally)
    requires
        Combination::first(t) is Nothing,
    ensures
        best(Tally::of(best(t).consumed)) == best(t),
{
    let c = Tally::of(best(t).consumed);
    lemma_points_and_dice(t);
    assert(best(t).consumed =~= Seq::<Value>::empty());
    lemma_tally_total(best(t).consumed);
    lemma_consumed_within(c);
    lemma_points_and_dice(c);
    assert(best(c).consumed =~= Seq::<Value>::empty());
}

/// A combination scores alone as it does in the roll: of at most six dice,
/// the dice that the first combination takes are worth, alone, the points of
/// that combination, and are all taken.
pub proof fn lemma_combination_alone(t: Tally)
    requires
        t.total() <= 6,
    ensures
        best(Tally::of(Combination::first(t).dice(t))) == (Scored {
            points: Combination::first(t).points(t),
            consumed: Combination::first(t).dice(t),
        }),
{
    let found = Combination::first(t);
    let c = Tally::of(found.dice(t));
    lemma_first_combination(t);
    match found.face_taken() {
        Some(v) => {
            lemma_same_combination(t, c, v);
            lemma_tally_of_nothing();
            lemma_points_and_dice(c.without(v));
            lemma_consumed_within(c.without(v));
            assert(best(c.without(v)).consumed =~= Seq::<Value>::empty());
            assert(found.dice(t) + Seq::<Value>::empty() =~= found.dice(t));
        },
        None => {
            if found is Nothing {
                lemma_points_and_dice(c);
                lemma_consumed_within(c);
                lemma_tally_total(found.dice(t));
                assert(best(c).consumed =~= Seq::<Value>::empty());
                assert(found.dice(t) =~= Seq::<Value>::empty());
            } else {
                assert(c == t);
            }
        },
    }
}

/// Scoring takes every die that scores: of at most six dice, those that are
/// not taken hold no combination.
pub proof fn lemma_rest_holds_nothing(t: Tally)
    requires
        t.total() <= 6,
    ensures
        Combination::first(t.minus(Tally::of(best(t).consumed))) is Nothing,
        best(t.minus(Tally::of(best(t).consumed))).points == 0,
    decreases t.total(),
{
    let found = Combination::first(t);
    let c = Tally::of(best(t).consumed);
    lemma_first_combination(t);
    match found.face_taken() {
        Some(v) => {
            // what is left of the roll is what is left of the dice left over
            let rest = t.without(v);
            lemma_rest_holds_nothing(rest);
            lemma_consumed_within(rest);
            lemma_taken_after(t, v, found.dice(t), best(rest).consumed);
            lemma_left_after(t, v, Tally::of(best(rest).consumed));
        },
        None => {
            if found is Nothing {
                // no die was taken
                lemma_none_taken(t, c);
            } else {
                // every die was taken
                assert(t.minus(c) == Tally::empty());
                lemma_nothing_in_no_dice();
            }
            lemma_points_and_dice(t.minus(c));
        },
    }
}

/// Taking away the dice of one face and some of the others leaves what
/// taking away those others leaves of the dice of the other faces.
proof fn lemma_left_after(t: Tally, v: Value, taken: Tally)
    requires
        taken.within(t.without(v)),
    ensures
        t.minus(Tally::only(v, t.count(v)).plus(taken)) == t.without(v).minus(taken),
{
}

/// Taking away no dice leaves all.
proof fn lemma_none_taken(t: Tally, taken: Tally)
    requires
        taken.total() == 0,
    ensures
        t.minus(taken) == t,
{
}

/// Scoring takes its dice from the roll: the dice taken are a sub-multiset
/// of the dice rolled.
pub proof fn lemma_consumed_from_roll(dice: Seq<Value>)
    ensures
        scoring(dice).consumed.to_multiset().subset_of(dice.to_multiset()),
        scoring(dice).consumed.len() <= dice.len(),
{
    let t = Tally::of(dice);
    let c = Tally::of(scoring(dice).consumed);
    lemma_consumed_within(t);
    lemma_tally_total(dice);
    assert forall|v: Value|
        scoring(dice).consumed.to_multiset().count(v) <= dice.to_multiset().count(v) by {
        assert(c.count(v) <= t.count(v));
    }
}

/// The order of the dice in a roll is of no account: two rolls of the same
/// dice are worth the same.
pub proof fn lemma_scoring_ignores_order(a: Seq<Value>, b: Seq<Value>)
    requires
        a.to_multiset() == b.to_multiset(),
    ensures
        scoring(a) == scoring(b),
{
}

/// Scoring the taken dice of a roll of at most six dice alone gives the
/// points of the roll again, and takes all of them.
pub proof fn lemma_scoring_of_consumed(dice: Seq<Value>)
    requires
        dice.len() <= 6,
    ensures
        scoring(scoring(dice).consumed) == scoring(dice),
{
    lemma_tally_total(dice);
    lemma_best_of_consumed(Tally::of(dice));
}

/// A roll is worth at most 500 points a die, in fifties, and is worth nothing
/// exactly when no die of it is taken.
pub proof fn lemma_scoring_range(dice: Seq<Value>)
    ensures
        scoring(dice).points <= 500 * dice.len(),
        scoring(dice).points % 50 == 0,
        scoring(dice).points == 0 <==> scoring(dice).consumed.len() == 0,
{
    lemma_tally_total(dice);
    lemma_points_bound(Tally::of(dice));
    lemma_points_and_dice(Tally::of(dice));
}

/// Scoring takes every die that scores: of a roll of at most six dice, dice
/// that are those of the roll without the taken ones are worth nothing.
pub proof fn lemma_scoring_of_rest(dice: Seq<Value>, rest: Seq<Value>)
    requires
        dice.len() <= 6,
        rest.to_multiset() == dice.to_multiset().sub(scoring(dice).consumed.to_multiset()),
    ensures
        scoring(rest).points == 0,
{
    broadcast use vstd::multiset::group_multiset_axioms;

    let rolled = dice.to_multiset();
    let taken = scoring(dice).consumed.to_multiset();
    lemma_tally_total(dice);
    lemma_consumed_from_roll(dice);
    lemma_rest_holds_nothing(Tally::of(dice));
    assert forall|v: Value|
        rest.to_multiset().count(v) == (rolled.count(v) - taken.count(v)) as nat by {
        assert(rolled.sub(taken).count(v) == (rolled.count(v) - taken.count(v)) as nat);
    }
    assert(Tally::of(rest) == Tally::of(dice).minus(Tally::of(scoring(dice).consumed)));
}

} // verus!
