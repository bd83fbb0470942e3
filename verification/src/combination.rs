//! The combinations that score.
//!
//! The rules try the combinations in a fixed order and take the first that
//! the dice hold. Some combinations take the whole roll; after the others,
//! which take the dice of one face, the dice left over are scored in their
//! turn.

use crate::face::{all_faces, push_all, push_copies, repeat, Value};
use crate::tally::{
    lemma_tally_of_concat, lemma_tally_of_faces_with, lemma_tally_of_nothing,
    lemma_tally_of_push, lemma_tally_of_repeat, one_if, Counts, Tally,
};
use vstd::prelude::*;

verus! {

/// The points for three dice that show `v`.
pub open spec fn triple_value(v: Value) -> nat {
    match v {
        Value::One => 300,
        Value::Two => 200,
        Value::Three => 300,
        Value::Four => 400,
        Value::Five => 500,
        Value::Six => 600,
    }
}

/// The points for three dice that show `v`.
pub fn triple_points(v: Value) -> (points: usize)
    ensures
        points == triple_value(v),
{
    match v {
        Value::One => 300,
        Value::Two => 200,
        Value::Three => 300,
        Value::Four => 400,
        Value::Five => 500,
        Value::Six => 600,
    }
}

/// The combinations that score, in the order in which the rules try them.
#[derive(Clone, Copy, Debug, PartialEq, Eq)]
pub enum Combination {
    /// Six dice of one face: 3000 points.
    SixOfAKind(Value),
    /// Two faces on three dice each: 2500 points.
    TwoTriples,
    /// Every face on one die: 2500 points.
    Straight,
    /// Five dice of one face: 2000 points, and the die left over is scored.
    FiveOfAKind(Value),
    /// Three faces on two dice each: 1500 points.
    ThreePairs,
    /// Four dice of one face and two of another: 1500 points.
    FourAndPair(Value, Value),
    /// Four dice of one face: 2000 points, and the dice left over are scored.
    FourOfAKind(Value),
    /// Three dice of one face: the face's triple value, and the dice left
    /// over are scored.
    ThreeOfAKind(Value),
    /// The ones: 100 points each, and the dice left over are scored.
    Ones,
    /// The fives: 50 points each, and the dice left over are scored.
    Fives,
    /// No combination: no points.
    Nothing,
}

impl Combination {
    /// The first combination, in the order of the rules, that the dice
    /// counted in `t` hold.
    #[verifier::opaque]
    pub open spec fn first(t: Tally) -> Combination {
        if t.first_with(6) is Some {
            Combination::SixOfAKind(t.first_with(6).unwrap())
        } else if t.how_many(3) == 2 {
            Combination::TwoTriples
        } else if t.is_straight() {
            Combination::Straight
        } else if t.first_with(5) is Some {
            Combination::FiveOfAKind(t.first_with(5).unwrap())
        } else if t.how_many(2) == 3 {
            Combination::ThreePairs
        } else if t.first_with(4) is Some && t.first_with(2) is Some {
            Combination::FourAndPair(t.first_with(4).unwrap(), t.first_with(2).unwrap())
        } else if t.first_with(4) is Some {
            Combination::FourOfAKind(t.first_with(4).unwrap())
        } else if t.first_with(3) is Some {
            Combination::ThreeOfAKind(t.first_with(3).unwrap())
        } else if t.ones > 0 {
            Combination::Ones
        } else if t.fives > 0 {
            Combination::Fives
        } else {
            Combination::Nothing
        }
    }

    /// The points that the combination is worth among the dice counted in `t`.
    pub open spec fn points(self, t: Tally) -> nat {
        match self {
            Combination::SixOfAKind(_) => 3000,
            Combination::TwoTriples => 2500,
            Combination::Straight => 2500,
            Combination::FiveOfAKind(_) => 2000,
            Combination::ThreePairs => 1500,
            Combination::FourAndPair(_, _) => 1500,
            Combination::FourOfAKind(_) => 2000,
            Combination::ThreeOfAKind(v) => triple_value(v),
            Combination::Ones => 100 * t.ones,
            Combination::Fives => 50 * t.fives,
            Combination::Nothing => 0,
        }
    }

    /// The dice that the combination takes of those counted in `t`, in the
    /// order in which scoring hands them out.
    #[verifier::opaque]
    pub open spec fn dice(self, t: Tally) -> Seq<Value> {
        match self {
            Combination::SixOfAKind(v) => repeat(v, 6),
            Combination::TwoTriples => t.faces_with(3) + t.faces_with(3) + t.faces_with(3),
            Combination::Straight => all_faces(),
            Combination::FiveOfAKind(v) => repeat(v, 5),
            Combination::ThreePairs => t.faces_with(2) + t.faces_with(2),
            Combination::FourAndPair(v, w) => repeat(v, 4) + repeat(w, 2),
            Combination::FourOfAKind(v) => repeat(v, 4),
            Combination::ThreeOfAKind(v) => repeat(v, 3),
            Combination::Ones => repeat(Value::One, t.ones),
            Combination::Fives => repeat(Value::Five, t.fives),
            Combination::Nothing => Seq::empty(),
        }
    }

    /// For a combination after which the dice left over are scored: the face
    /// whose dice it takes. The other combinations end the scoring.
    pub open spec fn face_taken(self) -> Option<Value> {
        match self {
            Combination::FiveOfAKind(v) => Some(v),
            Combination::FourOfAKind(v) => Some(v),
            Combination::ThreeOfAKind(v) => Some(v),
            Combination::Ones => Some(Value::One),
            Combination::Fives => Some(Value::Five),
            _ => None,
        }
    }
}

impl Combination {
    /// Finds the first combination, in the order of the rules, among counted
    /// dice.
    pub fn found_in(counts: &Counts) -> (found: Combination)
        ensures
            found == Combination::first(counts@),
    {
        proof {
            reveal(Combination::first);
        }
        if let Some(v) = counts.first_with(6) {
            return Combination::SixOfAKind(v);
        }
        if counts.how_many(3) == 2 {
            return Combination::TwoTriples;
        }
        if counts.is_straight() {
            return Combination::Straight;
        }
        if let Some(v) = counts.first_with(5) {
            return Combination::FiveOfAKind(v);
        }
        if counts.how_many(2) == 3 {
            return Combination::ThreePairs;
        }
        if let Some(v) = counts.first_with(4) {
            if let Some(w) = counts.first_with(2) {
                return Combination::FourAndPair(v, w);
            }
            return Combination::FourOfAKind(v);
        }
        if let Some(v) = counts.first_with(3) {
            return Combination::ThreeOfAKind(v);
        }
        if counts.ones > 0 {
            return Combination::Ones;
        }
        if counts.fives > 0 {
            return Combination::Fives;
        }
        Combination::Nothing
    }

    /// The points that the combination is worth among at most six counted
    /// dice.
    pub fn points_in(&self, counts: &Counts) -> (points: usize)
        requires
            counts@.total() <= 6,
        ensures
            points == self.points(counts@),
    {
        match self {
            Combination::SixOfAKind(_) => 3000,
            Combination::TwoTriples => 2500,
            Combination::Straight => 2500,
            Combination::FiveOfAKind(_) => 2000,
            Combination::ThreePairs => 1500,
            Combination::FourAndPair(_, _) => 1500,
            Combination::FourOfAKind(_) => 2000,
            Combination::ThreeOfAKind(v) => triple_points(*v),
            Combination::Ones => 100 * counts.ones,
            Combination::Fives => 50 * counts.fives,
            Combination::Nothing => 0,
        }
    }

    /// The dice that the combination takes of the counted ones, in the order
    /// in which scoring hands them out.
    pub fn dice_in(&self, counts: &Counts) -> (dice: Vec<Value>)
        ensures
            dice@ == self.dice(counts@),
    {
        proof {
            reveal(Combination::dice);
        }
        let mut dice: Vec<Value> = Vec::new();
        match self {
            Combination::SixOfAKind(v) => {
                push_copies(&mut dice, *v, 6);
            },
            Combination::TwoTriples => {
                let triples = counts.faces_with(3);
                push_all(&mut dice, &triples);
                push_all(&mut dice, &triples);
                push_all(&mut dice, &triples);
            },
            Combination::Straight => {
                dice.push(Value::One);
                dice.push(Value::Two);
                dice.push(Value::Three);
                dice.push(Value::Four);
                dice.push(Value::Five);
                dice.push(Value::Six);
                assert(dice@ =~= all_faces());
            },
            Combination::FiveOfAKind(v) => {
                push_copies(&mut dice, *v, 5);
            },
            Combination::ThreePairs => {
                let pairs = counts.faces_with(2);
                push_all(&mut dice, &pairs);
                push_all(&mut dice, &pairs);
            },
            Combination::FourAndPair(v, w) => {
                push_copies(&mut dice, *v, 4);
                push_copies(&mut dice, *w, 2);
            },
            Combination::FourOfAKind(v) => {
                push_copies(&mut dice, *v, 4);
            },
            Combination::ThreeOfAKind(v) => {
                push_copies(&mut dice, *v, 3);
            },
            Combination::Ones => {
                push_copies(&mut dice, Value::One, counts.ones);
            },
            Combination::Fives => {
                push_copies(&mut dice, Value::Five, counts.fives);
            },
            Combination::Nothing => {},
        }
        dice
    }

    /// For a combination after which the dice left over are scored: the face
    /// whose dice it takes.
    pub fn face_to_take(&self) -> (face: Option<Value>)
        ensures
            face == self.face_taken(),
    {
        match self {
            Combination::FiveOfAKind(v) => Some(*v),
            Combination::FourOfAKind(v) => Some(*v),
            Combination::ThreeOfAKind(v) => Some(*v),
            Combination::Ones => Some(Value::One),
            Combination::Fives => Some(Value::Five),
            _ => None,
        }
    }
}

/// A combination that leaves dice over takes at least one die.
pub proof fn lemma_face_taken_is_there(t: Tally)
    ensures
        Combination::first(t).face_taken() matches Some(v) ==> 0 < t.count(v),
{
    reveal(Combination::first);
}

/// No dice hold no combination.
pub proof fn lemma_nothing_in_no_dice()
    ensures
        Combination::first(Tally::empty()) is Nothing,
{
    reveal(Combination::first);
}

/// What a combination may be said to take and give among the dice counted
/// in `t`: it takes dice that are there, all of one face where the dice left
/// over are scored, and gives at most 500 points for a die.
pub open spec fn fair(found: Combination, t: Tally) -> bool {
    let taken = Tally::of(found.dice(t));
    &&& taken.within(t)
    &&& found.points(t) <= 500 * taken.total()
    &&& found.points(t) % 50 == 0
    &&& found is Nothing <==> found.points(t) == 0
    &&& found is Nothing <==> taken.total() == 0
    &&& found.face_taken() matches Some(v) ==> 0 < t.count(v) && taken == Tally::only(
        v,
        t.count(v),
    )
    &&& found.face_taken() is None && t.total() <= 6 && !(found is Nothing) ==> taken == t
}

/// The combinations made of dice of one face are fair.
proof fn lemma_fair_of_a_kind(t: Tally, v: Value, n: nat)
    requires
        t.count(v) == n,
        0 < n,
    ensures
        Tally::of(repeat(v, n)) == Tally::only(v, n),
        Tally::only(v, n).within(t),
        Tally::only(v, n).total() == n,
        t.total() <= n ==> Tally::only(v, n) == t,
{
    lemma_tally_of_repeat(v, n);
}

/// Two triples are fair.
proof fn lemma_fair_two_triples(t: Tally)
    requires
        t.how_many(3) == 2,
    ensures
        fair(Combination::TwoTriples, t),
{
    reveal(Combination::dice);
    let triples = t.faces_with(3);
    lemma_tally_of_faces_with(t, 3);
    lemma_tally_of_concat(triples, triples);
    lemma_tally_of_concat(triples + triples, triples);
    let one = t.one_each(3);
    assert(Tally::of(triples + triples + triples) == one.plus(one).plus(one));
}

/// A straight is fair.
proof fn lemma_fair_straight(t: Tally)
    requires
        t.is_straight(),
    ensures
        fair(Combination::Straight, t),
{
    reveal(Combination::dice);
    let none = Seq::<Value>::empty();
    lemma_tally_of_nothing();
    lemma_tally_of_push(none, Value::One);
    lemma_tally_of_push(none.push(Value::One), Value::Two);
    lemma_tally_of_push(none.push(Value::One).push(Value::Two), Value::Three);
    lemma_tally_of_push(none.push(Value::One).push(Value::Two).push(Value::Three), Value::Four);
    lemma_tally_of_push(
        none.push(Value::One).push(Value::Two).push(Value::Three).push(Value::Four),
        Value::Five,
    );
    lemma_tally_of_push(
        none.push(Value::One).push(Value::Two).push(Value::Three).push(Value::Four).push(
            Value::Five,
        ),
        Value::Six,
    );
    assert(all_faces() =~= none.push(Value::One).push(Value::Two).push(Value::Three).push(
        Value::Four,
    ).push(Value::Five).push(Value::Six));
}

/// Three pairs are fair.
proof fn lemma_fair_three_pairs(t: Tally)
    requires
        t.how_many(2) == 3,
    ensures
        fair(Combination::ThreePairs, t),
{
    reveal(Combination::dice);
    let pairs = t.faces_with(2);
    lemma_tally_of_faces_with(t, 2);
    lemma_tally_of_concat(pairs, pairs);
    let one = t.one_each(2);
    assert(Tally::of(pairs + pairs) == one.plus(one));
}

/// Four of a kind and a pair are fair.
proof fn lemma_fair_four_and_pair(t: Tally, v: Value, w: Value)
    requires
        t.count(v) == 4,
        t.count(w) == 2,
    ensures
        fair(Combination::FourAndPair(v, w), t),
{
    reveal(Combination::dice);
    lemma_tally_of_repeat(v, 4);
    lemma_tally_of_repeat(w, 2);
    lemma_tally_of_concat(repeat(v, 4), repeat(w, 2));
    assert(Tally::of(repeat(v, 4) + repeat(w, 2)) == Tally::only(v, 4).plus(Tally::only(w, 2)));
}

/// The first combination that dice hold is fair.
pub proof fn lemma_first_combination(t: Tally)
    ensures
        fair(Combination::first(t), t),
{
    reveal(Combination::first);
    reveal(Combination::dice);
    match Combination::first(t) {
        Combination::SixOfAKind(v) => {
            lemma_fair_of_a_kind(t, v, 6);
        },
        Combination::TwoTriples => {
            lemma_fair_two_triples(t);
        },
        Combination::Straight => {
            lemma_fair_straight(t);
        },
        Combination::FiveOfAKind(v) => {
            lemma_fair_of_a_kind(t, v, 5);
        },
        Combination::ThreePairs => {
            lemma_fair_three_pairs(t);
        },
        Combination::FourAndPair(v, w) => {
            lemma_fair_four_and_pair(t, v, w);
        },
        Combination::FourOfAKind(v) => {
            lemma_fair_of_a_kind(t, v, 4);
        },
        Combination::ThreeOfAKind(v) => {
            lemma_fair_of_a_kind(t, v, 3);
        },
        Combination::Ones => {
            lemma_fair_of_a_kind(t, Value::One, t.ones);
        },
        Combination::Fives => {
            lemma_fair_of_a_kind(t, Value::Five, t.fives);
        },
        Combination::Nothing => {
            lemma_tally_of_nothing();
        },
    }
}

/// Among at most six dice, five of a kind are found again when some of the
/// other dice are taken away.
proof fn lemma_same_five(t: Tally, c: Tally, v: Value)
    requires
        t.total() <= 6,
        c.within(t),
        t.count(v) == 5,
        c.count(v) == 5,
    ensures
        c.first_with(6) is None,
        c.how_many(3) == 0,
        !c.is_straight(),
        c.first_with(5) == Some(v),
{
}

/// Among at most six dice, four of a kind without a pair are found again
/// when some of the other dice are taken away.
proof fn lemma_same_four(t: Tally, c: Tally, v: Value)
    requires
        t.total() <= 6,
        c.within(t),
        t.count(v) == 4,
        c.count(v) == 4,
        t.first_with(2) is None,
    ensures
        c.first_with(6) is None,
        c.first_with(5) is None,
        c.how_many(3) == 0,
        !c.is_straight(),
        c.how_many(2) == 0,
        c.first_with(2) is None,
        c.first_with(4) == Some(v),
{
}

/// Among at most six dice, a single triple is found again when some of the
/// other dice are taken away.
proof fn lemma_same_three(t: Tally, c: Tally, v: Value)
    requires
        t.total() <= 6,
        c.within(t),
        t.count(v) == 3,
        c.count(v) == 3,
        t.how_many(3) == 1,
    ensures
        c.first_with(6) is None,
        c.first_with(5) is None,
        c.first_with(4) is None,
        c.how_many(3) == 1,
        !c.is_straight(),
        c.how_many(2) <= 1,
        c.first_with(3) == Some(v),
{
}

/// Dice of which no face shows on more than two hold no combination of three
/// dice or more of a face.
proof fn lemma_low_counts(c: Tally)
    requires
        c.ones <= 2,
        c.twos <= 2,
        c.threes <= 2,
        c.fours <= 2,
        c.fives <= 2,
        c.sixes <= 2,
    ensures
        c.first_with(6) is None,
        c.first_with(5) is None,
        c.first_with(4) is None,
        c.first_with(3) is None,
        c.how_many(3) == 0,
{
}

/// Fewer dice of no face hold no combination of three dice or more of a
/// face, no straight and no three pairs, where the at most six dice they
/// are taken from hold none.
proof fn lemma_same_singles(t: Tally, c: Tally)
    requires
        c.within(t),
        t.first_with(6) is None,
        t.first_with(5) is None,
        t.first_with(4) is None,
        t.first_with(3) is None,
        !t.is_straight(),
        t.how_many(2) != 3,
        t.total() <= 6,
    ensures
        c.first_with(6) is None,
        c.first_with(5) is None,
        c.first_with(4) is None,
        c.first_with(3) is None,
        c.how_many(3) == 0,
        !c.is_straight(),
        c.how_many(2) != 3,
{
    // no face shows on more than two dice
    assert(t.ones <= 2 && t.twos <= 2 && t.threes <= 2);
    assert(t.fours <= 2 && t.fives <= 2 && t.sixes <= 2);
    lemma_low_counts(c);
    if c.how_many(2) == 3 {
        // three pairs are six dice, so no die was taken away
        lemma_three_pairs_are_six(c);
        assert(c == t);
    }
}

/// Three pairs are six dice at least.
proof fn lemma_three_pairs_are_six(c: Tally)
    requires
        c.how_many(2) == 3,
    ensures
        c.total() >= 6,
{
    assert(c.ones >= 2 * one_if(c.ones == 2));
    assert(c.twos >= 2 * one_if(c.twos == 2));
    assert(c.threes >= 2 * one_if(c.threes == 2));
    assert(c.fours >= 2 * one_if(c.fours == 2));
    assert(c.fives >= 2 * one_if(c.fives == 2));
    assert(c.sixes >= 2 * one_if(c.sixes == 2));
}

/// A combination that leaves dice over is worth the same, and takes the same
/// dice, wherever as many dice show its face.
proof fn lemma_same_worth(found: Combination, t: Tally, c: Tally, v: Value)
    requires
        found.face_taken() == Some(v),
        c.count(v) == t.count(v),
    ensures
        found.points(c) == found.points(t),
        found.dice(c) == found.dice(t),
{
    reveal(Combination::dice);
}

/// Among at most six dice, a combination that leaves dice over is found
/// again when some of those other dice are taken away.
pub proof fn lemma_same_combination(t: Tally, c: Tally, v: Value)
    requires
        t.total() <= 6,
        c.within(t),
        Combination::first(t).face_taken() == Some(v),
        c.count(v) == t.count(v),
    ensures
        Combination::first(c) == Combination::first(t),
        Combination::first(c).points(c) == Combination::first(t).points(t),
        Combination::first(c).dice(c) == Combination::first(t).dice(t),
{
    lemma_same_worth(Combination::first(t), t, c, v);
    reveal(Combination::first);
    match Combination::first(t) {
        Combination::FiveOfAKind(_) => {
            lemma_same_five(t, c, v);
        },
        Combination::FourOfAKind(_) => {
            lemma_same_four(t, c, v);
        },
        Combination::ThreeOfAKind(_) => {
            assert(t.how_many(3) == 1);
            lemma_same_three(t, c, v);
        },
        Combination::Ones => {
            lemma_same_singles(t, c);
        },
        Combination::Fives => {
            lemma_same_singles(t, c);
        },
        _ => {},
    }
}

} // verus!
