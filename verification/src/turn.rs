//! The progress of a turn.
//!
//! A turn goes from roll to roll. Each roll is scored. A roll worth nothing
//! is a bust: the points at risk are lost and the turn is over. Otherwise the
//! player's strategy is shown the dice that score and says which of them to
//! reserve. With none reserved the points at risk are banked and the turn is
//! over; else the reserved dice are scored, their points are put at risk,
//! and the dice that are left are rolled next. When all rolled dice were
//! reserved, all six are rolled again.

use crate::face::Value;
use crate::rolling::{roll_dice, roll_from};
use crate::scoring::{
    lemma_consumed_from_roll, lemma_scoring_of_consumed, lemma_scoring_range, score, scoring,
};
use crate::tally::{lemma_tally_total, Tally};
use rand::rngs::ThreadRng;
use vstd::prelude::*;

verus! {

/// A turn between two rolls, as the rules see it.
pub struct Turn {
    /// The number of dice to roll next.
    pub dice_left: nat,
    /// The points that a bust would lose.
    pub at_risk: nat,
    /// The points that are safe.
    pub banked: nat,
}

/// What a strategy is shown after a roll that scores.
pub struct Offer {
    /// The number of dice that were rolled.
    pub rolled: nat,
    /// The dice of the roll that score.
    pub scorable: Seq<Value>,
    /// The points at risk, those of this roll among them.
    pub at_risk: nat,
    /// The points that are safe.
    pub banked: nat,
}

impl Turn {
    /// A turn at its start: six dice to roll and nothing at risk.
    pub open spec fn fresh(banked: nat) -> Turn {
        Turn { dice_left: 6, at_risk: 0, banked }
    }

    /// The turn after a bust: the points at risk are lost.
    pub open spec fn bust(self) -> Turn {
        Turn::fresh(self.banked)
    }

    /// The turn after the player stopped on a roll worth `round` points: all
    /// points at risk are banked.
    pub open spec fn bank(self, round: nat) -> Turn {
        Turn::fresh(self.banked + self.at_risk + round)
    }

    /// The turn after the player reserved the dice `reserved` of the roll:
    /// their points are put at risk and the other dice are rolled next, or
    /// all six where none is left.
    pub open spec fn reserve(self, reserved: Seq<Value>) -> Turn {
        Turn {
            dice_left: if reserved.len() < self.dice_left {
                (self.dice_left - reserved.len()) as nat
            } else {
                6
            },
            at_risk: self.at_risk + scoring(reserved).points,
            banked: self.banked,
        }
    }

    /// What the strategy is shown when the dice `rolled` have come.
    pub open spec fn offer(self, rolled: Seq<Value>) -> Offer {
        Offer {
            rolled: rolled.len(),
            scorable: scoring(rolled).consumed,
            at_risk: self.at_risk + scoring(rolled).points,
            banked: self.banked,
        }
    }

    /// The turn after the dice `rolled` have come and, where they score, the
    /// strategy has chosen `reserved`.
    pub open spec fn after(self, rolled: Seq<Value>, reserved: Seq<Value>) -> Turn {
        if scoring(rolled).points == 0 {
            self.bust()
        } else if reserved.len() == 0 {
            self.bank(scoring(rolled).points)
        } else {
            self.reserve(reserved)
        }
    }
}

/// The state of a turn between two rolls.
#[derive(Clone, Debug, PartialEq, Eq)]
pub struct StateUnrolled {
    pub dice_left: usize,
    pub score_at_risk: usize,
    pub score: usize,
}

/// The state of a turn after a roll that scores, as the strategy is shown it.
#[derive(Clone, Debug, PartialEq, Eq)]
pub struct StateRolled {
    pub rolled: usize,
    pub scorable: Vec<Value>,
    pub score_at_risk: usize,
    pub score: usize,
}

impl View for StateUnrolled {
    type V = Turn;

    open spec fn view(&self) -> Turn {
        Turn {
            dice_left: self.dice_left as nat,
            at_risk: self.score_at_risk as nat,
            banked: self.score as nat,
        }
    }
}

impl View for StateRolled {
    type V = Offer;

    open spec fn view(&self) -> Offer {
        Offer {
            rolled: self.rolled as nat,
            scorable: self.scorable@,
            at_risk: self.score_at_risk as nat,
            banked: self.score as nat,
        }
    }
}

impl Default for StateUnrolled {
    /// The first turn of a game: six dice to roll, nothing at risk, nothing
    /// banked.
    fn default() -> (state: StateUnrolled)
        ensures
            state@ == Turn::fresh(0),
    {
        StateUnrolled { dice_left: 6, score_at_risk: 0, score: 0 }
    }
}

impl StateUnrolled {
    /// A turn that can be played: at most six dice to roll, and points that
    /// leave room for those of one more roll.
    pub open spec fn playable(&self) -> bool {
        &&& self.dice_left <= 6
        &&& self.score + self.score_at_risk + 3000 <= usize::MAX
    }
}

impl StateRolled {
    /// What holds of every state that a strategy is shown: at most six dice
    /// were rolled; some of them score; the dice shown are those that score,
    /// in the order in which scoring takes them; and their points are among
    /// those at risk.
    pub open spec fn well_formed(&self) -> bool {
        &&& self.rolled <= 6
        &&& 0 < self.scorable@.len() <= self.rolled
        &&& scoring(self.scorable@).consumed == self.scorable@
        &&& 0 < scoring(self.scorable@).points <= self.score_at_risk
    }
}

/// A strategy that can be played with: it takes every state that it may be
/// shown, and reserves no more dice than were rolled.
///
/// A strategy is meant to choose among the dice that it is shown, and such a
/// choice is never longer than the roll (`lemma_choice_among_shown`). The
/// turn does not hold it to that: whatever dice it names are scored as they
/// stand.
pub open spec fn sound<F: Fn(&StateRolled) -> Vec<Value>>(strategy: F) -> bool {
    &&& forall|shown: StateRolled|
        shown.well_formed() ==> #[trigger] call_requires(strategy, (&shown,))
    &&& forall|shown: StateRolled, reserved: Vec<Value>|
        shown.well_formed() && #[trigger] call_ensures(strategy, (&shown,), reserved)
            ==> reserved@.len() <= shown.rolled
}

/// The turn `next` can follow the turn `state` when the dice `rolled` have
/// come: after a bust it is the turn's fresh start; else the strategy was
/// shown the roll, and `next` follows from a choice that it may make.
pub open spec fn follows<F: Fn(&StateRolled) -> Vec<Value>>(
    state: StateUnrolled,
    strategy: F,
    rolled: Seq<Value>,
    next: StateUnrolled,
) -> bool {
    if scoring(rolled).points == 0 {
        next@ == state@.bust()
    } else {
        exists|shown: StateRolled, reserved: Vec<Value>|
            {
                &&& #[trigger] call_ensures(strategy, (&shown,), reserved)
                &&& shown.well_formed()
                &&& shown@ == state@.offer(rolled)
                &&& next@ == state@.after(rolled, reserved@)
            }
    }
}

/// Ends the round of a roll worth `round` points, of which the strategy has
/// reserved the dice `reserved`.
///
/// With none reserved the player stops: all points at risk, those of the roll
/// among them, are banked, and the next turn starts with six dice. Else the
/// reserved dice are scored and their points put at risk, and the dice not
/// reserved are rolled next, or all six when every die was reserved.
///
/// Whether the reserved dice are dice of the roll, and whether they score,
/// is not looked at.
pub fn settle(state: &StateUnrolled, round: usize, reserved: &[Value]) -> (next: StateUnrolled)
    requires
        reserved@.len() <= state.dice_left <= 6,
        state.score + state.score_at_risk + round <= usize::MAX,
        state.score_at_risk + 500 * reserved@.len() <= usize::MAX,
    ensures
        next@ == if reserved@.len() == 0 {
            state@.bank(round as nat)
        } else {
            state@.reserve(reserved@)
        },
        reserved@.len() == 0 ==> next.dice_left == 6 && next.score_at_risk == 0 && next.score
            == state.score + state.score_at_risk + round,
        reserved@.len() > 0 ==> next.score == state.score && next.score_at_risk
            == state.score_at_risk + scoring(reserved@).points,
        0 < reserved@.len() == state.dice_left ==> next.dice_left == 6,
        0 < reserved@.len() < state.dice_left ==> next.dice_left == state.dice_left
            - reserved@.len(),
        1 <= next.dice_left <= 6,
{
    if reserved.len() == 0 {
        StateUnrolled {
            dice_left: 6,
            score_at_risk: 0,
            score: state.score + (state.score_at_risk + round),
        }
    } else {
        proof {
            lemma_scoring_range(reserved@);
        }
        let (points, _) = score(reserved);
        let mut dice_left = state.dice_left - reserved.len();
        if dice_left == 0 {
            dice_left = 6;
        }
        StateUnrolled {
            dice_left,
            score_at_risk: state.score_at_risk + points,
            score: state.score,
        }
    }
}

/// Plays one round of a turn with the dice `rolled`.
///
/// A roll worth nothing is a bust: the points at risk are lost, the banked
/// points stay, and the next turn starts with six dice. Else the strategy is
/// shown the dice that score, and its choice ends the round as `settle` says.
pub fn step_rolled<F>(state: StateUnrolled, strategy: F, rolled: &[Value]) -> (next: StateUnrolled)
    where F: Fn(&StateRolled) -> Vec<Value>
    requires
        state.playable(),
        rolled@.len() == state.dice_left,
        sound(strategy),
    ensures
        follows(state, strategy, rolled@, next),
        scoring(rolled@).points == 0 ==> next.dice_left == 6 && next.score_at_risk == 0
            && next.score == state.score,
        1 <= next.dice_left <= 6,
        next.score >= state.score,
{
    let (max_score, scorable) = score(rolled);
    if max_score == 0 {
        return StateUnrolled { dice_left: 6, score_at_risk: 0, score: state.score };
    }
    let shown = StateRolled {
        rolled: state.dice_left,
        scorable,
        score_at_risk: state.score_at_risk + max_score,
        score: state.score,
    };
    proof {
        lemma_consumed_from_roll(rolled@);
        lemma_scoring_of_consumed(rolled@);
        lemma_scoring_range(rolled@);
    }
    let reserved = strategy(&shown);
    settle(&state, max_score, reserved.as_slice())
}

/// Plays one round of a turn: rolls the dice that are left and goes on as
/// `step_rolled` does with them.
pub fn step<F>(state: StateUnrolled, strategy: F, rng: &mut ThreadRng) -> (next: StateUnrolled)
    where F: Fn(&StateRolled) -> Vec<Value>
    requires
        state.playable(),
        sound(strategy),
    ensures
        exists|rolled: Seq<Value>|
            rolled.len() == state.dice_left && #[trigger] follows(state, strategy, rolled, next),
        1 <= next.dice_left <= 6,
        next.score >= state.score,
{
    let rolled = roll_dice(state.dice_left, rng);
    step_rolled(state, strategy, rolled.as_slice())
}

/// Plays one round of a turn with dice from the source `roll`: throws the
/// dice that are left and goes on as `step_rolled` does with them.
pub fn step_from<F, R>(state: StateUnrolled, strategy: F, roll: R) -> (next: StateUnrolled) where
    F: Fn(&StateRolled) -> Vec<Value>,
    R: Fn() -> Value,

    requires
        state.playable(),
        sound(strategy),
        call_requires(roll, ()),
    ensures
        exists|rolled: Seq<Value>|
            {
                &&& rolled.len() == state.dice_left
                &&& forall|i: int|
                    0 <= i < rolled.len() ==> call_ensures(roll, (), #[trigger] rolled[i])
                &&& #[trigger] follows(state, strategy, rolled, next)
            },
        1 <= next.dice_left <= 6,
        next.score >= state.score,
{
    let rolled = roll_from(state.dice_left, &roll);
    step_rolled(state, strategy, rolled.as_slice())
}

/// A bust starts the turn afresh: six dice to roll, nothing at risk, and the
/// banked points as they were, whatever a strategy would have chosen.
pub proof fn lemma_bust_resets(turn: Turn, rolled: Seq<Value>, reserved: Seq<Value>)
    requires
        scoring(rolled).points == 0,
    ensures
        turn.after(rolled, reserved) == (Turn { dice_left: 6, at_risk: 0, banked: turn.banked }),
{
}

/// An empty choice ends the turn: all points at risk, those of the roll among
/// them, are banked, nothing stays at risk, and six dice are rolled next.
pub proof fn lemma_empty_choice_banks(turn: Turn, rolled: Seq<Value>, reserved: Seq<Value>)
    requires
        scoring(rolled).points > 0,
        reserved.len() == 0,
    ensures
        turn.after(rolled, reserved) == (Turn {
            dice_left: 6,
            at_risk: 0,
            banked: turn.banked + turn.at_risk + scoring(rolled).points,
        }),
{
}

/// A choice of dice keeps the turn going: the points of the chosen dice,
/// and of them alone, are added to those at risk, so that dice that score
/// raise the points at risk; the banked points stay; and the dice not chosen
/// are rolled next.
pub proof fn lemma_choice_goes_on(turn: Turn, rolled: Seq<Value>, reserved: Seq<Value>)
    requires
        scoring(rolled).points > 0,
        0 < reserved.len(),
    ensures
        turn.after(rolled, reserved).at_risk == turn.at_risk + scoring(reserved).points,
        scoring(reserved).points > 0 ==> turn.after(rolled, reserved).at_risk > turn.at_risk,
        turn.after(rolled, reserved).banked == turn.banked,
        reserved.len() < turn.dice_left ==> turn.after(rolled, reserved).dice_left
            == turn.dice_left - reserved.len(),
{
}

/// When every rolled die is chosen, six dice are rolled next, not none.
pub proof fn lemma_all_chosen_rolls_six(turn: Turn, rolled: Seq<Value>, reserved: Seq<Value>)
    requires
        scoring(rolled).points > 0,
        rolled.len() == turn.dice_left,
        0 < reserved.len() == rolled.len(),
    ensures
        turn.after(rolled, reserved) == (Turn {
            dice_left: 6,
            at_risk: turn.at_risk + scoring(reserved).points,
            banked: turn.banked,
        }),
{
}

/// After any round there are dice to roll, six at most, and no banked point
/// is lost.
pub proof fn lemma_after_any_round(turn: Turn, rolled: Seq<Value>, reserved: Seq<Value>)
    requires
        turn.dice_left <= 6,
    ensures
        1 <= turn.after(rolled, reserved).dice_left <= 6,
        turn.after(rolled, reserved).banked >= turn.banked,
{
}

/// A choice among the dice that were shown is no longer than the roll: a
/// strategy that only ever makes such choices can be played with.
pub proof fn lemma_choice_among_shown(shown: StateRolled, reserved: Seq<Value>)
    requires
        shown.well_formed(),
        reserved.to_multiset().subset_of(shown.scorable@.to_multiset()),
    ensures
        reserved.len() <= shown.rolled,
{
    lemma_tally_total(reserved);
    lemma_tally_total(shown.scorable@);
    assert(Tally::of(reserved).within(Tally::of(shown.scorable@)));
}

} // verus!
