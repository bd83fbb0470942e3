//! The six faces of a die.

use vstd::prelude::*;

verus! {

/// One face of a six-sided die.
#[derive(Clone, Copy, Debug, PartialEq, Eq, Hash, Structural)]
pub enum Value {
    One,
    Two,
    Three,
    Four,
    Five,
    Six,
}

impl Value {
    /// The number of pips on the face, from 1 to 6.
    pub open spec fn pips(self) -> int {
        match self {
            Value::One => 1,
            Value::Two => 2,
            Value::Three => 3,
            Value::Four => 4,
            Value::Five => 5,
            Value::Six => 6,
        }
    }

    /// The face that shows `n` pips.
    pub fn from_pips(n: i32) -> (face: Value)
        requires
            1 <= n <= 6,
        ensures
            face.pips() == n,
    {
        if n == 1 {
            Value::One
        } else if n == 2 {
            Value::Two
        } else if n == 3 {
            Value::Three
        } else if n == 4 {
            Value::Four
        } else if n == 5 {
            Value::Five
        } else {
            Value::Six
        }
    }
}

/// The six faces in ascending order.
pub open spec fn all_faces() -> Seq<Value> {
    seq![Value::One, Value::Two, Value::Three, Value::Four, Value::Five, Value::Six]
}

/// `n` copies of the face `v`.
pub open spec fn repeat(v: Value, n: nat) -> Seq<Value> {
    Seq::new(n, |i: int| v)
}

/// Appends `n` copies of `v` to `dice`.
pub(crate) fn push_copies(dice: &mut Vec<Value>, v: Value, n: usize)
    ensures
        final(dice)@ == old(dice)@ + repeat(v, n as nat),
{
    let mut i: usize = 0;
    while i < n
        invariant
            i <= n,
            dice@ == old(dice)@ + repeat(v, i as nat),
        decreases n - i,
    {
        dice.push(v);
        i = i + 1;
    }
}

/// Appends the dice of `more` to `dice`.
pub(crate) fn push_all(dice: &mut Vec<Value>, more: &Vec<Value>)
    ensures
        final(dice)@ == old(dice)@ + more@,
{
    let mut i: usize = 0;
    while i < more.len()
        invariant
            i <= more.len(),
            dice@ == old(dice)@ + more@.take(i as int),
        decreases more.len() - i,
    {
        dice.push(more[i]);
        i = i + 1;
    }
}

} // verus!
