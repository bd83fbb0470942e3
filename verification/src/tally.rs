//! Counting the dice of a roll face by face.
//!
//! The order of the dice in a roll never matters to the rules, so a roll is
//! judged by its tally: how many dice show each face.

use crate::face::{repeat, Value};
use vstd::prelude::*;

verus! {

/// How many dice of a roll show each face.
pub struct Tally {
    pub ones: nat,
    pub twos: nat,
    pub threes: nat,
    pub fours: nat,
    pub fives: nat,
    pub sixes: nat,
}

/// One if `hit` is true, zero otherwise.
pub open spec fn one_if(hit: bool) -> nat {
    if hit {
        1
    } else {
        0
    }
}

/// The sequence that holds `v` if `keep` is true, and nothing otherwise.
pub open spec fn pick(keep: bool, v: Value) -> Seq<Value> {
    if keep {
        seq![v]
    } else {
        Seq::empty()
    }
}

impl Tally {
    /// The tally of a roll, whatever the order of its dice.
    pub open spec fn of(dice: Seq<Value>) -> Tally {
        let m = dice.to_multiset();
        Tally {
            ones: m.count(Value::One),
            twos: m.count(Value::Two),
            threes: m.count(Value::Three),
            fours: m.count(Value::Four),
            fives: m.count(Value::Five),
            sixes: m.count(Value::Six),
        }
    }

    /// The tally of no dice.
    pub open spec fn empty() -> Tally {
        Tally { ones: 0, twos: 0, threes: 0, fours: 0, fives: 0, sixes: 0 }
    }

    /// The number of dice that show `v`.
    pub open spec fn count(self, v: Value) -> nat {
        match v {
            Value::One => self.ones,
            Value::Two => self.twos,
            Value::Three => self.threes,
            Value::Four => self.fours,
            Value::Five => self.fives,
            Value::Six => self.sixes,
        }
    }

    /// The number of dice.
    pub open spec fn total(self) -> nat {
        self.ones + self.twos + self.threes + self.fours + self.fives + self.sixes
    }

    /// The tally with every die that shows `v` taken away.
    pub open spec fn without(self, v: Value) -> Tally {
        match v {
            Value::One => Tally { ones: 0, ..self },
            Value::Two => Tally { twos: 0, ..self },
            Value::Three => Tally { threes: 0, ..self },
            Value::Four => Tally { fours: 0, ..self },
            Value::Five => Tally { fives: 0, ..self },
            Value::Six => Tally { sixes: 0, ..self },
        }
    }

    /// The tally of two rolls thrown together.
    pub open spec fn plus(self, other: Tally) -> Tally {
        Tally {
            ones: self.ones + other.ones,
            twos: self.twos + other.twos,
            threes: self.threes + other.threes,
            fours: self.fours + other.fours,
            fives: self.fives + other.fives,
            sixes: self.sixes + other.sixes,
        }
    }

    /// The tally of the dice that are left when the dice counted in `other`
    /// are taken away.
    pub open spec fn minus(self, other: Tally) -> Tally {
        Tally {
            ones: (self.ones - other.ones) as nat,
            twos: (self.twos - other.twos) as nat,
            threes: (self.threes - other.threes) as nat,
            fours: (self.fours - other.fours) as nat,
            fives: (self.fives - other.fives) as nat,
            sixes: (self.sixes - other.sixes) as nat,
        }
    }

    /// Every face shows on at most as many dice here as in `other`.
    pub open spec fn within(self, other: Tally) -> bool {
        &&& self.ones <= other.ones
        &&& self.twos <= other.twos
        &&& self.threes <= other.threes
        &&& self.fours <= other.fours
        &&& self.fives <= other.fives
        &&& self.sixes <= other.sixes
    }

    /// The tally of `n` dice that all show `v`.
    pub open spec fn only(v: Value, n: nat) -> Tally {
        match v {
            Value::One => Tally { ones: n, ..Tally::empty() },
            Value::Two => Tally { twos: n, ..Tally::empty() },
            Value::Three => Tally { threes: n, ..Tally::empty() },
            Value::Four => Tally { fours: n, ..Tally::empty() },
            Value::Five => Tally { fives: n, ..Tally::empty() },
            Value::Six => Tally { sixes: n, ..Tally::empty() },
        }
    }

    /// One die of each face that shows on exactly `n` dice here.
    pub open spec fn one_each(self, n: nat) -> Tally {
        Tally {
            ones: one_if(self.ones == n),
            twos: one_if(self.twos == n),
            threes: one_if(self.threes == n),
            fours: one_if(self.fours == n),
            fives: one_if(self.fives == n),
            sixes: one_if(self.sixes == n),
        }
    }

    /// Every face shows on exactly one die.
    pub open spec fn is_straight(self) -> bool {
        &&& self.ones == 1
        &&& self.twos == 1
        &&& self.threes == 1
        &&& self.fours == 1
        &&& self.fives == 1
        &&& self.sixes == 1
    }

    /// The lowest face that shows on exactly `n` dice, if there is one.
    pub open spec fn first_with(self, n: nat) -> Option<Value> {
        if self.ones == n {
            Some(Value::One)
        } else if self.twos == n {
            Some(Value::Two)
        } else if self.threes == n {
            Some(Value::Three)
        } else if self.fours == n {
            Some(Value::Four)
        } else if self.fives == n {
            Some(Value::Five)
        } else if self.sixes == n {
            Some(Value::Six)
        } else {
            None
        }
    }

    /// The number of faces that show on exactly `n` dice.
    pub open spec fn how_many(self, n: nat) -> nat {
        one_if(self.ones == n) + one_if(self.twos == n) + one_if(self.threes == n) + one_if(
            self.fours == n,
        ) + one_if(self.fives == n) + one_if(self.sixes == n)
    }

    /// The faces that show on exactly `n` dice, in ascending order.
    pub open spec fn faces_with(self, n: nat) -> Seq<Value> {
        pick(self.ones == n, Value::One) + pick(self.twos == n, Value::Two) + pick(
            self.threes == n,
            Value::Three,
        ) + pick(self.fours == n, Value::Four) + pick(self.fives == n, Value::Five) + pick(
            self.sixes == n,
            Value::Six,
        )
    }
}

/// The dice of a roll counted face by face.
#[derive(Clone, Copy, Debug)]
pub struct Counts {
    pub ones: usize,
    pub twos: usize,
    pub threes: usize,
    pub fours: usize,
    pub fives: usize,
    pub sixes: usize,
}

impl View for Counts {
    type V = Tally;

    open spec fn view(&self) -> Tally {
        Tally {
            ones: self.ones as nat,
            twos: self.twos as nat,
            threes: self.threes as nat,
            fours: self.fours as nat,
            fives: self.fives as nat,
            sixes: self.sixes as nat,
        }
    }
}

/// Appends `v` to `faces` if `keep` is true.
fn push_if(faces: &mut Vec<Value>, keep: bool, v: Value)
    ensures
        final(faces)@ == old(faces)@ + pick(keep, v),
{
    if keep {
        faces.push(v);
    }
    assert(faces@ =~= old(faces)@ + pick(keep, v));
}

impl Counts {
    /// Counts the dice of a roll.
    pub fn of(dice: &[Value]) -> (counts: Counts)
        ensures
            counts@ == Tally::of(dice@),
            counts@.total() == dice@.len(),
    {
        let mut counts = Counts { ones: 0, twos: 0, threes: 0, fours: 0, fives: 0, sixes: 0 };
        let mut i: usize = 0;
        proof {
            assert(dice@.take(0) =~= Seq::<Value>::empty());
            lemma_tally_of_nothing();
        }
        while i < dice.len()
            invariant
                i <= dice.len(),
                counts@ == Tally::of(dice@.take(i as int)),
                counts@.total() == i,
            decreases dice.len() - i,
        {
            proof {
                lemma_tally_of_push(dice@.take(i as int), dice@[i as int]);
                assert(dice@.take(i as int).push(dice@[i as int]) =~= dice@.take(i + 1));
            }
            match dice[i] {
                Value::One => {
                    counts.ones = counts.ones + 1;
                },
                Value::Two => {
                    counts.twos = counts.twos + 1;
                },
                Value::Three => {
                    counts.threes = counts.threes + 1;
                },
                Value::Four => {
                    counts.fours = counts.fours + 1;
                },
                Value::Five => {
                    counts.fives = counts.fives + 1;
                },
                Value::Six => {
                    counts.sixes = counts.sixes + 1;
                },
            }
            i = i + 1;
        }
        proof {
            assert(dice@.take(dice@.len() as int) =~= dice@);
        }
        counts
    }

    /// The number of dice that show `v`.
    pub fn count(&self, v: Value) -> (n: usize)
        ensures
            n == self@.count(v),
    {
        match v {
            Value::One => self.ones,
            Value::Two => self.twos,
            Value::Three => self.threes,
            Value::Four => self.fours,
            Value::Five => self.fives,
            Value::Six => self.sixes,
        }
    }

    /// The counts with every die that shows `v` taken away.
    pub fn without(&self, v: Value) -> (rest: Counts)
        ensures
            rest@ == self@.without(v),
    {
        let mut rest = *self;
        match v {
            Value::One => {
                rest.ones = 0;
            },
            Value::Two => {
                rest.twos = 0;
            },
            Value::Three => {
                rest.threes = 0;
            },
            Value::Four => {
                rest.fours = 0;
            },
            Value::Five => {
                rest.fives = 0;
            },
            Value::Six => {
                rest.sixes = 0;
            },
        }
        rest
    }

    /// Whether every face shows on exactly one die.
    pub fn is_straight(&self) -> (straight: bool)
        ensures
            straight == self@.is_straight(),
    {
        self.ones == 1 && self.twos == 1 && self.threes == 1 && self.fours == 1 && self.fives == 1
            && self.sixes == 1
    }

    /// The lowest face that shows on exactly `n` dice, if there is one.
    pub fn first_with(&self, n: usize) -> (found: Option<Value>)
        ensures
            found == self@.first_with(n as nat),
    {
        if self.ones == n {
            Some(Value::One)
        } else if self.twos == n {
            Some(Value::Two)
        } else if self.threes == n {
            Some(Value::Three)
        } else if self.fours == n {
            Some(Value::Four)
        } else if self.fives == n {
            Some(Value::Five)
        } else if self.sixes == n {
            Some(Value::Six)
        } else {
            None
        }
    }

    /// The number of faces that show on exactly `n` dice.
    pub fn how_many(&self, n: usize) -> (faces: usize)
        ensures
            faces == self@.how_many(n as nat),
    {
        let mut faces: usize = 0;
        if self.ones == n {
            faces = faces + 1;
        }
        if self.twos == n {
            faces = faces + 1;
        }
        if self.threes == n {
            faces = faces + 1;
        }
        if self.fours == n {
            faces = faces + 1;
        }
        if self.fives == n {
            faces = faces + 1;
        }
        if self.sixes == n {
            faces = faces + 1;
        }
        faces
    }

    /// The faces that show on exactly `n` dice, in ascending order.
    pub fn faces_with(&self, n: usize) -> (faces: Vec<Value>)
        ensures
            faces@ == self@.faces_with(n as nat),
            faces@.len() == self@.how_many(n as nat),
    {
        let mut faces: Vec<Value> = Vec::new();
        push_if(&mut faces, self.ones == n, Value::One);
        push_if(&mut faces, self.twos == n, Value::Two);
        push_if(&mut faces, self.threes == n, Value::Three);
        push_if(&mut faces, self.fours == n, Value::Four);
        push_if(&mut faces, self.fives == n, Value::Five);
        push_if(&mut faces, self.sixes == n, Value::Six);
        proof {
            let first = pick(self.ones == n, Value::One);
            assert(Seq::<Value>::empty() + first =~= first);
        }
        faces
    }
}

/// No dice, no counts.
pub proof fn lemma_tally_of_nothing()
    ensures
        Tally::of(Seq::<Value>::empty()) == Tally::empty(),
{
    vstd::seq_lib::to_multiset_len(Seq::<Value>::empty());
}

/// One more die raises the count of its face by one and no other count.
pub proof fn lemma_tally_of_push(dice: Seq<Value>, v: Value)
    ensures
        Tally::of(dice.push(v)) == Tally::of(dice).plus(Tally::only(v, 1)),
{
    broadcast use vstd::multiset::group_multiset_properties;
    broadcast use vstd::seq_lib::group_to_multiset_ensures;
}

/// A roll has as many dice as its tally counts.
pub proof fn lemma_tally_total(dice: Seq<Value>)
    ensures
        Tally::of(dice).total() == dice.len(),
    decreases dice.len(),
{
    if dice.len() == 0 {
        assert(dice =~= Seq::<Value>::empty());
        lemma_tally_of_nothing();
    } else {
        lemma_tally_total(dice.drop_last());
        lemma_tally_of_push(dice.drop_last(), dice.last());
        assert(dice.drop_last().push(dice.last()) =~= dice);
    }
}

/// The tally of two rolls laid end to end is the sum of their tallies.
pub proof fn lemma_tally_of_concat(a: Seq<Value>, b: Seq<Value>)
    ensures
        Tally::of(a + b) == Tally::of(a).plus(Tally::of(b)),
{

    vstd::seq_lib::lemma_multiset_commutative(a, b);
}

/// Copies of one face count for that face alone.
pub proof fn lemma_tally_of_repeat(v: Value, n: nat)
    ensures
        Tally::of(repeat(v, n)) == Tally::only(v, n),
    decreases n,
{
    if n == 0 {
        assert(repeat(v, 0) =~= Seq::<Value>::empty());
        lemma_tally_of_nothing();
    } else {
        lemma_tally_of_repeat(v, (n - 1) as nat);
        lemma_tally_of_push(repeat(v, (n - 1) as nat), v);
        assert(repeat(v, (n - 1) as nat).push(v) =~= repeat(v, n));
    }
}

/// The tally of one die or none.
pub proof fn lemma_tally_of_pick(keep: bool, v: Value)
    ensures
        Tally::of(pick(keep, v)) == Tally::only(v, one_if(keep)),
{
    if keep {
        assert(repeat(v, 1) =~= pick(keep, v));
        lemma_tally_of_repeat(v, 1);
    } else {
        lemma_tally_of_nothing();
    }
}

/// The faces that show on exactly `n` dice, told one die each.
pub proof fn lemma_tally_of_faces_with(t: Tally, n: nat)
    ensures
        Tally::of(t.faces_with(n)) == t.one_each(n),
        t.faces_with(n).len() == t.how_many(n),
{
    let ones = pick(t.ones == n, Value::One);
    let twos = pick(t.twos == n, Value::Two);
    let threes = pick(t.threes == n, Value::Three);
    let fours = pick(t.fours == n, Value::Four);
    let fives = pick(t.fives == n, Value::Five);
    let sixes = pick(t.sixes == n, Value::Six);
    lemma_tally_of_pick(t.ones == n, Value::One);
    lemma_tally_of_pick(t.twos == n, Value::Two);
    lemma_tally_of_pick(t.threes == n, Value::Three);
    lemma_tally_of_pick(t.fours == n, Value::Four);
    lemma_tally_of_pick(t.fives == n, Value::Five);
    lemma_tally_of_pick(t.sixes == n, Value::Six);
    lemma_tally_of_concat(ones, twos);
    lemma_tally_of_concat(ones + twos, threes);
    lemma_tally_of_concat(ones + twos + threes, fours);
    lemma_tally_of_concat(ones + twos + threes + fours, fives);
    lemma_tally_of_concat(ones + twos + threes + fours + fives, sixes);
}

} // verus!
