//! Throwing dice: with the random number generator of the thread, or from a
//! source of dice that the caller brings.

use crate::face::Value;
use rand::distributions::Uniform;
use rand::rngs::ThreadRng;
use rand::Rng;
use vstd::prelude::*;

verus! {

/// The random number generator of rand that each thread has for itself. Its
/// state is hidden here: contracts say nothing of it.
#[verifier::external_type_specification]
#[verifier::external_body]
pub struct ExThreadRng(rand::rngs::ThreadRng);

/// Calls `ThreadRng::default` of rand, which hands out the generator of the
/// calling thread; rand panics there if the system gives it no seed. Nothing
/// is claimed of the generator.
#[verifier::external_body]
pub(crate) fn thread_rng() -> ThreadRng {
    ThreadRng::default()
}

/// Calls `Rng::sample` of rand on `Uniform::new(low, high)`: one number drawn
/// from `low` up to, but not including, `high`. Claimed is that the number
/// lies in that range, as rand documents for `Uniform::new`; which number of
/// the range comes is left open. `Uniform::new` panics unless `low < high`.
#[verifier::external_body]
pub(crate) fn sample_between(rng: &mut ThreadRng, low: i32, high: i32) -> (n: i32)
    requires
        low < high,
    ensures
        low <= n < high,
{
    rng.sample(Uniform::new(low, high))
}

/// A source of dice: each call throws one die.
pub type Roll = dyn Fn() -> Value;

/// Throws `n` dice, each by one call of `roll`.
pub fn roll_from<R>(n: usize, roll: &R) -> (dice: Vec<Value>) where R: Fn() -> Value
    requires
        call_requires(*roll, ()),
    ensures
        dice@.len() == n,
        forall|i: int| 0 <= i < n ==> call_ensures(*roll, (), #[trigger] dice@[i]),
{
    let mut dice: Vec<Value> = Vec::new();
    let mut i: usize = 0;
    while i < n
        invariant
            i <= n,
            dice@.len() == i,
            call_requires(*roll, ()),
            forall|k: int| 0 <= k < i ==> call_ensures(*roll, (), #[trigger] dice@[k]),
        decreases n - i,
    {
        dice.push(roll());
        i = i + 1;
    }
    dice
}

/// Throws one die.
fn roll(rng: &mut ThreadRng) -> Value {
    Value::from_pips(sample_between(rng, 1, 7))
}

/// Throws `n` dice. Which faces come up is left to chance.
pub fn roll_dice(n: usize, rng: &mut ThreadRng) -> (dice: Vec<Value>)
    ensures
        dice@.len() == n,
{
    let mut dice: Vec<Value> = Vec::new();
    let mut i: usize = 0;
    while i < n
        invariant
            i <= n,
            dice@.len() == i,
        decreases n - i,
    {
        dice.push(roll(rng));
        i = i + 1;
    }
    dice
}

} // verus!
