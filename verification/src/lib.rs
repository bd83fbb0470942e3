//! Rules of the dice game Farkle: scoring a roll of up to six dice, and the
//! progress of a turn from roll to roll until the player busts or banks.

pub mod combination;
pub mod face;
pub mod rolling;
pub mod scoring;
pub mod simulation;
pub mod stats;
pub mod strategy;
pub mod tally;
pub mod turn;

pub use crate::face::Value;
pub use crate::rolling::Roll;
pub use crate::scoring::score;
pub use crate::turn::{step, StateRolled, StateUnrolled};
