//! The events that a battle raises and that statuses and synergies listen for.

use crate::dice_instance::DiceID;
use vstd::prelude::*;

verus! {

/// Raised once, before the first round.
#[derive(Clone, Copy, Debug, PartialEq, Eq, Structural)]
pub struct StartGame;

/// Raised at the start of every round, before the dice are rolled.
#[derive(Clone, Copy, Debug, PartialEq, Eq, Structural)]
pub struct StartRound {
    pub round: u32,
}

/// Asks how many pips an action of a die counts for. Listeners may change
/// `pips` before the action reads it.
#[derive(Clone, Copy, Debug, PartialEq, Eq, Structural)]
pub struct GetPips {
    pub dice_id: DiceID,
    pub pips: u32,
}

/// Raised the moment a die's health reaches zero.
#[derive(Clone, Copy, Debug, PartialEq, Eq, Structural)]
pub struct DiceDied {
    pub dice_id: DiceID,
}

/// Why a die could not be reached.
#[derive(Clone, Copy, Debug, PartialEq, Eq, Structural)]
pub enum AccessError {
    /// No living die of the battle carries the name that was asked for.
    InvalidDiceID,
}

} // verus!
