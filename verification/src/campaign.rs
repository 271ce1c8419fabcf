//! The campaign around the battles: rounds against ever stronger
//! challenges, and the coins that pay for new faces in between.

use crate::sequence::Outcome;
use vstd::prelude::*;

verus! {

/// The coins a new game starts with.
pub const STARTING_COINS: u32 = 5;

/// The round a new game starts in.
pub const FIRST_SHOP_ROUND: u32 = 1;

/// The round whose battle decides the game.
pub const LAST_SHOP_ROUND: u32 = 4;

/// The coins that a won battle pays.
pub const VICTORY_REWARD: u32 = 5;

/// Where the campaign stands after a battle.
#[derive(Clone, Copy, Debug, PartialEq, Eq, Structural)]
pub enum Progress {
    /// The last battle is won, and the game with it.
    Champion,
    /// The battle is won; the shop opens for the next round.
    Advance { shop_round: u32, coins: u32 },
    /// The battle is lost, and the game with it.
    Defeated,
}

/// Where the campaign stands after a battle: only a win of the first team
/// carries on, into the next round with the reward added to the coins, or
/// to the championship after the last round. A draw leaves the player
/// without a die and counts as a defeat.
pub open spec fn progress_after(outcome: Outcome, shop_round: u32, coins: u32) -> Progress {
    match outcome {
        Outcome::Team1Won => if shop_round >= LAST_SHOP_ROUND {
            Progress::Champion
        } else {
            Progress::Advance {
                shop_round: (shop_round + 1) as u32,
                coins: if coins + VICTORY_REWARD <= u32::MAX {
                    (coins + VICTORY_REWARD) as u32
                } else {
                    u32::MAX
                },
            }
        },
        Outcome::Team2Won | Outcome::Draw => Progress::Defeated,
    }
}

/// Where the campaign stands after a battle.
pub fn after_battle(outcome: Outcome, shop_round: u32, coins: u32) -> (progress: Progress)
    ensures
        progress == progress_after(outcome, shop_round, coins),
{
    match outcome {
        Outcome::Team1Won => if shop_round >= LAST_SHOP_ROUND {
            Progress::Champion
        } else {
            Progress::Advance {
                shop_round: shop_round + 1,
                coins: coins.saturating_add(VICTORY_REWARD),
            }
        },
        Outcome::Team2Won | Outcome::Draw => Progress::Defeated,
    }
}

/// Pays a price and returns the coins that are left, or nothing where the
/// coins do not suffice.
pub fn spend(coins: u32, price: u32) -> (left: Option<u32>)
    ensures
        left == if coins >= price {
            Some((coins - price) as u32)
        } else {
            None
        },
{
    if coins >= price {
        Some(coins - price)
    } else {
        None
    }
}

} // verus!
