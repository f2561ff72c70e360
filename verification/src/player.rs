//! What the player has achieved and how much time is left.

use vstd::prelude::*;

verus! {

/// The time a game starts with.
pub const INITIAL_REMAINING_TIME: i32 = 240_000;

/// The score and the clock of the player.
#[derive(Clone, Copy, Debug)]
pub struct PlayerStats {
    pub score: i32,
    pub ducks_born: i32,
    pub is_simulating: bool,
    pub remaining_time: i32,
}

impl Default for PlayerStats {
    fn default() -> (stats: PlayerStats)
        ensures
            stats.score == 0,
            stats.ducks_born == 0,
            !stats.is_simulating,
            stats.remaining_time == INITIAL_REMAINING_TIME,
    {
        PlayerStats {
            score: 0,
            ducks_born: 0,
            is_simulating: false,
            remaining_time: INITIAL_REMAINING_TIME,
        }
    }
}

} // verus!
