//! The states of a game and the clock that ends it.

use vstd::prelude::*;
use crate::fixed::saturate_i32;
use crate::life_cycles::earlier;
use crate::player::PlayerStats;
use crate::spawning::CurrentThreats;

verus! {

/// The time on the clock when a game begins to run.
pub const RUNNING_TIME: i32 = 300_000;

/// The states a game goes through.
#[derive(Clone, Copy, PartialEq, Eq, Structural, Debug, Hash)]
pub enum GameState {
    Paused,
    Running,
    Restarting,
    TimeOver,
    GameOver,
}

impl Default for GameState {
    fn default() -> (state: GameState)
        ensures
            state == GameState::Paused,
    {
        GameState::Paused
    }
}

/// Starts a game over: no predators counted, nothing scored, nothing born,
/// and the game runs again.
pub fn system_restart_game(current_threats: &mut CurrentThreats, stats: &mut PlayerStats) -> (next:
    GameState)
    ensures
        next == GameState::Running,
        final(current_threats).0 == 0,
        final(stats).score == 0,
        final(stats).ducks_born == 0,
        !final(stats).is_simulating,
        final(stats).remaining_time == old(stats).remaining_time,
{
    current_threats.0 = 0;
    stats.score = 0;
    stats.ducks_born = 0;
    stats.is_simulating = false;
    GameState::Running
}

/// Winds the clock up when a game begins to run, unless the game only
/// simulates.
pub fn system_reset_remaining_time(stats: &mut PlayerStats)
    ensures
        final(stats).score == old(stats).score,
        final(stats).ducks_born == old(stats).ducks_born,
        final(stats).is_simulating == old(stats).is_simulating,
        final(stats).remaining_time == (if old(stats).is_simulating {
            old(stats).remaining_time
        } else {
            RUNNING_TIME
        }),
{
    if stats.is_simulating {
        return ;
    }
    stats.remaining_time = RUNNING_TIME;
}

/// What the clock shows.
#[derive(Clone, Copy, PartialEq, Eq, Structural, Debug)]
pub enum RemainingTime {
    /// The game only simulates: it never ends.
    Endless,
    /// So much time is left.
    Left(i32),
}

/// The time left after `dt` more seconds, not below zero.
pub open spec fn time_remaining(remaining_time: i32, dt: u32) -> i32 {
    if earlier(remaining_time, dt) < 0 {
        0
    } else {
        earlier(remaining_time, dt)
    }
}

/// Lets `dt` seconds pass on the clock, which stops at zero. Returns what the
/// clock shows and, once the time is up, the state the game goes to. A game
/// that only simulates has no clock.
pub fn system_update_remaining_time(dt: u32, stats: &mut PlayerStats) -> (shown: (
    RemainingTime,
    Option<GameState>,
))
    ensures
        final(stats).score == old(stats).score,
        final(stats).ducks_born == old(stats).ducks_born,
        final(stats).is_simulating == old(stats).is_simulating,
        old(stats).is_simulating ==> ({
            &&& final(stats).remaining_time == old(stats).remaining_time
            &&& shown.0 == RemainingTime::Endless
            &&& shown.1 is None
        }),
        !old(stats).is_simulating ==> ({
            &&& final(stats).remaining_time == time_remaining(old(stats).remaining_time, dt)
            &&& shown.0 == RemainingTime::Left(final(stats).remaining_time)
            &&& shown.1 == (if final(stats).remaining_time <= 0 {
                Some(GameState::TimeOver)
            } else {
                None
            })
        }),
{
    if stats.is_simulating {
        return (RemainingTime::Endless, None);
    }
    let mut left = saturate_i32(stats.remaining_time as i128 - dt as i128);
    if left < 0 {
        left = 0;
    }
    stats.remaining_time = left;
    let next = if left <= 0 {
        Some(GameState::TimeOver)
    } else {
        None
    };
    (RemainingTime::Left(left), next)
}

/// The state the game goes to when the ducks are gone: the game is over once
/// a single duck or egg is left, unless the game only simulates.
pub fn system_check_game_over_condition(stats: &PlayerStats, ducks_and_eggs: usize) -> (next:
    Option<GameState>)
    ensures
        next == (if !stats.is_simulating && ducks_and_eggs == 1 {
            Some(GameState::GameOver)
        } else {
            None
        }),
{
    if stats.is_simulating {
        return None;
    }
    if ducks_and_eggs == 1 {
        Some(GameState::GameOver)
    } else {
        None
    }
}

/// The state a game rests in once it has ended.
pub fn system_change_state_to_paused() -> (next: GameState)
    ensures
        next == GameState::Paused,
{
    GameState::Paused
}

/// What the player can ask for from a menu.
#[derive(Clone, Copy, PartialEq, Eq, Structural, Debug)]
pub enum UIButtonAction {
    /// Play a game against the clock.
    Play,
    /// Let the pond go on without a clock and without a score.
    ContinueSimulation,
    /// Start over.
    Restart,
}

/// The state the game goes to when the player asks for `action`. To go on
/// without a clock makes the game a simulation; the other actions leave that
/// as it is.
pub fn system_ui_actions(action: UIButtonAction, stats: &mut PlayerStats) -> (next: GameState)
    ensures
        next == (if action == UIButtonAction::Restart {
            GameState::Restarting
        } else {
            GameState::Running
        }),
        final(stats).is_simulating == (old(stats).is_simulating || action
            == UIButtonAction::ContinueSimulation),
        final(stats).score == old(stats).score,
        final(stats).ducks_born == old(stats).ducks_born,
        final(stats).remaining_time == old(stats).remaining_time,
{
    match action {
        UIButtonAction::Play => GameState::Running,
        UIButtonAction::ContinueSimulation => {
            stats.is_simulating = true;
            GameState::Running
        },
        UIButtonAction::Restart => GameState::Restarting,
    }
}

} // verus!
