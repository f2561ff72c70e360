//! Food, and how often the player may put some down.

use vstd::prelude::*;
use crate::spawning::{spawn_food, NewFood, FOOD_VARIATIONS};
use crate::vec2::Vec2;

verus! {

/// The time the player waits between two pieces of food.
pub const FOOD_PLACEMENT_COOLDOWN: i32 = 1_000;

/// The time since the player last put food down, counted up to the cooldown
/// and no further.
#[derive(Clone, Copy, Debug)]
pub struct FoodPlacementTimer {
    pub elapsed: i32,
    pub duration: i32,
}

impl Default for FoodPlacementTimer {
    fn default() -> (timer: FoodPlacementTimer)
        ensures
            timer.elapsed == 0,
            timer.duration == FOOD_PLACEMENT_COOLDOWN,
    {
        FoodPlacementTimer { elapsed: 0, duration: FOOD_PLACEMENT_COOLDOWN }
    }
}

/// The time on the timer after `dt` more seconds: it stops at its duration.
pub open spec fn ticked(timer: FoodPlacementTimer, dt: u32) -> i32 {
    if timer.elapsed + dt >= timer.duration {
        timer.duration
    } else {
        (timer.elapsed + dt) as i32
    }
}

/// Whether the player puts food down in this tick: the pointer is over the
/// arena, the cooldown is over after `dt` more seconds, and the button has
/// just been pressed.
pub open spec fn places_food(
    timer: FoodPlacementTimer,
    dt: u32,
    pointer: Option<Vec2>,
    just_pressed: bool,
) -> bool {
    pointer is Some && timer.elapsed + dt >= timer.duration && just_pressed
}

/// Puts food down where the pointer is, if the player asks for it and the
/// cooldown is over; the cooldown then starts anew. Without a pointer over the
/// arena nothing happens, and the timer stands still.
pub fn system_place_food_on_input(
    dt: u32,
    timer: &mut FoodPlacementTimer,
    pointer: Option<Vec2>,
    just_pressed: bool,
    sample: u32,
) -> (food: Option<NewFood>)
    ensures
        final(timer).duration == old(timer).duration,
        final(timer).elapsed == (if pointer is None {
            old(timer).elapsed
        } else if places_food(*old(timer), dt, pointer, just_pressed) {
            0
        } else {
            ticked(*old(timer), dt)
        }),
        food is Some <==> places_food(*old(timer), dt, pointer, just_pressed),
        food matches Some(f) ==> f.position == pointer.unwrap() && f.sprite_index == sample
            % FOOD_VARIATIONS,
{
    let position = match pointer {
        Some(position) => position,
        None => {
            return None;
        },
    };
    if timer.elapsed as i64 + (dt as i64) < timer.duration as i64 {
        timer.elapsed = (timer.elapsed as i64 + dt as i64) as i32;
        return None;
    }
    timer.elapsed = timer.duration;
    if !just_pressed {
        return None;
    }
    timer.elapsed = 0;
    Some(spawn_food(position, sample))
}

/// What the pointer shows.
#[derive(Clone, Copy, PartialEq, Eq, Structural, Debug)]
pub enum CursorImage {
    /// The player has to wait.
    Empty,
    /// The player may put food down.
    Food,
}

/// Whether the cooldown is over.
pub open spec fn finished(timer: FoodPlacementTimer) -> bool {
    timer.elapsed >= timer.duration
}

/// What the pointer shows: food once the cooldown is over.
pub fn system_update_game_cursor_image(timer: &FoodPlacementTimer) -> (image: CursorImage)
    ensures
        image == (if finished(*timer) {
            CursorImage::Food
        } else {
            CursorImage::Empty
        }),
{
    if timer.elapsed >= timer.duration {
        CursorImage::Food
    } else {
        CursorImage::Empty
    }
}

} // verus!
