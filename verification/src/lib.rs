//! Simulation core of a duck pond: flocking, ageing, pairing, breeding and
//! predation, computed tick by tick over plain snapshots of the population.
//!
//! The library owns no store of agents. Whoever drives it hands each system
//! the agents it is about, as plain records, and puts back what comes out:
//! changed records, and lists of what is to be removed or brought to life.
//! Agents are known by their [`entity::Entity`] handles.
//!
//! All quantities are fixed-point integers with [`fixed::UNIT`] steps per whole
//! unit: lengths, speeds (per second), durations (seconds) and factors alike.
//! Stored values saturate at the ends of their range; intermediate results
//! are exact.
//!
//! Within a tick the systems are meant to run in this order, each on what the
//! ones before it left:
//!
//! 1. who is close to whom: [`duck_boid::system_boid_update_close_adults`];
//! 2. steering: [`boid::system_boid_separation`], then
//!    [`boid::system_boid_alignment_and_cohesion`], then the pulls of mates,
//!    food and parents in [`duck_boid`];
//! 3. [`movement::system_clamp_velocity`];
//! 4. [`movement::system_flip_based_on_velocity`];
//! 5. [`movement::system_avoid_edges`];
//! 6. [`movement::system_movement`];
//! 7. the life cycle in [`life_cycles`]: timers first, then the stages from
//!    egg to adult;
//! 8. pairs in [`breeding`]: new pairs, upkeep, breeding;
//! 9. the hunt: [`threat_boid::system_boid_towards_closest_duck`].

pub mod audio;
pub mod boid;
pub mod breeding;
pub mod duck_boid;
pub mod entity;
pub mod fixed;
pub mod food;
pub mod game_state;
pub mod leaderboard;
pub mod life_cycles;
pub mod movement;
pub mod player;
mod random;
pub mod spawning;
pub mod target;
pub mod threat_boid;
pub mod vec2;
