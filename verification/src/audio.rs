//! How loud a sound is played, with many sounds already playing.

use vstd::prelude::*;
use crate::fixed::{saturate, saturate_i32};

verus! {

/// The number of sounds at which no further sound is played.
pub const AUDIO_SOURCE_CAP: i32 = 50;

/// The number of sounds above which further sounds are played softly.
pub const QUIET_ABOVE: i32 = 20;

/// The number of sounds that are playing.
#[derive(Clone, Copy, Debug)]
pub struct ActiveAudioSources(pub i32);

impl Default for ActiveAudioSources {
    fn default() -> (sources: ActiveAudioSources)
        ensures
            sources.0 == 0,
    {
        ActiveAudioSources(0)
    }
}

/// Takes note of how many sounds are playing.
pub fn system_update_active_audio_sources(playing: usize) -> (sources: ActiveAudioSources)
    ensures
        sources.0 == saturate(playing as int),
{
    ActiveAudioSources(saturate_i32(playing as i128))
}

/// The volume of a sound with so many sounds already playing: none at the cap,
/// `quiet` above the quiet mark, else `loud`.
pub open spec fn volume_for(active: ActiveAudioSources, loud: i32, quiet: i32) -> Option<i32> {
    if active.0 >= AUDIO_SOURCE_CAP {
        None
    } else if active.0 > QUIET_ABOVE {
        Some(quiet)
    } else {
        Some(loud)
    }
}

/// Picks the volume of a sound with so many sounds already playing.
fn pick_volume(active: &ActiveAudioSources, loud: i32, quiet: i32) -> (volume: Option<i32>)
    ensures
        volume == volume_for(*active, loud, quiet),
{
    if active.0 >= AUDIO_SOURCE_CAP {
        None
    } else if active.0 > QUIET_ABOVE {
        Some(quiet)
    } else {
        Some(loud)
    }
}

/// The volume at which a hatching egg pops, if it is heard at all.
pub fn play_egg_pop(active_audio_sources: &ActiveAudioSources) -> (volume: Option<i32>)
    ensures
        volume == volume_for(*active_audio_sources, 250, 70),
{
    pick_volume(active_audio_sources, 250, 70)
}

/// The volume at which an eaten duck is heard, if it is heard at all.
pub fn play_duck_eaten(active_audio_sources: &ActiveAudioSources) -> (volume: Option<i32>)
    ensures
        volume == volume_for(*active_audio_sources, 200, 100),
{
    pick_volume(active_audio_sources, 200, 100)
}

/// The volume at which a clicked button is heard.
pub fn play_button_clicked() -> (volume: i32)
    ensures
        volume == 200,
{
    200
}

} // verus!
