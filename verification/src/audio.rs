//! The audio signal surface: the music slots and discrete game events the
//! core emits, and the footstep scheduler that decides when a step sound
//! is due. Device output and mixing live outside the library; they consume
//! these values.

use vstd::prelude::*;

verus! {

/// Which music slot is playing.
#[derive(Debug, Clone, Copy, PartialEq, Eq, Structural)]
pub enum MusicType {
    Menu,
    Background,
}

/// A discrete game event the caller may translate into a sound cue.
#[derive(Debug, Clone, Copy, PartialEq, Eq, Structural)]
pub enum GameAudioEvent {
    KeyPickup,
    TrapTriggered,
    PlayerHurt,
    CheckpointReached,
    LevelComplete,
}

/// The sound cue name of one game event.
pub open spec fn event_sound_spec(e: GameAudioEvent) -> Seq<char> {
    match e {
        GameAudioEvent::KeyPickup => "key_pickup"@,
        GameAudioEvent::TrapTriggered => "trap_trigger"@,
        GameAudioEvent::PlayerHurt => "player_hurt"@,
        GameAudioEvent::CheckpointReached => "key_pickup"@,
        GameAudioEvent::LevelComplete => "level_complete"@,
    }
}

/// The sound cue name of one game event.
pub fn event_sound_name(e: GameAudioEvent) -> (r: &'static str)
    ensures
        r@ == event_sound_spec(e),
{
    match e {
        GameAudioEvent::KeyPickup => "key_pickup",
        GameAudioEvent::TrapTriggered => "trap_trigger",
        GameAudioEvent::PlayerHurt => "player_hurt",
        GameAudioEvent::CheckpointReached => "key_pickup",
        GameAudioEvent::LevelComplete => "level_complete",
    }
}

/// The step interval, in milliseconds.
pub const FOOTSTEP_INTERVAL_MS: i64 = 400;

/// The footstep scheduler: accumulates walking time and fires one step
/// sound whenever a full interval has passed.
#[derive(Debug, Clone, Copy, PartialEq, Eq, Structural)]
pub struct FootstepTimer {
    pub timer_ms: i64,
    pub is_walking: bool,
}

impl FootstepTimer {
    /// Well-formedness: the accumulator stays within one interval.
    pub open spec fn wf(self) -> bool {
        0 <= self.timer_ms <= FOOTSTEP_INTERVAL_MS
    }

    /// A stopped scheduler.
    pub fn new() -> (r: FootstepTimer)
        ensures
            r.wf(),
            r.timer_ms == 0,
            !r.is_walking,
    {
        FootstepTimer { timer_ms: 0, is_walking: false }
    }

    /// Advances by `delta_ms`: while walking the accumulator grows and a
    /// step fires — resetting it — exactly when a full interval has
    /// accumulated; while standing the accumulator stays cleared.
    pub fn update(&mut self, delta_ms: i64) -> (step: bool)
        requires
            old(self).wf(),
            0 <= delta_ms <= 1000000,
        ensures
            final(self).wf(),
            final(self).is_walking == old(self).is_walking,
            step == (old(self).is_walking && old(self).timer_ms + delta_ms
                >= FOOTSTEP_INTERVAL_MS),
            final(self).timer_ms == (if !old(self).is_walking || step {
                0int
            } else {
                old(self).timer_ms + delta_ms
            }),
    {
        if self.is_walking {
            let t = self.timer_ms + delta_ms;
            if t >= FOOTSTEP_INTERVAL_MS {
                self.timer_ms = 0;
                true
            } else {
                self.timer_ms = t;
                false
            }
        } else {
            self.timer_ms = 0;
            false
        }
    }

    /// Begins walking; the accumulator restarts on the transition.
    pub fn start_walking(&mut self)
        requires
            old(self).wf(),
        ensures
            final(self).wf(),
            final(self).is_walking,
            final(self).timer_ms == (if old(self).is_walking {
                old(self).timer_ms as int
            } else {
                0int
            }),
    {
        if !self.is_walking {
            self.is_walking = true;
            self.timer_ms = 0;
        }
    }

    /// Stops walking and clears the accumulator.
    pub fn stop_walking(&mut self)
        requires
            old(self).wf(),
        ensures
            final(self).wf(),
            !final(self).is_walking,
            final(self).timer_ms == 0,
    {
        self.is_walking = false;
        self.timer_ms = 0;
    }

    /// Starts or stops walking from the movement flag.
    pub fn handle_player_movement(&mut self, is_moving: bool)
        requires
            old(self).wf(),
        ensures
            final(self).wf(),
            final(self).is_walking == is_moving,
    {
        if is_moving {
            self.start_walking();
        } else {
            self.stop_walking();
        }
    }
}

} // verus!
