//! Which sounds the menu plays, and the mute toggle that remembers what it silenced.

use vstd::prelude::*;

verus! {

/// What the player hears.
#[derive(Clone, Copy, Debug, PartialEq, Eq, Structural)]
pub enum AudioMode {
    /// Nothing.
    Mute,
    /// Interface sounds only.
    Effects,
    /// Interface sounds and music.
    Music,
}

/// The audio mode in force and the one the mute toggle brings back.
#[derive(Clone, Copy, Debug, PartialEq, Eq, Structural)]
pub struct AudioModes {
    /// Mode in force.
    pub mode: AudioMode,
    /// Mode restored when muting ends; never `Mute`.
    pub restored_mode: AudioMode,
}

impl AudioModes {
    /// The toggle always has an audible mode to bring back.
    pub open spec fn wf(self) -> bool {
        self.restored_mode != AudioMode::Mute
    }

    /// Interface sounds on, as a new game starts.
    pub fn new() -> (modes: AudioModes)
        ensures
            modes.wf(),
            modes.mode == AudioMode::Effects,
            modes.restored_mode == AudioMode::Effects,
    {
        AudioModes { mode: AudioMode::Effects, restored_mode: AudioMode::Effects }
    }

    /// Chooses `mode`; an audible choice also becomes the one unmuting restores.
    pub fn set_mode(&mut self, mode: AudioMode)
        requires
            old(self).wf(),
        ensures
            final(self).wf(),
            final(self).mode == mode,
            final(self).restored_mode == if mode != AudioMode::Mute {
                mode
            } else {
                old(self).restored_mode
            },
    {
        if mode != AudioMode::Mute {
            self.restored_mode = mode;
        }
        self.mode = mode;
    }

    /// Mutes, remembering the audible mode, or unmutes back to it.
    pub fn toggle_mute(&mut self)
        requires
            old(self).wf(),
        ensures
            final(self).wf(),
            old(self).mode == AudioMode::Mute ==> final(self).mode == old(self).restored_mode
                && final(self).restored_mode == old(self).restored_mode,
            old(self).mode != AudioMode::Mute ==> final(self).mode == AudioMode::Mute
                && final(self).restored_mode == old(self).mode,
    {
        if self.mode == AudioMode::Mute {
            self.mode = self.restored_mode;
        } else {
            self.restored_mode = self.mode;
            self.mode = AudioMode::Mute;
        }
    }
}

/// The modes after one press of the mute toggle.
pub open spec fn toggled(modes: AudioModes) -> AudioModes {
    if modes.mode == AudioMode::Mute {
        AudioModes { mode: modes.restored_mode, ..modes }
    } else {
        AudioModes { mode: AudioMode::Mute, restored_mode: modes.mode }
    }
}

/// Pressing the mute toggle twice from an audible mode gives back exactly that mode.
pub proof fn lemma_mute_twice_restores(modes: AudioModes)
    requires
        modes.wf(),
        modes.mode != AudioMode::Mute,
    ensures
        toggled(toggled(modes)).mode == modes.mode,
        toggled(modes).mode == AudioMode::Mute,
{
}

} // verus!
