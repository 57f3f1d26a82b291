//! The volume settings of the player.

use vstd::prelude::*;
use crate::text::{around, with_number};

verus! {

/// The loudest volume, in tenths.
pub const FULL_VOLUME: u8 = 10;

/// The volumes of sound effects and music, in tenths of full volume.
#[derive(Debug, Clone, Copy, PartialEq, Eq, Structural)]
pub struct VolumeSettings {
    pub sfx_vol: u8,
    pub music_vol: u8,
}

/// The volume that follows `volume` when the player toggles it: one tenth
/// less, and full volume again after silence.
pub open spec fn next_volume(volume: u8) -> u8 {
    if volume == 0 {
        FULL_VOLUME
    } else {
        (volume - 1) as u8
    }
}

impl Default for VolumeSettings {
    fn default() -> (v: VolumeSettings)
        ensures
            v == (VolumeSettings { sfx_vol: FULL_VOLUME, music_vol: FULL_VOLUME }),
    {
        VolumeSettings { sfx_vol: FULL_VOLUME, music_vol: FULL_VOLUME }
    }
}

impl VolumeSettings {
    /// Steps the volume of the sound effects; see [`next_volume`].
    pub fn toggle_sfx_vol(&mut self)
        ensures
            *final(self) == (VolumeSettings { sfx_vol: next_volume(old(self).sfx_vol), ..*old(self) }),
    {
        self.sfx_vol = if self.sfx_vol == 0 {
            FULL_VOLUME
        } else {
            self.sfx_vol - 1
        };
    }

    /// Steps the volume of the music; see [`next_volume`].
    pub fn toggle_music_vol(&mut self)
        ensures
            *final(self) == (VolumeSettings {
                music_vol: next_volume(old(self).music_vol),
                ..*old(self)
            }),
    {
        self.music_vol = if self.music_vol == 0 {
            FULL_VOLUME
        } else {
            self.music_vol - 1
        };
    }

    /// The label of the sound button.
    pub fn sound_label(&self) -> (s: String)
        ensures
            s@ == around(" Sound: "@, (self.sfx_vol * 10) as nat, "% "@),
    {
        with_number(" Sound: ", self.sfx_vol as u64 * 10, "% ")
    }

    /// The label of the music button.
    pub fn music_label(&self) -> (s: String)
        ensures
            s@ == around(" Music: "@, (self.music_vol * 10) as nat, "% "@),
    {
        with_number(" Music: ", self.music_vol as u64 * 10, "% ")
    }
}

} // verus!
