//! Top-level application state.

use vstd::prelude::*;
use crate::audio::{next_volume, VolumeSettings};

verus! {

/// The screen the application is currently showing.
#[derive(Debug, Clone, Copy, PartialEq, Eq, Hash, Structural)]
pub enum State {
    Loading,
    MainMenu,
    Game,
    Results,
}

impl Default for State {
    fn default() -> (s: State)
        ensures
            s == State::Loading,
    {
        State::Loading
    }
}

/// Results carried from one play-through to the results screen.
#[derive(Debug, Clone, Copy, PartialEq, Eq, Structural)]
pub struct Scores {
    pub high_score: u32,
    pub last_score: u32,
    pub last_wave: u32,
}

impl Default for Scores {
    fn default() -> (s: Scores)
        ensures
            s == (Scores { high_score: 0, last_score: 0, last_wave: 0 }),
    {
        Scores { high_score: 0, last_score: 0, last_wave: 0 }
    }
}

/// The buttons of the main menu.
#[derive(Debug, Clone, Copy, PartialEq, Eq, Structural)]
pub enum MenuButton {
    Start,
    Sound,
    Music,
}

/// Handles a click on a button of the main menu: the start button opens
/// the game, the other two step a volume.
pub fn button_system(button: MenuButton, state: &mut State, volume_settings: &mut VolumeSettings)
    ensures
        *final(state) == if button == MenuButton::Start {
            State::Game
        } else {
            *old(state)
        },
        *final(volume_settings) == match button {
            MenuButton::Start => *old(volume_settings),
            MenuButton::Sound => VolumeSettings {
                sfx_vol: next_volume(old(volume_settings).sfx_vol),
                ..*old(volume_settings)
            },
            MenuButton::Music => VolumeSettings {
                music_vol: next_volume(old(volume_settings).music_vol),
                ..*old(volume_settings)
            },
        },
{
    match button {
        MenuButton::Start => {
            *state = State::Game;
        },
        MenuButton::Sound => volume_settings.toggle_sfx_vol(),
        MenuButton::Music => volume_settings.toggle_music_vol(),
    }
}

/// Handles the button of the results screen that leads back to the main
/// menu.
pub fn handle_main_menu_button(state: &mut State, pressed: bool)
    ensures
        *final(state) == if pressed {
            State::MainMenu
        } else {
            *old(state)
        },
{
    if pressed {
        *state = State::MainMenu;
    }
}

/// Handles the key that leaves whatever is shown for the main menu.
pub fn trigger_game_over(state: &mut State, pressed: bool)
    ensures
        *final(state) == if pressed {
            State::MainMenu
        } else {
            *old(state)
        },
{
    if pressed {
        *state = State::MainMenu;
    }
}

} // verus!
