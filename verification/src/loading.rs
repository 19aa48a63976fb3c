//! The loading slideshow that leads into a game, and what it lets the player see.
//!
//! Wallpapers change every five seconds with a 0.8 s crossfade; the first one fades in
//! over 0.12 s. Once the map is ready the slideshow gives way to a 0.8 s map reveal.
//! Times are whole milliseconds.

use vstd::prelude::*;

use crate::screens::{game_layer, ActiveGame, AppState};

verus! {

/// Time each wallpaper stays before the next one fades in.
pub const SLIDE_MILLIS: u32 = 5000;

/// Length of the crossfade between two wallpapers.
pub const CROSSFADE_MILLIS: u32 = 800;

/// Length of the reveal of the map at the end of loading.
pub const MAP_REVEAL_MILLIS: u32 = 800;

/// Length of the fade-in of the first wallpaper.
pub const FADE_IN_MILLIS: u32 = 120;

/// Progress of the loading slideshow.
#[derive(Clone, Copy, Debug, PartialEq, Eq, Structural)]
pub struct LoadingSequence {
    /// Screen that loading leads to.
    pub destination: AppState,
    /// Time since loading began.
    pub elapsed: u32,
    /// Time since the current wallpaper came up.
    pub slide_elapsed: u32,
    /// Wallpaper in front.
    pub slide_index: usize,
    /// Wallpaper fading in, or next to fade in.
    pub incoming_index: usize,
    /// Sprite layer (0 or 1) showing the front wallpaper.
    pub active_layer: usize,
    /// Time into the running crossfade, if one is running.
    pub fade_progress: Option<u32>,
    /// Time into the map reveal, once it has begun.
    pub map_reveal_progress: Option<u32>,
}

/// A slideshow that has not started: bound for the map, first wallpaper in front.
pub open spec fn idle_sequence() -> LoadingSequence {
    LoadingSequence {
        destination: AppState::HistoricalMap,
        elapsed: 0,
        slide_elapsed: 0,
        slide_index: 0,
        incoming_index: 1,
        active_layer: 0,
        fade_progress: None,
        map_reveal_progress: None,
    }
}

impl Default for LoadingSequence {
    fn default() -> (sequence: LoadingSequence)
        ensures
            sequence == idle_sequence(),
    {
        LoadingSequence {
            destination: AppState::HistoricalMap,
            elapsed: 0,
            slide_elapsed: 0,
            slide_index: 0,
            incoming_index: 1,
            active_layer: 0,
            fade_progress: None,
            map_reveal_progress: None,
        }
    }
}

/// What the sprites of the slideshow have to show after a frame.
#[derive(Clone, Copy, Debug, PartialEq, Eq, Structural)]
pub enum LoadingEffect {
    /// Nothing changes on the wallpaper sprites.
    Unchanged,
    /// The map reveal has advanced to `progress` milliseconds.
    Reveal { progress: u32 },
    /// The back layer shows at `progress` of [`CROSSFADE_MILLIS`]; when `finished`, the
    /// front layer `front` is hidden and the back layer comes to the front.
    Crossfade { progress: u32, front: usize, finished: bool },
    /// A crossfade begins: the layer behind `front` takes wallpaper `incoming`, invisible,
    /// on top.
    NewSlide { incoming: usize, front: usize },
    /// The front layer `front` shows at `elapsed` of [`FADE_IN_MILLIS`].
    FadeIn { elapsed: u32, front: usize },
}

/// Effect and screen change of one slideshow frame.
#[derive(Clone, Copy, Debug, PartialEq, Eq, Structural)]
pub struct LoadingFrame {
    /// What the sprites have to show.
    pub effect: LoadingEffect,
    /// Screen to switch to, if any.
    pub next_state: Option<AppState>,
}

/// `a + b`, or the largest `u32` where that overflows.
pub open spec fn saturated(a: int, b: int) -> u32 {
    if a + b > u32::MAX {
        u32::MAX
    } else {
        (a + b) as u32
    }
}

/// `a + b`, at most `limit`.
pub open spec fn capped(a: int, b: int, limit: int) -> u32 {
    if a + b > limit {
        limit as u32
    } else {
        (a + b) as u32
    }
}

fn add_capped(a: u32, b: u32, limit: u32) -> (sum: u32)
    ensures
        sum == capped(a as int, b as int, limit as int),
{
    let total = a.saturating_add(b);
    if total > limit || a as u64 + b as u64 > limit as u64 {
        limit
    } else {
        total
    }
}

impl LoadingSequence {
    /// Starts loading toward `destination`, from the first wallpaper. Returns the
    /// loading screen to switch to.
    pub fn begin(&mut self, destination: AppState) -> (next: AppState)
        ensures
            next == AppState::Loading,
            *final(self) == (LoadingSequence {
                destination,
                elapsed: 0,
                slide_elapsed: 0,
                slide_index: 0,
                incoming_index: 0,
                active_layer: 0,
                fade_progress: None,
                map_reveal_progress: None,
            }),
    {
        self.destination = destination;
        self.elapsed = 0;
        self.slide_elapsed = 0;
        self.slide_index = 0;
        self.incoming_index = 0;
        self.active_layer = 0;
        self.fade_progress = None;
        self.map_reveal_progress = None;
        AppState::Loading
    }

    /// Puts the first of `wallpapers` freshly shuffled wallpapers in front, with the
    /// second (if there is one) next.
    pub fn restart_slides(&mut self, wallpapers: usize)
        requires
            wallpapers > 0,
        ensures
            *final(self) == (LoadingSequence {
                slide_index: 0,
                incoming_index: if wallpapers > 1 {
                    1usize
                } else {
                    0usize
                },
                ..*old(self)
            }),
    {
        self.slide_index = 0;
        self.incoming_index = if wallpapers > 1 {
            1
        } else {
            0
        };
    }

    /// One frame of `delta` milliseconds of the slideshow on screen `state`, with
    /// `wallpapers` wallpapers (0 while none has loaded) and the map ready or not.
    pub fn advance(&mut self, state: AppState, delta: u32, wallpapers: usize, map_loaded: bool) -> (frame:
        LoadingFrame)
        requires
            old(self).active_layer < 2,
            old(self).slide_index < wallpapers || wallpapers == 0,
            old(self).fade_progress is Some ==> old(self).incoming_index < wallpapers,
        ensures
            final(self).active_layer < 2,
            final(self).slide_index < wallpapers || wallpapers == 0,
            final(self).fade_progress is Some ==> final(self).incoming_index < wallpapers,
            state != AppState::Loading || wallpapers == 0 ==> *final(self) == *old(self) && frame
                == (LoadingFrame { effect: LoadingEffect::Unchanged, next_state: None }),
            state == AppState::Loading && wallpapers > 0 ==> {
                let elapsed = saturated(old(self).elapsed as int, delta as int);
                let slide_elapsed = saturated(old(self).slide_elapsed as int, delta as int);
                &&& final(self).elapsed == elapsed
                &&& final(self).destination == old(self).destination
                &&& match old(self).map_reveal_progress {
                    Some(progress) => {
                        let next = capped(progress as int, delta as int, MAP_REVEAL_MILLIS as int);
                        &&& final(self).map_reveal_progress == Some(next)
                        &&& frame.effect == (LoadingEffect::Reveal { progress: next })
                        &&& frame.next_state == if next >= MAP_REVEAL_MILLIS {
                            Some(AppState::HistoricalMap)
                        } else {
                            None
                        }
                        &&& final(self).fade_progress == old(self).fade_progress
                        &&& final(self).slide_elapsed == slide_elapsed
                        &&& final(self).slide_index == old(self).slide_index
                        &&& final(self).active_layer == old(self).active_layer
                    },
                    None => {
                        let fade_after = match old(self).fade_progress {
                            Some(progress) => {
                                let next = capped(progress as int, delta as int, CROSSFADE_MILLIS as int);
                                if next >= CROSSFADE_MILLIS {
                                    None
                                } else {
                                    Some(next)
                                }
                            },
                            None => if slide_elapsed >= SLIDE_MILLIS && wallpapers > 1 {
                                Some(0u32)
                            } else {
                                None
                            },
                        };
                        &&& final(self).fade_progress == fade_after
                        &&& match old(self).fade_progress {
                            Some(progress) => {
                                let next = capped(progress as int, delta as int, CROSSFADE_MILLIS as int);
                                let finished = next >= CROSSFADE_MILLIS;
                                &&& frame.effect == (LoadingEffect::Crossfade {
                                    progress: next,
                                    front: old(self).active_layer,
                                    finished,
                                })
                                &&& final(self).active_layer == if finished {
                                    (1 - old(self).active_layer) as usize
                                } else {
                                    old(self).active_layer
                                }
                                &&& final(self).slide_index == if finished {
                                    old(self).incoming_index
                                } else {
                                    old(self).slide_index
                                }
                                &&& final(self).slide_elapsed == slide_elapsed
                            },
                            None => if slide_elapsed >= SLIDE_MILLIS && wallpapers > 1 {
                                let incoming = ((old(self).slide_index + 1) % wallpapers as int) as usize;
                                &&& frame.effect == (LoadingEffect::NewSlide {
                                    incoming,
                                    front: old(self).active_layer,
                                })
                                &&& final(self).incoming_index == incoming
                                &&& final(self).slide_elapsed == 0
                                &&& final(self).active_layer == old(self).active_layer
                                &&& final(self).slide_index == old(self).slide_index
                            } else {
                                &&& frame.effect == if elapsed <= FADE_IN_MILLIS {
                                    LoadingEffect::FadeIn { elapsed, front: old(self).active_layer }
                                } else {
                                    LoadingEffect::Unchanged
                                }
                                &&& final(self).slide_elapsed == slide_elapsed
                                &&& final(self).active_layer == old(self).active_layer
                                &&& final(self).slide_index == old(self).slide_index
                            },
                        }
                        &&& final(self).map_reveal_progress == if old(self).destination
                            == AppState::HistoricalMap && map_loaded && fade_after is None {
                            Some(0u32)
                        } else {
                            None
                        }
                        &&& frame.next_state == if old(self).destination != AppState::HistoricalMap {
                            Some(old(self).destination)
                        } else {
                            None
                        }
                    },
                }
            },
    {
        if state != AppState::Loading || wallpapers == 0 {
            return LoadingFrame { effect: LoadingEffect::Unchanged, next_state: None };
        }
        self.elapsed = self.elapsed.saturating_add(delta);
        self.slide_elapsed = self.slide_elapsed.saturating_add(delta);
        if let Some(progress) = self.map_reveal_progress {
            let next = add_capped(progress, delta, MAP_REVEAL_MILLIS);
            self.map_reveal_progress = Some(next);
            let next_state = if next >= MAP_REVEAL_MILLIS {
                Some(AppState::HistoricalMap)
            } else {
                None
            };
            return LoadingFrame { effect: LoadingEffect::Reveal { progress: next }, next_state };
        }
        let effect;
        if let Some(progress) = self.fade_progress {
            let next = add_capped(progress, delta, CROSSFADE_MILLIS);
            let front = self.active_layer;
            let finished = next >= CROSSFADE_MILLIS;
            self.fade_progress = Some(next);
            if finished {
                self.active_layer = 1 - self.active_layer;
                self.slide_index = self.incoming_index;
                self.fade_progress = None;
            }
            effect = LoadingEffect::Crossfade { progress: next, front, finished };
        } else if self.slide_elapsed >= SLIDE_MILLIS && wallpapers > 1 {
            self.incoming_index = (self.slide_index + 1) % wallpapers;
            self.slide_elapsed = 0;
            self.fade_progress = Some(0);
            effect = LoadingEffect::NewSlide { incoming: self.incoming_index, front: self.active_layer };
        } else if self.elapsed <= FADE_IN_MILLIS {
            effect = LoadingEffect::FadeIn { elapsed: self.elapsed, front: self.active_layer };
        } else {
            effect = LoadingEffect::Unchanged;
        }
        let mut next_state = None;
        if self.destination == AppState::HistoricalMap && map_loaded && self.fade_progress.is_none() {
            self.map_reveal_progress = Some(0);
        } else if self.destination != AppState::HistoricalMap {
            next_state = Some(self.destination);
        }
        LoadingFrame { effect, next_state }
    }
}

/// The map is fading in at the end of loading a local game.
pub open spec fn map_revealing(state: AppState, loading: LoadingSequence) -> bool {
    state == AppState::Loading && loading.destination == AppState::HistoricalMap
        && loading.map_reveal_progress is Some
}

/// Whether the map is fading in at the end of loading.
pub fn revealing_map(state: AppState, loading: &LoadingSequence) -> (revealing: bool)
    ensures
        revealing == map_revealing(state, *loading),
{
    state == AppState::Loading && loading.destination == AppState::HistoricalMap
        && loading.map_reveal_progress.is_some()
}

/// The in-game overlay shows on the game screens, the menus over them, and during the reveal.
pub open spec fn overlay_shown(state: AppState, loading: LoadingSequence) -> bool {
    map_revealing(state, loading) || game_layer(state)
}

/// The menu's audio buttons show when neither the map reveals nor a game screen or menu is up.
pub open spec fn audio_buttons_shown(state: AppState, loading: LoadingSequence) -> bool {
    !map_revealing(state, loading) && !game_layer(state)
}

/// The in-game overlay (resources, ranks, panels) shows on the game screens and menus over
/// them, and while the map reveals.
pub fn game_ui_visible(state: AppState, loading: &LoadingSequence) -> (visible: bool)
    ensures
        visible == overlay_shown(state, *loading),
{
    revealing_map(state, loading) || state == AppState::HistoricalMap
        || state == AppState::EmptyScreen || state == AppState::GameMenu
        || state == AppState::GameSettings
}

/// The menu's audio buttons show wherever the in-game overlay does not.
pub fn audio_controls_visible(state: AppState, loading: &LoadingSequence) -> (visible: bool)
    ensures
        visible == audio_buttons_shown(state, *loading),
{
    !revealing_map(state, loading) && !(state == AppState::HistoricalMap
        || state == AppState::EmptyScreen || state == AppState::GameMenu
        || state == AppState::GameSettings)
}

/// The map is drawn on its own screen, while it reveals, and behind the menus of a local game.
pub fn map_visible(state: AppState, game: ActiveGame, loading: &LoadingSequence) -> (visible: bool)
    ensures
        visible == (state == AppState::HistoricalMap || map_revealing(state, *loading) || ((state
            == AppState::GameMenu || state == AppState::GameSettings) && game
            == ActiveGame::LocalPractice)),
{
    state == AppState::HistoricalMap || revealing_map(state, loading) || ((state
        == AppState::GameMenu || state == AppState::GameSettings) && game
        == ActiveGame::LocalPractice)
}

/// The slideshow's wallpapers show while loading, until the map reveal begins.
pub fn loading_background_visible(state: AppState, loading: &LoadingSequence) -> (visible: bool)
    ensures
        visible == (state == AppState::Loading && loading.map_reveal_progress is None),
{
    state == AppState::Loading && loading.map_reveal_progress.is_none()
}

/// Exactly one of the in-game overlay and the menu's audio buttons shows at any time.
pub proof fn lemma_overlay_and_audio_buttons_alternate(state: AppState, loading: LoadingSequence)
    ensures
        audio_buttons_shown(state, loading) == !overlay_shown(state, loading),
{
}

/// The map reveal only happens on the loading screen of a game bound for the map.
pub proof fn lemma_reveal_only_while_loading_the_map(state: AppState, loading: LoadingSequence)
    ensures
        map_revealing(state, loading) ==> state == AppState::Loading && loading.destination
            == AppState::HistoricalMap,
{
}

} // verus!
