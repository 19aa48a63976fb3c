//! Rules, state machines and lookup tables of the Augustus strategy game.

pub mod adjacency;
pub mod audio;
pub mod cities;
pub mod clock;
pub mod config;
pub mod famine;
pub mod game_start;
pub mod governance;
pub mod happiness;
pub mod loading;
pub mod lobby;
pub mod map_loading;
pub mod noise;
pub mod ownership;
pub mod paste;
pub mod picture;
pub mod pixels;
pub mod practice;
pub mod production;
pub mod screens;
pub mod shuffle;
pub mod starts;
mod random;
pub mod supabase;
pub mod terrain_type;
pub mod toasts;
pub mod text;
pub mod wallpapers;
