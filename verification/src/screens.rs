//! Screens of the game and the rules for moving between them.

use vstd::prelude::*;

use crate::clock::{GameClock, MAX_SPEED_STEP, MIN_SPEED_STEP};

verus! {

/// Screens of the menu-first game.
#[derive(Clone, Copy, Debug, PartialEq, Eq, Hash, Structural)]
pub enum AppState {
    /// Main navigation.
    MainMenu,
    /// New-game player-name form.
    CreateGame,
    /// Local-practice setup before entering the map.
    PracticeSetup,
    /// Join-game form.
    JoinGame,
    /// Placeholder for saved campaigns.
    ResumeGame,
    /// Multiplayer lobby presentation backed by a local preview.
    Lobby,
    /// Audio preferences.
    Settings,
    /// Full-screen wallpaper slideshow while entering a playable view.
    Loading,
    /// Local historical map.
    HistoricalMap,
    /// Pause menu shown over the current game.
    GameMenu,
    /// Audio settings shown over the current game.
    GameSettings,
    /// Blank screen shown after starting the preview lobby.
    EmptyScreen,
}

impl Default for AppState {
    fn default() -> (state: AppState)
        ensures
            state == AppState::MainMenu,
    {
        AppState::MainMenu
    }
}

/// Which kind of game is running.
#[derive(Clone, Copy, Debug, PartialEq, Eq, Structural)]
pub enum ActiveGame {
    /// Local practice on the historical map.
    LocalPractice,
    /// Preview of an online lobby.
    LobbyPreview,
}

impl Default for ActiveGame {
    fn default() -> (game: ActiveGame)
        ensures
            game == ActiveGame::LocalPractice,
    {
        ActiveGame::LocalPractice
    }
}

/// The screen where a game of kind `game` is played.
pub open spec fn game_screen(game: ActiveGame) -> AppState {
    match game {
        ActiveGame::LocalPractice => AppState::HistoricalMap,
        ActiveGame::LobbyPreview => AppState::EmptyScreen,
    }
}

impl ActiveGame {
    /// The screen where this game is played.
    pub fn screen(self) -> (state: AppState)
        ensures
            state == game_screen(self),
    {
        match self {
            ActiveGame::LocalPractice => AppState::HistoricalMap,
            ActiveGame::LobbyPreview => AppState::EmptyScreen,
        }
    }
}

/// Detail panel opened from the map.
#[derive(Clone, Copy, Debug, PartialEq, Eq, Structural)]
pub enum MapDetail {
    /// Province overview, by atlas index.
    Province(usize),
    /// City overview, by city index.
    City(usize),
}

/// Whether the governance panel is open.
#[derive(Clone, Copy, Debug, PartialEq, Eq, Structural)]
pub struct GovernancePanelOpen(pub bool);

impl Default for GovernancePanelOpen {
    /// Closed.
    fn default() -> (open: GovernancePanelOpen)
        ensures
            !open.0,
    {
        GovernancePanelOpen(false)
    }
}

/// The detail panel open on the map, if any.
#[derive(Clone, Copy, Debug, PartialEq, Eq, Structural)]
pub struct ProvincePanelOpen(pub Option<MapDetail>);

impl Default for ProvincePanelOpen {
    /// No panel open.
    fn default() -> (open: ProvincePanelOpen)
        ensures
            open.0 is None,
    {
        ProvincePanelOpen(None)
    }
}

/// Where Escape leads from `state` when no map panel is open.
pub open spec fn escape_target(state: AppState, game: ActiveGame) -> Option<AppState> {
    match state {
        AppState::MainMenu => None,
        AppState::HistoricalMap | AppState::EmptyScreen => Some(AppState::GameMenu),
        AppState::GameMenu => Some(game_screen(game)),
        AppState::GameSettings => Some(AppState::GameMenu),
        _ => Some(AppState::MainMenu),
    }
}

/// Where Escape leads from `state` when no map panel is open: into the pause menu from
/// the game, back to the game from the pause menu, back to the main menu from the forms.
pub fn escape_destination(state: AppState, game: ActiveGame) -> (target: Option<AppState>)
    ensures
        target == escape_target(state, game),
{
    match state {
        AppState::MainMenu => None,
        AppState::HistoricalMap | AppState::EmptyScreen => Some(AppState::GameMenu),
        AppState::GameMenu => Some(game.screen()),
        AppState::GameSettings => Some(AppState::GameMenu),
        _ => Some(AppState::MainMenu),
    }
}

/// On the map, Escape first closes the open detail panel, then the governance panel.
/// Returns whether it closed one.
pub fn dismiss_map_panel_on_escape(
    state: AppState,
    governance: &mut GovernancePanelOpen,
    province: &mut ProvincePanelOpen,
) -> (closed: bool)
    ensures
        state != AppState::HistoricalMap ==> !closed && *final(governance) == *old(governance) && *final(province) == *old(province),
        state == AppState::HistoricalMap && old(province).0 is Some ==> closed && final(province).0 is None
            && *final(governance) == *old(governance),
        state == AppState::HistoricalMap && old(province).0 is None ==> closed == old(governance).0
            && !final(governance).0 && final(province).0 is None,
{
    if state != AppState::HistoricalMap {
        return false;
    }
    if province.0.is_some() {
        province.0 = None;
        return true;
    }
    let was_open = governance.0;
    governance.0 = false;
    was_open
}

/// Where Escape leads once no map panel was closed, if anywhere.
pub fn handle_escape(
    state: AppState,
    game: ActiveGame,
    governance: &mut GovernancePanelOpen,
    province: &mut ProvincePanelOpen,
) -> (target: Option<AppState>)
    ensures
        state == AppState::HistoricalMap && (old(province).0 is Some || old(governance).0) ==> target is None,
        !(state == AppState::HistoricalMap && (old(province).0 is Some || old(governance).0)) ==> target
            == escape_target(state, game),
        state != AppState::HistoricalMap ==> *final(governance) == *old(governance) && *final(province)
            == *old(province),
        state == AppState::HistoricalMap && old(province).0 is Some ==> final(province).0 is None
            && *final(governance) == *old(governance),
        state == AppState::HistoricalMap && old(province).0 is None ==> !final(governance).0
            && final(province).0 is None,
{
    if dismiss_map_panel_on_escape(state, governance, province) {
        return None;
    }
    escape_destination(state, game)
}

/// Where the settings button leads: it opens the in-game settings and, pressed there,
/// returns to the game.
pub open spec fn settings_target(state: AppState, game: ActiveGame) -> AppState {
    if state == AppState::GameSettings {
        game_screen(game)
    } else {
        AppState::GameSettings
    }
}

/// Where the settings button leads from `state`.
pub fn settings_button_destination(state: AppState, game: ActiveGame) -> (target: AppState)
    ensures
        target == settings_target(state, game),
{
    if state == AppState::GameSettings {
        game.screen()
    } else {
        AppState::GameSettings
    }
}

/// Keys seen in one frame.
#[derive(Clone, Copy, Debug, PartialEq, Eq, Structural)]
pub struct ShortcutKeys {
    /// Enter (main or keypad) went down this frame.
    pub enter: bool,
    /// A Control key is held.
    pub control: bool,
    /// Left arrow went down this frame.
    pub left: bool,
    /// Right arrow went down this frame.
    pub right: bool,
    /// Space went down this frame.
    pub space: bool,
}

impl Default for ShortcutKeys {
    /// No key pressed.
    fn default() -> (keys: ShortcutKeys)
        ensures
            keys == (ShortcutKeys { enter: false, control: false, left: false, right: false, space: false }),
    {
        ShortcutKeys { enter: false, control: false, left: false, right: false, space: false }
    }
}

/// The game is on its own screen (map or lobby preview), not in a menu.
pub open spec fn in_game(state: AppState) -> bool {
    state == AppState::HistoricalMap || state == AppState::EmptyScreen
}

/// Speed change that Control with an arrow asks for: left slows, right speeds up.
pub open spec fn speed_request(keys: ShortcutKeys) -> int {
    if keys.left {
        -1
    } else if keys.right {
        1
    } else {
        0
    }
}

/// `step` moved by `change`, within the slowest and fastest settings.
pub open spec fn clamped_step(step: int, change: int) -> int {
    if step + change < MIN_SPEED_STEP {
        MIN_SPEED_STEP as int
    } else if step + change > MAX_SPEED_STEP {
        MAX_SPEED_STEP as int
    } else {
        step + change
    }
}

/// Game keyboard shortcuts: Enter or Space in the pause menu resume the game; Control
/// with an arrow changes speed on the game screen (unpausing when the speed changes);
/// Space there pauses or resumes. Returns the screen to switch to, if any.
pub fn handle_game_shortcuts(
    keys: ShortcutKeys,
    state: AppState,
    game: ActiveGame,
    paused: &mut bool,
    clock: &mut GameClock,
) -> (target: Option<AppState>)
    requires
        old(clock).wf(),
    ensures
        final(clock).wf(),
        final(clock).year == old(clock).year,
        final(clock).month == old(clock).month,
        final(clock).month_progress == old(clock).month_progress,
        state == AppState::GameMenu && keys.enter ==> target == Some(game_screen(game))
            && *final(paused) == *old(paused) && *final(clock) == *old(clock),
        !(state == AppState::GameMenu && keys.enter) ==> {
            let changes = in_game(state) && keys.control && speed_request(keys) != 0;
            let step = if changes {
                clamped_step(old(clock).speed_step as int, speed_request(keys))
            } else {
                old(clock).speed_step as int
            };
            let unpaused = if step != old(clock).speed_step {
                false
            } else {
                *old(paused)
            };
            &&& final(clock).speed_step == step
            &&& target == if keys.space && state == AppState::GameMenu {
                Some(game_screen(game))
            } else {
                None
            }
            &&& *final(paused) == if keys.space && in_game(state) {
                !unpaused
            } else {
                unpaused
            }
        },
{
    if state == AppState::GameMenu && keys.enter {
        return Some(game.screen());
    }
    if (state == AppState::HistoricalMap || state == AppState::EmptyScreen) && keys.control {
        let change: i8 = if keys.left {
            -1
        } else if keys.right {
            1
        } else {
            0
        };
        if change != 0 {
            let previous = clock.speed_step;
            clock.change_speed(change);
            if clock.speed_step != previous {
                *paused = false;
            }
        }
    }
    if !keys.space {
        return None;
    }
    match state {
        AppState::HistoricalMap | AppState::EmptyScreen => {
            *paused = !*paused;
            None
        },
        AppState::GameMenu => Some(game.screen()),
        _ => None,
    }
}

/// The state is one of the in-game screens or menus over the game.
pub open spec fn game_layer(state: AppState) -> bool {
    state == AppState::HistoricalMap || state == AppState::EmptyScreen || state == AppState::GameMenu
        || state == AppState::GameSettings
}

/// The menu wallpaper shows on every screen outside the game and its loading slideshow.
pub fn menu_background_visible(state: AppState) -> (visible: bool)
    ensures
        visible == !(state == AppState::Loading || game_layer(state)),
{
    !(state == AppState::Loading || state == AppState::HistoricalMap || state == AppState::GameMenu
        || state == AppState::GameSettings || state == AppState::EmptyScreen)
}

/// Entering a local game from the pause menu after Escape and leaving it again with
/// Escape returns to the game screen; the settings button likewise toggles between the
/// game and its settings.
pub proof fn lemma_escape_and_settings_return_to_the_game(game: ActiveGame)
    ensures
        escape_target(game_screen(game), game) == Some(AppState::GameMenu),
        escape_target(AppState::GameMenu, game) == Some(game_screen(game)),
        escape_target(AppState::GameSettings, game) == Some(AppState::GameMenu),
        settings_target(game_screen(game), game) == AppState::GameSettings,
        settings_target(AppState::GameMenu, game) == AppState::GameSettings,
        settings_target(settings_target(game_screen(game), game), game) == game_screen(game),
{
}

/// Escape never leaves the main menu, and every other screen has somewhere to go back to.
pub proof fn lemma_escape_leaves_every_screen_but_the_main_menu(state: AppState, game: ActiveGame)
    ensures
        escape_target(state, game) is None <==> state == AppState::MainMenu,
{
}

/// Escape on any menu form outside the game (creating, setting up, joining or resuming a
/// game, the lobby, the settings, the loading screen) goes back to the main menu, whatever
/// the game.
pub proof fn lemma_escape_from_a_form_returns_to_the_main_menu(state: AppState, game: ActiveGame)
    requires
        state == AppState::CreateGame || state == AppState::PracticeSetup || state
            == AppState::JoinGame || state == AppState::ResumeGame || state == AppState::Lobby
            || state == AppState::Settings || state == AppState::Loading,
    ensures
        escape_target(state, game) == Some(AppState::MainMenu),
{
}

/// Inside a game, Escape from the map or the blank screen opens the pause menu, from the
/// pause menu returns to the game's own screen, and from the in-game settings returns to
/// the pause menu, whatever the game.
pub proof fn lemma_escape_inside_a_game(game: ActiveGame)
    ensures
        escape_target(AppState::HistoricalMap, game) == Some(AppState::GameMenu),
        escape_target(AppState::EmptyScreen, game) == Some(AppState::GameMenu),
        escape_target(AppState::GameMenu, game) == Some(game_screen(game)),
        escape_target(AppState::GameSettings, game) == Some(AppState::GameMenu),
        escape_target(AppState::MainMenu, game) is None,
{
}

} // verus!
