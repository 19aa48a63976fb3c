use augustus::clock::GameClock;
use augustus::loading::{
    audio_controls_visible, game_ui_visible, loading_background_visible, map_visible,
    revealing_map, LoadingEffect, LoadingSequence,
};
use augustus::screens::{
    dismiss_map_panel_on_escape, escape_destination, handle_escape, handle_game_shortcuts,
    menu_background_visible, settings_button_destination, ActiveGame, AppState,
    GovernancePanelOpen, MapDetail, ProvincePanelOpen, ShortcutKeys,
};

#[test]
fn map_reveal_starts_only_after_loading_and_for_the_map() {
    let mut loading = LoadingSequence::default();
    assert!(!revealing_map(AppState::Loading, &loading));
    loading.map_reveal_progress = Some(0);
    assert!(revealing_map(AppState::Loading, &loading));
    assert!(!revealing_map(AppState::HistoricalMap, &loading));
    loading.destination = AppState::EmptyScreen;
    assert!(!revealing_map(AppState::Loading, &loading));
}

#[test]
fn escape_opens_and_closes_the_correct_game_menu() {
    let mut governance = GovernancePanelOpen(true);
    let mut province = ProvincePanelOpen::default();
    assert!(dismiss_map_panel_on_escape(AppState::HistoricalMap, &mut governance, &mut province));
    assert!(!governance.0);
    assert!(!dismiss_map_panel_on_escape(AppState::HistoricalMap, &mut governance, &mut province));
    province.0 = Some(MapDetail::City(0));
    assert!(dismiss_map_panel_on_escape(AppState::HistoricalMap, &mut governance, &mut province));
    assert_eq!(province.0, None);
    for (game, screen) in [
        (ActiveGame::LocalPractice, AppState::HistoricalMap),
        (ActiveGame::LobbyPreview, AppState::EmptyScreen),
    ] {
        assert_eq!(escape_destination(screen, game), Some(AppState::GameMenu));
        assert_eq!(escape_destination(AppState::GameMenu, game), Some(screen));
        assert_eq!(escape_destination(AppState::GameSettings, game), Some(AppState::GameMenu));
    }
}

#[test]
fn settings_button_closes_settings_to_the_game() {
    for (game, screen) in [
        (ActiveGame::LocalPractice, AppState::HistoricalMap),
        (ActiveGame::LobbyPreview, AppState::EmptyScreen),
    ] {
        assert_eq!(settings_button_destination(screen, game), AppState::GameSettings);
        assert_eq!(settings_button_destination(AppState::GameMenu, game), AppState::GameSettings);
        assert_eq!(settings_button_destination(AppState::GameSettings, game), screen);
    }
}

#[test]
fn escape_on_the_map_closes_panels_before_opening_the_menu() {
    let game = ActiveGame::LocalPractice;
    let mut governance = GovernancePanelOpen(true);
    let mut province = ProvincePanelOpen(Some(MapDetail::Province(3)));
    assert_eq!(handle_escape(AppState::HistoricalMap, game, &mut governance, &mut province), None);
    assert_eq!(province.0, None);
    assert!(governance.0);
    assert_eq!(handle_escape(AppState::HistoricalMap, game, &mut governance, &mut province), None);
    assert!(!governance.0);
    assert_eq!(
        handle_escape(AppState::HistoricalMap, game, &mut governance, &mut province),
        Some(AppState::GameMenu)
    );
    assert_eq!(handle_escape(AppState::MainMenu, game, &mut governance, &mut province), None);
    assert_eq!(
        handle_escape(AppState::Settings, game, &mut governance, &mut province),
        Some(AppState::MainMenu)
    );
    let mut open = GovernancePanelOpen(true);
    assert_eq!(
        handle_escape(AppState::GameMenu, game, &mut open, &mut province),
        Some(AppState::HistoricalMap)
    );
    assert!(open.0);
}

#[test]
fn shortcuts_pause_resume_and_change_speed() {
    let game = ActiveGame::LocalPractice;
    let mut paused = false;
    let mut clock = GameClock::default();
    let space = ShortcutKeys { space: true, ..Default::default() };
    assert_eq!(handle_game_shortcuts(space, AppState::HistoricalMap, game, &mut paused, &mut clock), None);
    assert!(paused);
    let faster = ShortcutKeys { control: true, right: true, ..Default::default() };
    handle_game_shortcuts(faster, AppState::HistoricalMap, game, &mut paused, &mut clock);
    assert_eq!(clock.speed_step, 1);
    assert!(!paused);
    paused = true;
    clock.speed_step = 2;
    handle_game_shortcuts(faster, AppState::HistoricalMap, game, &mut paused, &mut clock);
    assert_eq!(clock.speed_step, 2);
    assert!(paused, "an unchanged speed keeps the pause");
    let enter = ShortcutKeys { enter: true, ..Default::default() };
    assert_eq!(
        handle_game_shortcuts(enter, AppState::GameMenu, game, &mut paused, &mut clock),
        Some(AppState::HistoricalMap)
    );
    assert_eq!(
        handle_game_shortcuts(space, AppState::GameMenu, ActiveGame::LobbyPreview, &mut paused, &mut clock),
        Some(AppState::EmptyScreen)
    );
    assert_eq!(handle_game_shortcuts(space, AppState::Settings, game, &mut paused, &mut clock), None);
    assert!(paused);
}

#[test]
fn overlay_and_audio_buttons_never_show_together() {
    let loading = LoadingSequence::default();
    for state in [
        AppState::MainMenu,
        AppState::Settings,
        AppState::Loading,
        AppState::HistoricalMap,
        AppState::GameMenu,
        AppState::EmptyScreen,
    ] {
        assert_ne!(game_ui_visible(state, &loading), audio_controls_visible(state, &loading));
    }
    assert!(map_visible(AppState::GameSettings, ActiveGame::LocalPractice, &loading));
    assert!(!map_visible(AppState::GameSettings, ActiveGame::LobbyPreview, &loading));
    assert!(menu_background_visible(AppState::Lobby));
    assert!(!menu_background_visible(AppState::Loading));
    assert!(loading_background_visible(AppState::Loading, &loading));
}

#[test]
fn slideshow_fades_in_crossfades_and_reveals_the_map() {
    let mut loading = LoadingSequence::default();
    assert_eq!(loading.begin(AppState::HistoricalMap), AppState::Loading);
    loading.restart_slides(3);
    let frame = loading.advance(AppState::Loading, 60, 3, false);
    assert_eq!(frame.effect, LoadingEffect::FadeIn { elapsed: 60, front: 0 });
    assert_eq!(frame.next_state, None);
    let frame = loading.advance(AppState::Loading, 5000, 3, false);
    assert_eq!(frame.effect, LoadingEffect::NewSlide { incoming: 1, front: 0 });
    assert_eq!(loading.fade_progress, Some(0));
    let frame = loading.advance(AppState::Loading, 400, 3, true);
    assert_eq!(frame.effect, LoadingEffect::Crossfade { progress: 400, front: 0, finished: false });
    assert_eq!(loading.map_reveal_progress, None, "no reveal during a crossfade");
    let frame = loading.advance(AppState::Loading, 500, 3, true);
    assert_eq!(frame.effect, LoadingEffect::Crossfade { progress: 800, front: 0, finished: true });
    assert_eq!(loading.active_layer, 1);
    assert_eq!(loading.slide_index, 1);
    assert_eq!(loading.map_reveal_progress, Some(0));
    let frame = loading.advance(AppState::Loading, 900, 3, true);
    assert_eq!(frame.effect, LoadingEffect::Reveal { progress: 800 });
    assert_eq!(frame.next_state, Some(AppState::HistoricalMap));
}

#[test]
fn loading_toward_the_lobby_switches_at_once() {
    let mut loading = LoadingSequence::default();
    loading.begin(AppState::EmptyScreen);
    let frame = loading.advance(AppState::Loading, 16, 2, false);
    assert_eq!(frame.next_state, Some(AppState::EmptyScreen));
    let frame = loading.advance(AppState::Loading, 16, 0, false);
    assert_eq!(frame.next_state, None);
    assert_eq!(frame.effect, LoadingEffect::Unchanged);
}
