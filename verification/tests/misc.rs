use augustus::governance::{EdictLevel, Governance};
use augustus::audio::{AudioMode, AudioModes};
use augustus::famine::{famine_mortality, next_famine_months};
use augustus::paste::classify_browser_paste;
use augustus::practice::{LocalPractice, PracticePlayer};
use augustus::shuffle::{shuffle, shuffle_with};
use augustus::wallpapers::{numbered_wallpapers, wallpaper_number};

#[test]
fn mute_remembers_the_audible_mode() {
    let mut audio = AudioModes::new();
    audio.set_mode(AudioMode::Music);
    audio.toggle_mute();
    assert_eq!(audio.mode, AudioMode::Mute);
    audio.toggle_mute();
    assert_eq!(audio.mode, AudioMode::Music);
    audio.set_mode(AudioMode::Mute);
    audio.toggle_mute();
    assert_eq!(audio.mode, AudioMode::Music);
}

#[test]
fn famine_escalates_from_shortage_to_collapse() {
    assert_eq!(next_famine_months(0, true), 1);
    assert_eq!(next_famine_months(5, false), 0);
    assert_eq!(next_famine_months(u32::MAX, true), u32::MAX);
    assert_eq!(famine_mortality(0), 0);
    assert_eq!(famine_mortality(2), 0);
    assert_eq!(famine_mortality(3), 2);
    assert_eq!(famine_mortality(7), 2);
    assert_eq!(famine_mortality(8), 5);
}

#[test]
fn browser_paste_answers_are_classified() {
    assert_eq!(classify_browser_paste(Some("code".into()), Some(false)), Some(Ok("code".into())));
    assert_eq!(classify_browser_paste(None, Some(false)), Some(Err(())));
    assert_eq!(classify_browser_paste(None, Some(true)), None);
    assert_eq!(classify_browser_paste(None, None), None);
}

#[test]
fn practice_players_take_consecutive_colors() {
    let mut practice = LocalPractice { color_index: 4, player_count: 9, ..Default::default() };
    let colors = practice.start_new_game();
    assert_eq!(practice.player_count, 4);
    assert_eq!(colors, vec![4, 5, 0, 1]);
    assert_eq!(practice.players[2], PracticePlayer { color_index: 0, rank: 0 });
    let mut solo = LocalPractice { color_index: 40, player_count: 0, ..Default::default() };
    assert_eq!(solo.start_new_game(), vec![5]);
}

#[test]
fn shuffle_keeps_every_item() {
    let mut items: Vec<u32> = (0..20).collect();
    shuffle(&mut items);
    let mut sorted = items.clone();
    sorted.sort_unstable();
    assert_eq!(sorted, (0..20).collect::<Vec<u32>>());
}

#[test]
fn shuffle_moves_items_around() {
    let original: Vec<u32> = (0..20).collect();
    let moved = (0..10).any(|_| {
        let mut items = original.clone();
        shuffle(&mut items);
        items != original
    });
    assert!(moved);
}

#[test]
fn only_numbered_wallpapers_load() {
    assert_eq!(wallpaper_number("bg1.basisu.ktx2"), Some(1));
    assert_eq!(wallpaper_number("bg12.basisu.ktx2"), Some(12));
    assert_eq!(wallpaper_number("bg+7.basisu.ktx2"), Some(7));
    assert_eq!(wallpaper_number("bg007.basisu.ktx2"), Some(7));
    assert_eq!(wallpaper_number("bg13.basisu.ktx2"), None);
    assert_eq!(wallpaper_number("bg0.basisu.ktx2"), None);
    assert_eq!(wallpaper_number("bg-menu.basisu.ktx2"), None);
    assert_eq!(wallpaper_number("bg.basisu.ktx2"), None);
    assert_eq!(wallpaper_number("bg3.png"), None);
    assert_eq!(wallpaper_number("bg300.basisu.ktx2"), None);
    let names: Vec<String> = ["bg10.basisu.ktx2", "bg-menu.basisu.ktx2", "bg2.basisu.ktx2", "bg02.basisu.ktx2"]
        .iter()
        .map(|s| s.to_string())
        .collect();
    assert_eq!(numbered_wallpapers(&names), vec![(2, 2), (2, 3), (10, 0)]);
}

#[test]
fn food_rations_and_hard_labor_set_class_growth_rates() {
    for (level, per_mille) in [(EdictLevel::Low, 5), (EdictLevel::Medium, 10), (EdictLevel::High, 15)] {
        let rations = Governance { food_rations: level, ..Default::default() };
        assert_eq!(rations.population_growth_per_mille(), per_mille);
        assert_eq!(rations.slave_population_growth_per_mille(), per_mille);
        let hard_labor = Governance { slave_labor: EdictLevel::High, ..rations };
        assert_eq!(hard_labor.population_growth_per_mille(), per_mille);
        assert_eq!(hard_labor.slave_population_growth_per_mille(), per_mille - 5);
    }
}

#[test]
fn shuffle_with_given_draws_swaps_from_the_top_down() {
    let mut items = vec!['a', 'b', 'c', 'd'];
    shuffle_with(&mut items, &vec![0, 0, 1, 3]);
    assert_eq!(items, vec!['c', 'a', 'b', 'd']);
    let mut reversed = vec![1, 2, 3];
    shuffle_with(&mut reversed, &vec![0, 0, 0]);
    assert_eq!(reversed, vec![2, 3, 1]);
}
