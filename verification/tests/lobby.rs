use augustus::config::{ConfigError, SupabaseConfig};
use augustus::lobby::{game_code_from_picks, generate_game_code, LobbyPreview, GAME_CODE_ALPHABET};
use augustus::supabase::SupabaseLobbyAdapter;

#[test]
fn game_codes_are_two_groups_of_four_readable_characters() {
    for _ in 0..50 {
        let code: Vec<char> = generate_game_code().chars().collect();
        assert_eq!(code.len(), 9);
        assert_eq!(code[4], '-');
        for (index, letter) in code.iter().enumerate() {
            if index != 4 {
                assert!(GAME_CODE_ALPHABET.contains(letter), "{letter}");
            }
        }
    }
}

#[test]
fn reset_replaces_the_draft() {
    let mut lobby = LobbyPreview { display_name: "Old".into(), code: "X".into(), color_index: 3 };
    lobby.reset("Livia", "ABCD-2345".into());
    assert_eq!(lobby.display_name, "Livia");
    assert_eq!(lobby.code, "ABCD-2345");
    assert_eq!(lobby.color_index, 0);
}

#[test]
fn placeholder_configuration_is_valid_but_not_ready() {
    let adapter = SupabaseLobbyAdapter::configured().expect("placeholders are valid");
    assert!(!adapter.is_ready());
    let real = SupabaseLobbyAdapter {
        config: SupabaseConfig::new("https://abcd.supabase.co", "sb_publishable_xyz").unwrap(),
    };
    assert!(real.is_ready());
    assert_eq!(SupabaseConfig::new("", "key").err(), Some(ConfigError::MissingUrl));
    assert_eq!(
        SupabaseConfig::new("https://abcd.supabase.co", "").err(),
        Some(ConfigError::MissingPublishableKey)
    );
}

#[test]
fn letter_choices_spell_the_code() {
    assert_eq!(game_code_from_picks(&vec![9, 31, 15, 11, 24, 0, 1, 3]), "K9RM-2ABD");
    assert_eq!(game_code_from_picks(&vec![0; 8]), "AAAA-AAAA");
}
