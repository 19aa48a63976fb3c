//! Lobby preview models used while the online lobby service is being configured.

use vstd::prelude::*;

use crate::random::random_index;

verus! {

/// One local host's editable details in the menu-only lobby.
#[derive(Debug, Clone)]
pub struct LobbyPreview {
    /// Display name shown to other players.
    pub display_name: String,
    /// Share code generated for the local preview.
    pub code: String,
    /// Index into the house-color palette.
    pub color_index: usize,
}

impl Default for LobbyPreview {
    /// No name, no code, the first house color.
    fn default() -> (preview: LobbyPreview)
        ensures
            preview.display_name@ == Seq::<char>::empty(),
            preview.code@ == Seq::<char>::empty(),
            preview.color_index == 0,
    {
        LobbyPreview { display_name: String::new(), code: String::new(), color_index: 0 }
    }
}

impl LobbyPreview {
    /// Replaces the current draft after creating or joining a preview lobby.
    pub fn reset(&mut self, display_name: &str, code: String)
        ensures
            final(self).display_name@ == display_name@,
            final(self).code@ == code@,
            final(self).color_index == 0,
    {
        self.display_name = String::from_str(display_name);
        self.code = code;
        self.color_index = 0;
    }
}

/// Characters a share code is drawn from: upper-case letters and digits without the
/// easily confused `I`, `O`, `0` and `1`.
pub const GAME_CODE_ALPHABET: [char; 32] = [
    'A', 'B', 'C', 'D', 'E', 'F', 'G', 'H', 'J', 'K', 'L', 'M', 'N', 'P', 'Q', 'R',
    'S', 'T', 'U', 'V', 'W', 'X', 'Y', 'Z', '2', '3', '4', '5', '6', '7', '8', '9',
];

/// A share code: two groups of four alphabet characters joined by a hyphen.
pub open spec fn is_game_code(code: Seq<char>) -> bool {
    &&& code.len() == 9
    &&& code[4] == '-'
    &&& forall|i: int| 0 <= i < 9 && i != 4 ==> GAME_CODE_ALPHABET@.contains(#[trigger] code[i])
}

/// The share code spelled by eight letter choices: the alphabet letters at `picks`, with
/// a hyphen after the fourth.
pub open spec fn game_code_of(picks: Seq<usize>) -> Seq<char> {
    Seq::new(
        9,
        |i: int|
            if i == 4 {
                '-'
            } else if i < 4 {
                GAME_CODE_ALPHABET@[picks[i] as int]
            } else {
                GAME_CODE_ALPHABET@[picks[i - 1] as int]
            },
    )
}

/// Eight letter choices, each a position in the alphabet.
pub open spec fn valid_code_picks(picks: Seq<usize>) -> bool {
    picks.len() == 8 && forall|i: int| 0 <= i < 8 ==> #[trigger] picks[i] < 32
}

/// Spells the share code of eight letter choices.
pub fn game_code_from_picks(picks: &Vec<usize>) -> (code: String)
    requires
        valid_code_picks(picks@),
    ensures
        code@ == game_code_of(picks@),
        is_game_code(code@),
{
    let mut code = String::new();
    let mut position: usize = 0;
    while position < 9
        invariant
            position <= 9,
            valid_code_picks(picks@),
            code@ == game_code_of(picks@).take(position as int),
        decreases 9 - position,
    {
        if position == 4 {
            code.push('-');
        } else {
            let choice = if position < 4 {
                picks[position]
            } else {
                picks[position - 1]
            };
            code.push(GAME_CODE_ALPHABET[choice]);
        }
        proof {
            assert(code@ =~= game_code_of(picks@).take(position + 1));
        }
        position = position + 1;
    }
    assert(code@ =~= game_code_of(picks@));
    assert forall|i: int| 0 <= i < 9 && i != 4 implies GAME_CODE_ALPHABET@.contains(
        #[trigger] code@[i],
    ) by {
        let choice = if i < 4 {
            picks@[i] as int
        } else {
            picks@[i - 1] as int
        };
        assert(GAME_CODE_ALPHABET@[choice] == code@[i]);
    }
    code
}

/// Creates a short readable code for a local lobby preview, such as `K7QM-2XBD`: eight
/// letters drawn uniformly from the alphabet by `rand`.
pub fn generate_game_code() -> (code: String)
    ensures
        is_game_code(code@),
        exists|picks: Seq<usize>| valid_code_picks(picks) && #[trigger] game_code_of(picks) == code@,
{
    let mut picks: Vec<usize> = Vec::new();
    while picks.len() < 8
        invariant
            picks@.len() <= 8,
            forall|i: int| 0 <= i < picks@.len() ==> #[trigger] picks@[i] < 32,
        decreases 8 - picks@.len(),
    {
        picks.push(random_index(0, 31));
    }
    game_code_from_picks(&picks)
}

} // verus!
