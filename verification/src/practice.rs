//! Local practice games: how many players, and which house colors they take.

use vstd::prelude::*;

verus! {

/// Number of house colors.
pub const PLAYER_COLOR_COUNT: usize = 6;

/// Fewest and most players of a local practice game.
pub const MIN_PLAYERS: usize = 1;

/// Most players of a local practice game.
pub const MAX_PLAYERS: usize = 4;

/// House colors sampled from the plain cloth of each player's standard, as red, green, blue.
pub const PLAYER_COLORS: [(u8, u8, u8); 6] = [
    (112, 18, 17),
    (109, 36, 55),
    (79, 113, 66),
    (107, 77, 24),
    (105, 72, 126),
    (175, 90, 43),
];

/// Colors of each house's translucent wash over the map. The rose cloth is too close to
/// red under the wash, so only its map tint is brighter.
pub const MAP_PLAYER_COLORS: [(u8, u8, u8); 6] = [
    (112, 18, 17),
    (225, 76, 158),
    (79, 113, 66),
    (107, 77, 24),
    (105, 72, 126),
    (175, 90, 43),
];

/// One player of a local game.
#[derive(Clone, Copy, Debug, PartialEq, Eq, Structural)]
pub struct PracticePlayer {
    /// Index of the player's house color.
    pub color_index: usize,
    /// The player's rank on the ladder to Augustus.
    pub rank: usize,
}

/// Setup and players of a local practice game.
pub struct LocalPractice {
    /// House color chosen for the first player.
    pub color_index: usize,
    /// Number of players chosen.
    pub player_count: usize,
    /// Player whose turn is shown.
    pub active_player: usize,
    /// Players of the running game.
    pub players: Vec<PracticePlayer>,
}

impl Default for LocalPractice {
    fn default() -> (practice: LocalPractice)
        ensures
            practice.color_index == 0,
            practice.player_count == 2,
            practice.active_player == 0,
            practice.players@.len() == 0,
    {
        LocalPractice { color_index: 0, player_count: 2, active_player: 0, players: Vec::new() }
    }
}

/// `value` within `low..=high`.
pub open spec fn clamp_to(value: int, low: int, high: int) -> int {
    if value < low {
        low
    } else if value > high {
        high
    } else {
        value
    }
}

/// `after` is `before` with a new game started: one to four players; the first takes the
/// chosen color (the last one when the choice is out of range) and each following
/// player the next color round the palette; nobody has a rank yet.
pub open spec fn started_practice(before: LocalPractice, after: LocalPractice) -> bool {
    &&& after.player_count == clamp_to(before.player_count as int, 1, 4)
    &&& after.color_index == if before.color_index < PLAYER_COLOR_COUNT {
        before.color_index
    } else {
        (PLAYER_COLOR_COUNT - 1) as usize
    }
    &&& after.active_player == 0
    &&& after.players@.len() == after.player_count
    &&& forall|p: int|
        0 <= p < after.players@.len() ==> #[trigger] after.players@[p] == (PracticePlayer {
            color_index: ((after.color_index + p) % PLAYER_COLOR_COUNT as int) as usize,
            rank: 0,
        })
}

impl LocalPractice {
    /// Starts a new game: one to four players; the first takes the chosen color and each
    /// following player the next color round the palette; nobody has a rank yet.
    /// Returns each player's color index, first player first.
    pub fn start_new_game(&mut self) -> (colors: Vec<usize>)
        ensures
            started_practice(*old(self), *final(self)),
            colors@.len() == final(self).player_count,
            forall|p: int|
                0 <= p < colors@.len() ==> #[trigger] colors@[p] == final(self).players@[p].color_index,
    {
        self.player_count = if self.player_count < MIN_PLAYERS {
            MIN_PLAYERS
        } else if self.player_count > MAX_PLAYERS {
            MAX_PLAYERS
        } else {
            self.player_count
        };
        if self.color_index > PLAYER_COLOR_COUNT - 1 {
            self.color_index = PLAYER_COLOR_COUNT - 1;
        }
        self.active_player = 0;
        let mut players: Vec<PracticePlayer> = Vec::new();
        let mut colors: Vec<usize> = Vec::new();
        let mut index: usize = 0;
        while index < self.player_count
            invariant
                self.player_count <= MAX_PLAYERS,
                self.color_index < PLAYER_COLOR_COUNT,
                index <= self.player_count,
                players@.len() == index,
                colors@.len() == index,
                forall|p: int|
                    0 <= p < index ==> #[trigger] players@[p] == (PracticePlayer {
                        color_index: ((self.color_index + p) % PLAYER_COLOR_COUNT as int) as usize,
                        rank: 0,
                    }) && colors@[p] == players@[p].color_index,
            decreases self.player_count - index,
        {
            let color = (self.color_index + index) % PLAYER_COLOR_COUNT;
            players.push(PracticePlayer { color_index: color, rank: 0 });
            colors.push(color);
            index = index + 1;
        }
        self.players = players;
        colors
    }
}

/// Every player of a game takes a real color, and no two of up to six players share one.
pub proof fn lemma_players_take_distinct_colors(first: int, a: int, b: int)
    requires
        0 <= first < PLAYER_COLOR_COUNT,
        0 <= a < b < PLAYER_COLOR_COUNT,
    ensures
        0 <= (first + a) % (PLAYER_COLOR_COUNT as int) < PLAYER_COLOR_COUNT,
        (first + a) % (PLAYER_COLOR_COUNT as int) != (first + b) % (PLAYER_COLOR_COUNT as int),
{
}

} // verus!
