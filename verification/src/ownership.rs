//! Who owns which province, the edicts each player has in force, and who may trade.

use vstd::prelude::*;

use crate::adjacency::strictly_increasing;
use crate::governance::{default_governance, Governance};

verus! {

/// Owner of each province, the colors of each player and the edicts each has in force
/// in the running game.
pub struct ProvinceOwnership {
    /// Per province, in atlas order: the owning player, if any.
    pub owners: Vec<Option<usize>>,
    /// Per player: the house color, as red, green, blue.
    pub player_colors: Vec<(u8, u8, u8)>,
    /// Per player: the color of the player's wash over the map.
    pub map_colors: Vec<(u8, u8, u8)>,
    /// Per player: the edicts in force.
    pub governance: Vec<Governance>,
}

/// Owner of `province` under `owners`: nobody when it is unowned or out of range.
pub open spec fn owner_at(owners: Seq<Option<usize>>, province: int) -> Option<usize> {
    if 0 <= province < owners.len() {
        owners[province]
    } else {
        None
    }
}

/// Province `province` belongs to someone other than `player` and borders one of
/// `player`'s provinces.
pub open spec fn trade_partner(
    owners: Seq<Option<usize>>,
    adjacency: Seq<Vec<usize>>,
    province: int,
    player: usize,
) -> bool {
    &&& 0 <= province < owners.len()
    &&& owners[province] != Some(player)
    &&& 0 <= province < adjacency.len()
    &&& exists|k: int|
        0 <= k < adjacency[province]@.len() && owner_at(owners, #[trigger] adjacency[province]@[k] as int)
            == Some(player)
}

impl ProvinceOwnership {
    /// No game has begun: no provinces are tracked and no player has colors or edicts.
    pub fn new() -> (owners: ProvinceOwnership)
        ensures
            owners.owners@.len() == 0,
            owners.player_colors@.len() == 0,
            owners.map_colors@.len() == 0,
            owners.governance@.len() == 0,
    {
        ProvinceOwnership {
            owners: Vec::new(),
            player_colors: Vec::new(),
            map_colors: Vec::new(),
            governance: Vec::new(),
        }
    }

    /// Begins a game on `provinces` provinces for one player per color of `player_colors`:
    /// player `p` owns province `starts[p]` and nothing else, the other provinces are
    /// unowned, every player's map wash is their house color, and every player's edicts
    /// are medium.
    pub fn start_game(&mut self, provinces: usize, player_colors: &Vec<(u8, u8, u8)>, starts: &Vec<usize>)
        requires
            starts@.len() == player_colors@.len(),
            starts@.no_duplicates(),
            forall|p: int| 0 <= p < starts@.len() ==> #[trigger] starts@[p] < provinces,
        ensures
            final(self).owners@.len() == provinces,
            final(self).player_colors@ == player_colors@,
            final(self).map_colors@ == player_colors@,
            final(self).governance@.len() == starts@.len(),
            forall|p: int|
                0 <= p < starts@.len() ==> #[trigger] final(self).governance@[p] == default_governance(),
            forall|p: int|
                0 <= p < starts@.len() ==> final(self).owners@[#[trigger] starts@[p] as int] == Some(
                    p as usize,
                ),
            forall|i: int|
                0 <= i < provinces ==> match #[trigger] final(self).owners@[i] {
                    Some(player) => player < starts@.len() && starts@[player as int] == i,
                    None => !starts@.contains(i as usize),
                },
    {
        let players = starts.len();
        let mut owners: Vec<Option<usize>> = Vec::new();
        let mut i: usize = 0;
        while i < provinces
            invariant
                i <= provinces,
                owners@.len() == i,
                forall|j: int| 0 <= j < i ==> #[trigger] owners@[j] is None,
            decreases provinces - i,
        {
            owners.push(None);
            i = i + 1;
        }
        let mut governance: Vec<Governance> = Vec::new();
        let mut player: usize = 0;
        while player < players
            invariant
                player <= players,
                players == starts@.len(),
                starts@.no_duplicates(),
                forall|p: int| 0 <= p < players ==> #[trigger] starts@[p] < provinces,
                owners@.len() == provinces,
                governance@.len() == player,
                forall|p: int| 0 <= p < player ==> #[trigger] governance@[p] == default_governance(),
                forall|p: int| 0 <= p < player ==> owners@[#[trigger] starts@[p] as int] == Some(p as usize),
                forall|j: int|
                    0 <= j < provinces ==> match #[trigger] owners@[j] {
                        Some(owner) => owner < player && starts@[owner as int] == j,
                        None => forall|p: int| 0 <= p < player ==> starts@[p] != j,
                    },
            decreases players - player,
        {
            let province = starts[player];
            proof {
                if let Some(owner) = owners@[province as int] {
                    assert(starts@[owner as int] == starts@[player as int]);
                }
            }
            owners.set(province, Some(player));
            governance.push(Governance::default());
            player = player + 1;
        }
        proof {
            assert forall|j: int| 0 <= j < provinces implies match #[trigger] owners@[j] {
                Some(owner) => owner < players && starts@[owner as int] == j,
                None => !starts@.contains(j as usize),
            } by {
                if owners@[j] is None && starts@.contains(j as usize) {
                    let p = choose|p: int| 0 <= p < players && starts@[p] == j as usize;
                    assert(starts@[p] != j);
                }
            }
        }
        self.owners = owners;
        self.player_colors = copy_colors(player_colors);
        self.map_colors = copy_colors(player_colors);
        self.governance = governance;
    }

    /// Replaces every player's map wash color.
    pub fn set_map_colors(&mut self, map_colors: &Vec<(u8, u8, u8)>)
        requires
            map_colors@.len() == old(self).player_colors@.len(),
        ensures
            final(self).map_colors@ == map_colors@,
            final(self).owners@ == old(self).owners@,
            final(self).player_colors@ == old(self).player_colors@,
            final(self).governance@ == old(self).governance@,
    {
        self.map_colors = copy_colors(map_colors);
    }

    /// House color of the owner of `province`, if it is owned by a player with a color.
    pub fn color(&self, province: usize) -> (color: Option<(u8, u8, u8)>)
        ensures
            color == match owner_at(self.owners@, province as int) {
                Some(player) => if player < self.player_colors@.len() {
                    Some(self.player_colors@[player as int])
                } else {
                    None
                },
                None => None,
            },
    {
        match self.owner_of(province) {
            Some(player) => if player < self.player_colors.len() {
                Some(self.player_colors[player])
            } else {
                None
            },
            None => None,
        }
    }

    /// Map wash color of the owner of `province`, if it is owned by a player with one.
    pub fn map_color(&self, province: usize) -> (color: Option<(u8, u8, u8)>)
        ensures
            color == match owner_at(self.owners@, province as int) {
                Some(player) => if player < self.map_colors@.len() {
                    Some(self.map_colors@[player as int])
                } else {
                    None
                },
                None => None,
            },
    {
        match self.owner_of(province) {
            Some(player) => if player < self.map_colors.len() {
                Some(self.map_colors[player])
            } else {
                None
            },
            None => None,
        }
    }

    /// Edicts in force for `player`; medium edicts for a player not in the game.
    pub fn governance_for(&self, player: usize) -> (governance: Governance)
        ensures
            governance == if player < self.governance@.len() {
                self.governance@[player as int]
            } else {
                default_governance()
            },
    {
        if player < self.governance.len() {
            self.governance[player]
        } else {
            Governance::default()
        }
    }

    /// Puts `governance` in force for `player`; nothing changes for a player not in the game.
    pub fn set_governance_for(&mut self, player: usize, governance: Governance)
        ensures
            final(self).owners@ == old(self).owners@,
            final(self).player_colors@ == old(self).player_colors@,
            final(self).map_colors@ == old(self).map_colors@,
            final(self).governance@ == if player < old(self).governance@.len() {
                old(self).governance@.update(player as int, governance)
            } else {
                old(self).governance@
            },
    {
        if player < self.governance.len() {
            self.governance.set(player, governance);
        }
    }

    /// Owner of `province`, if it is tracked and owned.
    pub fn owner_of(&self, province: usize) -> (owner: Option<usize>)
        ensures
            owner == owner_at(self.owners@, province as int),
    {
        if province < self.owners.len() {
            self.owners[province]
        } else {
            None
        }
    }

    /// Provinces owned by `player`, in atlas order.
    pub fn owned_provinces(&self, player: usize) -> (provinces: Vec<usize>)
        ensures
            strictly_increasing(provinces@),
            forall|i: usize|
                #[trigger] provinces@.contains(i) <==> (i < self.owners@.len() && self.owners@[i as int]
                    == Some(player)),
    {
        let mut provinces: Vec<usize> = Vec::new();
        let mut i: usize = 0;
        while i < self.owners.len()
            invariant
                i <= self.owners@.len(),
                strictly_increasing(provinces@),
                forall|k: int| 0 <= k < provinces@.len() ==> #[trigger] provinces@[k] < i,
                forall|j: usize|
                    #[trigger] provinces@.contains(j) <==> (j < i && self.owners@[j as int] == Some(
                        player,
                    )),
            decreases self.owners@.len() - i,
        {
            let ghost before = provinces@;
            if self.owners[i] == Some(player) {
                provinces.push(i);
                assert forall|j: usize| #[trigger] provinces@.contains(j) <==> (j < i + 1
                    && self.owners@[j as int] == Some(player)) by {
                    if j == i {
                        assert(provinces@[before.len() as int] == j);
                    } else if provinces@.contains(j) {
                        let k = choose|k: int| 0 <= k < provinces@.len() && provinces@[k] == j;
                        assert(before[k] == j);
                        assert(before.contains(j));
                    } else if before.contains(j) {
                        let k = choose|k: int| 0 <= k < before.len() && before[k] == j;
                        assert(provinces@[k] == j);
                    }
                }
            } else {
                assert forall|j: usize| #[trigger] provinces@.contains(j) <==> (j < i + 1
                    && self.owners@[j as int] == Some(player)) by {
                    if j == i && provinces@.contains(j) {
                        let k = choose|k: int| 0 <= k < provinces@.len() && provinces@[k] == j;
                        assert(provinces@[k] < i);
                    }
                }
            }
            i = i + 1;
        }
        provinces
    }

    /// Whether `player` may trade with province `index`: it belongs to someone else (or
    /// nobody) and shares a border with one of `player`'s provinces.
    pub fn can_trade_with(&self, index: usize, player: usize, adjacency: &Vec<Vec<usize>>) -> (allowed:
        bool)
        ensures
            allowed == trade_partner(self.owners@, adjacency@, index as int, player),
    {
        if index >= self.owners.len() || self.owners[index] == Some(player) {
            return false;
        }
        if index >= adjacency.len() {
            return false;
        }
        let neighbors = &adjacency[index];
        let mut k: usize = 0;
        while k < neighbors.len()
            invariant
                index < self.owners@.len(),
                self.owners@[index as int] != Some(player),
                index < adjacency@.len(),
                neighbors@ == adjacency@[index as int]@,
                k <= neighbors@.len(),
                forall|j: int|
                    0 <= j < k ==> owner_at(self.owners@, #[trigger] neighbors@[j] as int) != Some(
                        player,
                    ),
            decreases neighbors@.len() - k,
        {
            if self.owner_of(neighbors[k]) == Some(player) {
                assert(owner_at(self.owners@, adjacency@[index as int]@[k as int] as int) == Some(
                    player,
                ));
                return true;
            }
            k = k + 1;
        }
        false
    }
}

/// A copy of `colors`.
fn copy_colors(colors: &Vec<(u8, u8, u8)>) -> (copy: Vec<(u8, u8, u8)>)
    ensures
        copy@ == colors@,
{
    let mut copy: Vec<(u8, u8, u8)> = Vec::new();
    let mut k: usize = 0;
    while k < colors.len()
        invariant
            k <= colors@.len(),
            copy@ == colors@.take(k as int),
        decreases colors@.len() - k,
    {
        copy.push(colors[k]);
        assert(colors@.take(k + 1) == colors@.take(k as int).push(colors@[k as int]));
        k = k + 1;
    }
    assert(colors@.take(colors@.len() as int) == colors@);
    copy
}

/// A player never trades with their own province, and trade needs a shared border with a
/// province of theirs.
pub proof fn lemma_trade_needs_a_foreign_neighbour(
    owners: Seq<Option<usize>>,
    adjacency: Seq<Vec<usize>>,
    province: int,
    player: usize,
)
    requires
        trade_partner(owners, adjacency, province, player),
    ensures
        owners[province] != Some(player),
        exists|neighbour: int|
            0 <= neighbour < owners.len() && owners[neighbour] == Some(player)
                && adjacency[province]@.contains(neighbour as usize),
{
    let k = choose|k: int|
        0 <= k < adjacency[province]@.len() && owner_at(owners, #[trigger] adjacency[province]@[k] as int)
            == Some(player);
    let neighbour = adjacency[province]@[k] as int;
    assert(adjacency[province]@.contains(neighbour as usize));
}

} // verus!
