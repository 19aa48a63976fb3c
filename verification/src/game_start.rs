//! Beginning a local practice game: its players and their colors, a well-separated
//! starting city for each player, and the owners of every province.

use vstd::prelude::*;

use crate::adjacency::strictly_increasing;
use crate::cities::{
    is_start_city, min_start_distance_km, start_city_positions, starting_candidates,
    MIN_START_DISTANCE_KM, TWO_PLAYER_MIN_START_DISTANCE_KM,
};
use crate::governance::default_governance;
use crate::ownership::ProvinceOwnership;
use crate::practice::{started_practice, LocalPractice, MAP_PLAYER_COLORS, PLAYER_COLORS};
use crate::starts::{
    count_start_sets, is_start_set, lemma_sets_from_same_spacing, spacing_covers,
    spread_out_starts, start_sets,
};

verus! {

/// Why a practice game could not begin.
#[derive(Clone, Copy, Debug, PartialEq, Eq, Structural)]
pub enum StartError {
    /// No choice of starting cities keeps every two of them far enough apart.
    NoSpacedStarts,
    /// There are more choices of starting cities than a counter can hold.
    TooManyStartSets,
}

/// Least distance in kilometres between two starting cities of a `players`-player game.
pub open spec fn min_start_distance(players: int) -> u32 {
    if players == 2 {
        TWO_PLAYER_MIN_START_DISTANCE_KM
    } else {
        MIN_START_DISTANCE_KM
    }
}

/// `starts` are different provinces, each holding a city other than Rome, and every two
/// of them lie at least `min` kilometres apart by `distances_km` (read from the later
/// province to the earlier one).
pub open spec fn spaced_starts(
    names: Seq<String>,
    distances_km: Seq<Vec<u32>>,
    min: u32,
    starts: Seq<usize>,
) -> bool {
    &&& starts.no_duplicates()
    &&& forall|p: int|
        0 <= p < starts.len() ==> #[trigger] starts[p] < names.len() && is_start_city(
            names[starts[p] as int]@,
        )
    &&& forall|p: int, q: int|
        0 <= p < starts.len() && 0 <= q < starts.len() && starts[q] < starts[p] ==> distances_km[#[trigger] starts[p] as int]@[#[trigger] starts[q] as int]
            >= min
}

/// Some `count` starting cities, listed in increasing order, are spaced out.
pub open spec fn spaced_starts_exist(
    names: Seq<String>,
    distances_km: Seq<Vec<u32>>,
    min: u32,
    count: int,
) -> bool {
    exists|set: Seq<usize>|
        set.len() == count && strictly_increasing(set) && #[trigger] spaced_starts(
            names,
            distances_km,
            min,
            set,
        )
}

/// `spacing` marks exactly the province pairs that lie at least `min` kilometres apart
/// by `distances_km`.
pub open spec fn spacing_matches(spacing: Seq<Vec<bool>>, distances_km: Seq<Vec<u32>>, min: u32) -> bool {
    &&& spacing.len() == distances_km.len()
    &&& forall|a: int|
        0 <= a < spacing.len() ==> (#[trigger] spacing[a])@.len() == distances_km[a]@.len()
    &&& forall|a: int, b: int|
        0 <= a < spacing.len() && 0 <= b < spacing[a]@.len() ==> #[trigger] spacing[a]@[b] == (
        distances_km[a]@[b] >= min)
}

/// The start sets of `players` cities among `names`, counted under the spacing that
/// `distances_km` and `min` give, fit in a `usize` counter.
pub open spec fn start_sets_fit(
    names: Seq<String>,
    distances_km: Seq<Vec<u32>>,
    min: u32,
    players: int,
) -> bool {
    forall|spacing: Seq<Vec<bool>>|
        spacing_matches(spacing, distances_km, min) ==> #[trigger] start_sets(
            start_city_positions(names, names.len() as int),
            spacing,
            players,
        ).len() <= usize::MAX
}

/// Any two spacing tables built from the same distances give the same start sets.
proof fn lemma_matching_tables_agree(
    first: Seq<Vec<bool>>,
    second: Seq<Vec<bool>>,
    distances_km: Seq<Vec<u32>>,
    min: u32,
    candidates: Seq<usize>,
    players: int,
)
    requires
        spacing_matches(first, distances_km, min),
        spacing_matches(second, distances_km, min),
        forall|i: int| 0 <= i < candidates.len() ==> #[trigger] candidates[i] < first.len(),
    ensures
        start_sets(candidates, first, players) == start_sets(candidates, second, players),
{
    assert forall|a: int| 0 <= a < first.len() implies (#[trigger] first[a])@ == second[a]@ by {
        assert(first[a]@ =~= second[a]@);
    }
    lemma_sets_from_same_spacing(candidates, first, second, players, Seq::empty(), 0);
}

/// For each province pair, whether the two lie at least `min` kilometres apart.
fn spacing_table(distances_km: &Vec<Vec<u32>>, min: u32) -> (spacing: Vec<Vec<bool>>)
    ensures
        spacing@.len() == distances_km@.len(),
        forall|a: int|
            0 <= a < spacing@.len() ==> (#[trigger] spacing@[a])@.len() == distances_km@[a]@.len(),
        forall|a: int, b: int|
            0 <= a < spacing@.len() && 0 <= b < spacing@[a]@.len() ==> #[trigger] spacing@[a]@[b]
                == (distances_km@[a]@[b] >= min),
{
    let mut spacing: Vec<Vec<bool>> = Vec::new();
    let mut a: usize = 0;
    while a < distances_km.len()
        invariant
            a <= distances_km@.len(),
            spacing@.len() == a,
            forall|i: int| 0 <= i < a ==> (#[trigger] spacing@[i])@.len() == distances_km@[i]@.len(),
            forall|i: int, j: int|
                0 <= i < a && 0 <= j < spacing@[i]@.len() ==> #[trigger] spacing@[i]@[j] == (
                distances_km@[i]@[j] >= min),
        decreases distances_km@.len() - a,
    {
        let row = &distances_km[a];
        let mut far: Vec<bool> = Vec::new();
        let mut b: usize = 0;
        while b < row.len()
            invariant
                b <= row@.len(),
                far@.len() == b,
                forall|j: int| 0 <= j < b ==> #[trigger] far@[j] == (row@[j] >= min),
            decreases row@.len() - b,
        {
            far.push(row[b] >= min);
            b = b + 1;
        }
        spacing.push(far);
        a = a + 1;
    }
    spacing
}

/// Starts a local practice game on the provinces `names`, with `distances_km[a][b]` the
/// whole kilometres between provinces `a` and `b`: the practice gets its players and
/// colors, each player one well-separated starting city at random, and the ownership
/// records those starts with every player's edicts at medium. Returns each player's
/// starting province, first player first; on an error the ownership is left as it was.
pub fn start_practice_game(
    practice: &mut LocalPractice,
    ownership: &mut ProvinceOwnership,
    names: &Vec<String>,
    distances_km: &Vec<Vec<u32>>,
) -> (started: Result<Vec<usize>, StartError>)
    requires
        distances_km@.len() == names@.len(),
        forall|a: int| 0 <= a < names@.len() ==> (#[trigger] distances_km@[a])@.len() == names@.len(),
    ensures
        started_practice(*old(practice), *final(practice)),
        ({
            let players = final(practice).player_count as int;
            let min = min_start_distance(players);
            &&& started == Err::<Vec<usize>, StartError>(StartError::TooManyStartSets)
                <==> !start_sets_fit(names@, distances_km@, min, players)
            &&& started is Ok <==> spaced_starts_exist(names@, distances_km@, min, players)
                && start_sets_fit(names@, distances_km@, min, players)
            &&& started == Err::<Vec<usize>, StartError>(StartError::NoSpacedStarts) <==> (
            !spaced_starts_exist(names@, distances_km@, min, players) && start_sets_fit(
                names@,
                distances_km@,
                min,
                players,
            ))
            &&& started is Err ==> *final(ownership) == *old(ownership)
            &&& started matches Ok(starts) ==> {
                &&& starts@.len() == players
                &&& final(ownership).player_colors@.len() == players
                &&& final(ownership).map_colors@.len() == players
                &&& forall|p: int|
                    0 <= p < players ==> #[trigger] final(ownership).player_colors@[p]
                        == PLAYER_COLORS@[final(practice).players@[p].color_index as int]
                &&& forall|p: int|
                    0 <= p < players ==> #[trigger] final(ownership).map_colors@[p]
                        == MAP_PLAYER_COLORS@[final(practice).players@[p].color_index as int]
                &&& spaced_starts(names@, distances_km@, min, starts@)
                &&& final(ownership).owners@.len() == names@.len()
                &&& final(ownership).governance@.len() == players
                &&& forall|p: int|
                    0 <= p < players ==> #[trigger] final(ownership).governance@[p]
                        == default_governance()
                &&& forall|p: int|
                    0 <= p < players ==> final(ownership).owners@[#[trigger] starts@[p] as int]
                        == Some(p as usize)
                &&& forall|i: int|
                    0 <= i < names@.len() ==> match #[trigger] final(ownership).owners@[i] {
                        Some(player) => player < players && starts@[player as int] == i,
                        None => !starts@.contains(i as usize),
                    }
            }
        }),
{
    let colors = practice.start_new_game();
    let players = colors.len();
    let candidates = starting_candidates(names);
    let min = min_start_distance_km(players);
    let spacing = spacing_table(distances_km, min);
    let ghost cands = candidates@;
    proof {
        assert(spacing_covers(cands, spacing@)) by {
            assert forall|a: int, b: int|
                0 <= a < cands.len() && 0 <= b < cands.len() implies #[trigger] cands[a]
                < spacing@.len() && #[trigger] cands[b] < spacing@[cands[a] as int]@.len() by {
                assert(cands[a] < names@.len() && cands[b] < names@.len());
            }
        }
        lemma_start_sets_match(names@, distances_km@, min, players as int, cands, spacing@);
        assert(spacing_matches(spacing@, distances_km@, min));
        assert forall|other: Seq<Vec<bool>>|
            spacing_matches(other, distances_km@, min) implies #[trigger] start_sets(
            start_city_positions(names@, names@.len() as int),
            other,
            players as int,
        ) == start_sets(cands, spacing@, players as int) by {
            lemma_matching_tables_agree(
                spacing@,
                other,
                distances_km@,
                min,
                cands,
                players as int,
            );
        }
    }
    match count_start_sets(players, &candidates, &spacing) {
        None => {
            proof {
                assert(start_sets(
                    start_city_positions(names@, names@.len() as int),
                    spacing@,
                    players as int,
                ).len() > usize::MAX);
            }
            return Err(StartError::TooManyStartSets);
        },
        Some(_) => {},
    }
    assert(start_sets_fit(names@, distances_km@, min, players as int));
    let starts = match spread_out_starts(players, &candidates, &spacing) {
        None => {
            return Err(StartError::NoSpacedStarts);
        },
        Some(order) => order,
    };
    proof {
        lemma_spaced_order_matches(names@, distances_km@, min, players as int, cands, spacing@, starts@);
    }
    let house = palette_colors(&PLAYER_COLORS, &colors);
    let wash = palette_colors(&MAP_PLAYER_COLORS, &colors);
    ownership.start_game(names.len(), &house, &starts);
    ownership.set_map_colors(&wash);
    Ok(starts)
}

/// The colors of `palette` at `indices`, in order.
fn palette_colors(palette: &[(u8, u8, u8); 6], indices: &Vec<usize>) -> (colors: Vec<(u8, u8, u8)>)
    requires
        forall|p: int| 0 <= p < indices@.len() ==> #[trigger] indices@[p] < 6,
    ensures
        colors@.len() == indices@.len(),
        forall|p: int| 0 <= p < indices@.len() ==> #[trigger] colors@[p] == palette@[indices@[p] as int],
{
    let mut colors: Vec<(u8, u8, u8)> = Vec::new();
    let mut k: usize = 0;
    while k < indices.len()
        invariant
            k <= indices@.len(),
            colors@.len() == k,
            forall|p: int| 0 <= p < indices@.len() ==> #[trigger] indices@[p] < 6,
            forall|p: int| 0 <= p < k ==> #[trigger] colors@[p] == palette@[indices@[p] as int],
        decreases indices@.len() - k,
    {
        colors.push(palette[indices[k]]);
        k = k + 1;
    }
    colors
}

/// With the spacing table built from the distances and the candidates the start cities,
/// start sets are exactly the spaced-out increasing choices of start cities.
proof fn lemma_start_sets_match(
    names: Seq<String>,
    distances_km: Seq<Vec<u32>>,
    min: u32,
    count: int,
    candidates: Seq<usize>,
    spacing: Seq<Vec<bool>>,
)
    requires
        distances_km.len() == names.len(),
        forall|a: int| 0 <= a < names.len() ==> (#[trigger] distances_km[a])@.len() == names.len(),
        spacing.len() == distances_km.len(),
        forall|a: int| 0 <= a < spacing.len() ==> (#[trigger] spacing[a])@.len() == distances_km[a]@.len(),
        forall|a: int, b: int|
            0 <= a < spacing.len() && 0 <= b < spacing[a]@.len() ==> #[trigger] spacing[a]@[b] == (
            distances_km[a]@[b] >= min),
        forall|i: usize|
            #[trigger] candidates.contains(i) <==> (i < names.len() && is_start_city(names[i as int]@)),
    ensures
        spaced_starts_exist(names, distances_km, min, count) <==> exists|set: Seq<usize>|
            is_start_set(candidates, spacing, count, set),
{
    if spaced_starts_exist(names, distances_km, min, count) {
        let set = choose|set: Seq<usize>|
            set.len() == count && strictly_increasing(set) && #[trigger] spaced_starts(
                names,
                distances_km,
                min,
                set,
            );
        assert forall|k: int| 0 <= k < set.len() implies candidates.contains(#[trigger] set[k]) by {
            assert(set[k] < names.len() && is_start_city(names[set[k] as int]@));
        }
        assert forall|x: int, y: int| 0 <= x < y < set.len() implies crate::starts::far_apart(
            spacing,
            #[trigger] set[y],
            #[trigger] set[x],
        ) by {
            assert(set[x] < set[y]);
            assert(set[y] < names.len() && set[x] < names.len());
        }
        assert(is_start_set(candidates, spacing, count, set));
    }
    if exists|set: Seq<usize>| is_start_set(candidates, spacing, count, set) {
        let set = choose|set: Seq<usize>| is_start_set(candidates, spacing, count, set);
        assert forall|p: int| 0 <= p < set.len() implies #[trigger] set[p] < names.len()
            && is_start_city(names[set[p] as int]@) by {
            assert(candidates.contains(set[p]));
        }
        assert forall|i: int, j: int| 0 <= i < set.len() && 0 <= j < set.len() && i != j implies set[i]
            != set[j] by {
            if i < j {
                assert(set[i] < set[j]);
            } else {
                assert(set[j] < set[i]);
            }
        }
        assert forall|p: int, q: int|
            0 <= p < set.len() && 0 <= q < set.len() && set[q] < set[p] implies distances_km[#[trigger] set[p] as int]@[#[trigger] set[q] as int]
            >= min by {
            if q >= p {
                if q > p {
                    assert(set[p] < set[q]);
                }
            }
            assert(candidates.contains(set[p]) && candidates.contains(set[q]));
            assert(crate::starts::far_apart(spacing, set[p], set[q]));
        }
        assert(spaced_starts(names, distances_km, min, set));
    }
}

/// A spaced order of start-city candidates under the distance-built spacing table is a
/// spaced choice of starting cities.
proof fn lemma_spaced_order_matches(
    names: Seq<String>,
    distances_km: Seq<Vec<u32>>,
    min: u32,
    count: int,
    candidates: Seq<usize>,
    spacing: Seq<Vec<bool>>,
    order: Seq<usize>,
)
    requires
        distances_km.len() == names.len(),
        forall|a: int| 0 <= a < names.len() ==> (#[trigger] distances_km[a])@.len() == names.len(),
        spacing.len() == distances_km.len(),
        forall|a: int| 0 <= a < spacing.len() ==> (#[trigger] spacing[a])@.len() == distances_km[a]@.len(),
        forall|a: int, b: int|
            0 <= a < spacing.len() && 0 <= b < spacing[a]@.len() ==> #[trigger] spacing[a]@[b] == (
            distances_km[a]@[b] >= min),
        forall|i: usize|
            #[trigger] candidates.contains(i) <==> (i < names.len() && is_start_city(names[i as int]@)),
        crate::starts::spaced_order(candidates, spacing, count, order),
    ensures
        spaced_starts(names, distances_km, min, order),
{
    assert forall|p: int| 0 <= p < order.len() implies #[trigger] order[p] < names.len()
        && is_start_city(names[order[p] as int]@) by {
        assert(candidates.contains(order[p]));
    }
    assert forall|p: int, q: int|
        0 <= p < order.len() && 0 <= q < order.len() && order[q] < order[p] implies distances_km[#[trigger] order[p] as int]@[#[trigger] order[q] as int]
        >= min by {
        assert(candidates.contains(order[p]) && candidates.contains(order[q]));
        assert(crate::starts::far_apart(spacing, order[p], order[q]));
    }
}

} // verus!
