//! The eight great cities, their provinces, and where local players may start.

use vstd::prelude::*;

use crate::adjacency::strictly_increasing;
use crate::text::str_eq;

verus! {

/// Province holding Rome; no player starts there.
pub const ROME_PROVINCE: &'static str = "Latium";

/// Number of provinces with a city overlay.
pub const CITY_COUNT: usize = 8;

/// Provinces with a city overlay and the name of their city.
pub const CITY_SITES: [(&'static str, &'static str); 8] = [
    ("Latium", "Rome"),
    ("Lugdunensis", "Lutetia"),
    ("Tarraconensis", "Tarraco"),
    ("Africa Proconsularis", "Carthage"),
    ("Achaia", "Athens"),
    ("Aegyptus", "Alexandria"),
    ("Asia", "Ephesus"),
    ("Syria", "Antioch"),
];

/// Least distance between two starting provinces with three or four players, in kilometres.
pub const MIN_START_DISTANCE_KM: u32 = 1000;

/// Least distance between the two starting provinces of a two-player game, in kilometres.
pub const TWO_PLAYER_MIN_START_DISTANCE_KM: u32 = 2100;

/// The province named `name` holds a city.
pub open spec fn is_urban(name: Seq<char>) -> bool {
    exists|i: int| 0 <= i < CITY_COUNT && CITY_SITES@[i].0@ == name
}

/// A player may start in the province named `name`: it holds a city other than Rome.
pub open spec fn is_start_city(name: Seq<char>) -> bool {
    is_urban(name) && name != ROME_PROVINCE@
}

/// The entry at `index` is the first city site in province `name`.
pub open spec fn first_site(name: Seq<char>, index: int) -> bool {
    &&& 0 <= index < CITY_COUNT
    &&& CITY_SITES@[index].0@ == name
    &&& forall|earlier: int| 0 <= earlier < index ==> CITY_SITES@[earlier].0@ != name
}

/// Position of the city site in province `name`, if the province holds a city.
fn site_index(name: &str) -> (found: Option<usize>)
    ensures
        found is None <==> !is_urban(name@),
        found matches Some(index) ==> first_site(name@, index as int),
{
    let mut index: usize = 0;
    while index < CITY_COUNT
        invariant
            index <= CITY_COUNT,
            forall|earlier: int| 0 <= earlier < index ==> CITY_SITES@[earlier].0@ != name@,
        decreases CITY_COUNT - index,
    {
        if str_eq(CITY_SITES[index].0, name) {
            return Some(index);
        }
        index = index + 1;
    }
    None
}

/// Name of the city that stands in the province named `name`, if any.
pub fn city_name_for_province(name: &str) -> (city: Option<&'static str>)
    ensures
        city is None <==> !is_urban(name@),
        city matches Some(c) ==> exists|index: int|
            first_site(name@, index) && c@ == CITY_SITES@[index].1@,
{
    match site_index(name) {
        Some(index) => Some(CITY_SITES[index].1),
        None => None,
    }
}

/// Positions, in increasing order, of the provinces among the first `count` of `names`
/// where a player may start.
pub open spec fn start_city_positions(names: Seq<String>, count: int) -> Seq<usize>
    decreases count,
{
    if count <= 0 {
        Seq::empty()
    } else if is_start_city(names[count - 1]@) {
        start_city_positions(names, count - 1).push((count - 1) as usize)
    } else {
        start_city_positions(names, count - 1)
    }
}

/// Positions, in increasing order, of the provinces where a player may start.
pub fn starting_candidates(names: &Vec<String>) -> (candidates: Vec<usize>)
    ensures
        candidates@ == start_city_positions(names@, names@.len() as int),
        strictly_increasing(candidates@),
        forall|k: int| 0 <= k < candidates@.len() ==> #[trigger] candidates@[k] < names@.len(),
        forall|i: usize|
            #[trigger] candidates@.contains(i) <==> (i < names@.len() && is_start_city(
                names@[i as int]@,
            )),
{
    let mut candidates: Vec<usize> = Vec::new();
    let mut index: usize = 0;
    while index < names.len()
        invariant
            index <= names@.len(),
            candidates@ == start_city_positions(names@, index as int),
            strictly_increasing(candidates@),
            forall|k: int| 0 <= k < candidates@.len() ==> #[trigger] candidates@[k] < index,
            forall|i: usize|
                #[trigger] candidates@.contains(i) <==> (i < index && is_start_city(
                    names@[i as int]@,
                )),
        decreases names@.len() - index,
    {
        let name = names[index].as_str();
        let urban = site_index(name).is_some();
        let rome = str_eq(name, ROME_PROVINCE);
        let ghost before = candidates@;
        if urban && !rome {
            assert(is_start_city(names@[index as int]@));
            candidates.push(index);
            assert forall|i: usize| #[trigger] candidates@.contains(i) <==> (i < index + 1
                && is_start_city(names@[i as int]@)) by {
                if i == index {
                    assert(candidates@[before.len() as int] == i);
                } else if candidates@.contains(i) {
                    let k = choose|k: int| 0 <= k < candidates@.len() && candidates@[k] == i;
                    assert(before[k] == i);
                    assert(before.contains(i));
                } else if before.contains(i) {
                    let k = choose|k: int| 0 <= k < before.len() && before[k] == i;
                    assert(candidates@[k] == i);
                }
            }
        } else {
            assert forall|i: usize| #[trigger] candidates@.contains(i) <==> (i < index + 1
                && is_start_city(names@[i as int]@)) by {
                if i == index && candidates@.contains(i) {
                    let k = choose|k: int| 0 <= k < candidates@.len() && candidates@[k] == i;
                    assert(candidates@[k] < index);
                }
            }
        }
        index = index + 1;
    }
    candidates
}

/// Least distance, in kilometres, between any two starting provinces of a `players`-player game.
pub fn min_start_distance_km(players: usize) -> (distance: u32)
    ensures
        distance == if players == 2 {
            TWO_PLAYER_MIN_START_DISTANCE_KM
        } else {
            MIN_START_DISTANCE_KM
        },
{
    if players == 2 {
        TWO_PLAYER_MIN_START_DISTANCE_KM
    } else {
        MIN_START_DISTANCE_KM
    }
}

} // verus!
