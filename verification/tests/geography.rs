use augustus::game_start::{start_practice_game, StartError};
use augustus::practice::{LocalPractice, MAP_PLAYER_COLORS, PLAYER_COLORS};
use augustus::adjacency::{province_adjacency, RingMesh};
use augustus::cities::{
    city_name_for_province, min_start_distance_km, starting_candidates, CITY_SITES,
};
use augustus::ownership::ProvinceOwnership;
use augustus::starts::{count_start_sets, spread_out_starts};

fn square(x: u32, y: u32) -> RingMesh {
    RingMesh {
        vertices: vec![[x, y], [x + 1, y], [x + 1, y + 1], [x, y + 1]],
        ring_ends: vec![4],
    }
}

#[test]
fn provinces_sharing_an_edge_are_neighbours() {
    // 0 and 1 share the edge x = 1; 2 touches 1 only at a corner; 3 shares an edge with 2
    // but walks it in the other direction.
    let provinces = vec![
        vec![square(0, 0)],
        vec![square(1, 0)],
        vec![square(2, 1)],
        vec![square(3, 1)],
    ];
    let adjacency = province_adjacency(&provinces);
    assert_eq!(adjacency, vec![vec![1], vec![0], vec![3], vec![2]]);
}

#[test]
fn holes_and_repeated_edges_are_listed_once() {
    // Province 0 has an outer ring and a hole; province 1 fills the hole; province 2 also
    // repeats an edge of the hole, which links it to the first walker only.
    let outer_and_hole = RingMesh {
        vertices: vec![
            [0, 0], [10, 0], [10, 10], [0, 10],
            [4, 4], [5, 4], [5, 5], [4, 5],
        ],
        ring_ends: vec![4, 8],
    };
    let provinces = vec![
        vec![outer_and_hole],
        vec![square(4, 4), square(4, 4)],
        vec![RingMesh { vertices: vec![[4, 4], [5, 4]], ring_ends: vec![0, 2] }],
    ];
    let adjacency = province_adjacency(&provinces);
    assert_eq!(adjacency, vec![vec![1, 2], vec![0], vec![0]]);
}

#[test]
fn every_urban_province_has_its_city_name() {
    for (name, _) in CITY_SITES {
        assert!(city_name_for_province(name).is_some(), "{name}");
    }
    assert_eq!(city_name_for_province("Britannia"), None);
    assert_eq!(city_name_for_province("Aegyptus"), Some("Alexandria"));
}

#[test]
fn starting_candidates_are_the_cities_other_than_rome() {
    let names: Vec<String> =
        ["Britannia", "Latium", "Achaia", "Syria", "Dacia", "Asia"].iter().map(|s| s.to_string()).collect();
    assert_eq!(starting_candidates(&names), vec![2, 3, 5]);
    assert_eq!(min_start_distance_km(2), 2100);
    assert_eq!(min_start_distance_km(3), 1000);
}

#[test]
fn starts_are_spaced_apart_and_vary() {
    // Candidates 0..5 on a line; neighbours closer than the minimum distance.
    let candidates: Vec<usize> = (0..5).collect();
    let spacing: Vec<Vec<bool>> =
        (0..5).map(|a: usize| (0..5).map(|b: usize| a.abs_diff(b) >= 2).collect()).collect();
    let mut seen = std::collections::HashSet::new();
    for _ in 0..60 {
        let starts = spread_out_starts(2, &candidates, &spacing).expect("two spaced starts exist");
        assert_eq!(starts.len(), 2);
        assert!(starts[0].abs_diff(starts[1]) >= 2);
        let mut set = starts.clone();
        set.sort_unstable();
        seen.insert(set);
    }
    assert!(seen.len() > 1);
    let starts = spread_out_starts(3, &candidates, &spacing).expect("one spaced triple exists");
    let mut set = starts;
    set.sort_unstable();
    assert_eq!(set, vec![0, 2, 4]);
    assert_eq!(spread_out_starts(4, &candidates, &spacing), None);
}

#[test]
fn start_sets_are_counted_in_full() {
    let candidates: Vec<usize> = (0..5).collect();
    let spacing: Vec<Vec<bool>> =
        (0..5).map(|a: usize| (0..5).map(|b: usize| a.abs_diff(b) >= 2).collect()).collect();
    assert_eq!(count_start_sets(1, &candidates, &spacing), Some(5));
    assert_eq!(count_start_sets(2, &candidates, &spacing), Some(6));
    assert_eq!(count_start_sets(3, &candidates, &spacing), Some(1));
    assert_eq!(count_start_sets(4, &candidates, &spacing), Some(0));
}

#[test]
fn trade_requires_a_shared_land_border_with_an_owned_province() {
    // Aegyptus (0) borders Cyrenaica (1); Syria (2) borders neither.
    let adjacency = vec![vec![1], vec![0], vec![]];
    let mut ownership = ProvinceOwnership::new();
    ownership.start_game(3, &vec![(1, 2, 3)], &vec![0]);
    assert!(ownership.can_trade_with(1, 0, &adjacency));
    assert!(!ownership.can_trade_with(2, 0, &adjacency));
    assert!(!ownership.can_trade_with(0, 0, &adjacency));
    assert!(!ownership.can_trade_with(1, 1, &adjacency));
}

#[test]
fn each_player_owns_their_start_only() {
    let mut ownership = ProvinceOwnership::new();
    ownership.start_game(6, &vec![(1, 0, 0), (0, 1, 0), (0, 0, 1)], &vec![4, 0, 2]);
    assert_eq!(ownership.owned_provinces(0), vec![4]);
    assert_eq!(ownership.owned_provinces(1), vec![0]);
    assert_eq!(ownership.owner_of(2), Some(2));
    assert_eq!(ownership.owner_of(3), None);
    assert_eq!(ownership.owner_of(9), None);
    let edicts = augustus::governance::Governance {
        noble_taxes: augustus::governance::EdictLevel::High,
        ..Default::default()
    };
    ownership.set_governance_for(1, edicts);
    assert_eq!(ownership.governance_for(1), edicts);
    assert_eq!(ownership.governance_for(0), Default::default());
    ownership.set_governance_for(7, edicts);
    assert_eq!(ownership.governance_for(7), Default::default());
}

#[test]
fn ownership_uses_each_players_color_and_only_owned_production() {
    let names: Vec<String> =
        ["Latium", "Achaia", "Syria", "Britannia", "Aegyptus"].iter().map(|s| s.to_string()).collect();
    let mut distances = vec![vec![0u32; 5]; 5];
    for (a, b, km) in [(1, 2, 2200), (1, 4, 1200), (2, 4, 800), (0, 1, 5000), (0, 2, 5000)] {
        distances[a][b] = km;
        distances[b][a] = km;
    }
    let mut practice = LocalPractice::default();
    let mut ownership = ProvinceOwnership::new();
    let starts = start_practice_game(&mut practice, &mut ownership, &names, &distances).unwrap();
    let mut sorted = starts.clone();
    sorted.sort_unstable();
    assert_eq!(sorted, vec![1, 2]);
    assert_eq!(practice.players.len(), 2);
    for (player, province) in starts.iter().enumerate() {
        assert_eq!(ownership.owner_of(*province), Some(player));
        assert_eq!(ownership.owned_provinces(player), vec![*province]);
        assert_eq!(practice.players[player].color_index, player);
        assert_eq!(ownership.color(*province), Some(PLAYER_COLORS[player]));
        assert_eq!(ownership.map_color(*province), Some(MAP_PLAYER_COLORS[player]));
    }
    assert_eq!(ownership.player_colors, vec![PLAYER_COLORS[0], PLAYER_COLORS[1]]);
    assert_eq!(ownership.owner_of(0), None);
    assert_eq!(ownership.owner_of(4), None);
    practice.player_count = 3;
    assert_eq!(
        start_practice_game(&mut practice, &mut ownership, &names, &distances),
        Err(StartError::NoSpacedStarts)
    );
    assert_eq!(ownership.owner_of(starts[0]), Some(0));
}

/// Longitude and latitude of the label of each province of the test map.
const PROVINCE_LABELS: [(&str, f64, f64); 9] = [
    ("Britannia", -1.5, 52.5),
    ("Latium", 12.8, 41.9),
    ("Lugdunensis", 0.0, 47.5),
    ("Tarraconensis", -2.5, 41.5),
    ("Africa Proconsularis", 9.5, 34.5),
    ("Achaia", 22.0, 38.5),
    ("Aegyptus", 30.5, 27.0),
    ("Asia", 29.0, 38.5),
    ("Syria", 37.5, 34.5),
];

fn haversine_km((lon_a, lat_a): (f64, f64), (lon_b, lat_b): (f64, f64)) -> f64 {
    let (lat_a, lat_b) = (lat_a.to_radians(), lat_b.to_radians());
    let delta_lat = lat_b - lat_a;
    let delta_lon = (lon_b - lon_a).to_radians();
    let h = (delta_lat * 0.5).sin().powi(2) + lat_a.cos() * lat_b.cos() * (delta_lon * 0.5).sin().powi(2);
    12_742.0 * h.sqrt().asin()
}

#[test]
fn starting_provinces_are_non_rome_cities_varied_and_well_separated() {
    let names: Vec<String> = PROVINCE_LABELS.iter().map(|(name, _, _)| name.to_string()).collect();
    let distances: Vec<Vec<u32>> = PROVINCE_LABELS
        .iter()
        .map(|a| PROVINCE_LABELS.iter().map(|b| haversine_km((a.1, a.2), (b.1, b.2)) as u32).collect())
        .collect();
    let candidates = starting_candidates(&names);
    assert_eq!(candidates, vec![2, 3, 4, 5, 6, 7, 8]);
    for count in 1..=4 {
        let mut sets = std::collections::HashSet::new();
        for _ in 0..12 {
            let mut practice = LocalPractice { player_count: count, ..Default::default() };
            let mut ownership = ProvinceOwnership::new();
            let selected = start_practice_game(&mut practice, &mut ownership, &names, &distances).unwrap();
            assert_eq!(selected.len(), count);
            for (offset, &left) in selected.iter().enumerate() {
                assert!(candidates.contains(&left));
                assert_ne!(names[left], "Latium");
                for &right in &selected[offset + 1..] {
                    assert_ne!(left, right);
                    assert!(distances[left][right] >= min_start_distance_km(count));
                }
            }
            let mut set = selected;
            set.sort_unstable();
            sets.insert(set);
        }
        assert!(sets.len() > 1, "{count} players always receive the same province set");
    }
}

#[test]
fn map_tint_can_differ_from_exact_banner_color() {
    let banner = vec![(109, 36, 55)];
    let tint = vec![(225, 76, 158)];
    let mut ownership = ProvinceOwnership::new();
    ownership.start_game(4, &banner, &vec![2]);
    assert_eq!(ownership.map_color(2), Some(banner[0]));
    ownership.set_map_colors(&tint);
    let province = ownership.owners.iter().position(|owner| *owner == Some(0)).unwrap();
    assert_eq!(ownership.map_color(province), Some(tint[0]));
    assert_eq!(ownership.color(province), Some(banner[0]));
    assert_eq!(ownership.color(0), None);
}
