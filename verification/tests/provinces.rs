use augustus::production::{for_province as output_for_province, output_index, OUTPUT};
use augustus::terrain_type::{for_province, TerrainType};

#[test]
fn every_playable_province_has_a_terrain_portrait() {
    for (name, _) in OUTPUT {
        let terrain = for_province(name);
        assert!(terrain.image_index() < 12, "{name}");
    }
}

#[test]
fn production_lookup_returns_the_table_entry() {
    assert_eq!(output_for_province("Aegyptus"), [6, 1, 4]);
    assert_eq!(output_for_province("Alpes Graiae"), [0, 2, 3]);
    assert_eq!(output_index("Atlantis"), None);
    assert_eq!(output_index("Britannia"), Some(0));
}

#[test]
fn terrain_lookup_follows_the_portrait_classes() {
    assert_eq!(for_province("Aegyptus"), TerrainType::Desert);
    assert_eq!(for_province("Pannonia Inferior"), TerrainType::Marsh);
    assert_eq!(TerrainType::Marsh.image_index(), 6);
    assert_eq!(TerrainType::Plains.image_index(), 8);
}

#[test]
fn every_mapped_province_has_plausible_nonnegative_production() {
    for (name, production) in OUTPUT {
        assert!(production.iter().all(|amount| *amount >= 0), "{name}");
        assert!(production.iter().any(|amount| *amount > 0), "{name}");
        assert_eq!(output_for_province(name), production);
    }
    assert!(output_for_province("Aegyptus")[0] > output_for_province("Arabia")[0]);
    assert!(output_for_province("Noricum")[1] > output_for_province("Latium")[1]);
    assert!(output_for_province("Achaia")[2] > output_for_province("Picenum")[2]);
}
