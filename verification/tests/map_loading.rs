use augustus::map_loading::{MapLoadCounts, MapLoadStep, LABEL_ZOOM_LEVELS, TOTAL_LOAD_STEPS};

#[test]
fn map_assets_load_in_order_with_progress_text() {
    let mut counts = MapLoadCounts::new();
    let progress = counts.load_progress();
    assert_eq!(progress.completed, 0);
    assert_eq!(progress.total, TOTAL_LOAD_STEPS);
    assert_eq!(progress.item, "Loading map...");
    assert_eq!(counts.next_step(), MapLoadStep::Atlas);
    counts.record(MapLoadStep::Atlas);
    assert_eq!(counts.load_progress().item, "Loading wonder Great Pyramid of Giza...");
    assert_eq!(counts.next_step(), MapLoadStep::Wonder(0));
    for _ in 0..11 {
        let step = counts.next_step();
        counts.record(step);
    }
    assert_eq!(counts.next_step(), MapLoadStep::City { index: 0, resolution: 128 });
    assert_eq!(counts.load_progress().item, "Loading city City illustration...");
    counts.record(counts.next_step());
    assert_eq!(counts.next_step(), MapLoadStep::City { index: 1, resolution: 256 });
    counts.record(counts.next_step());
    assert_eq!(counts.load_progress().item, "Loading environment Sea waves...");
    assert_eq!(counts.load_progress().completed, 14);
}

#[test]
fn loading_finishes_after_every_step() {
    let mut counts = MapLoadCounts::new();
    let mut steps = 0;
    while !counts.is_loaded() {
        let step = counts.next_step();
        assert_ne!(step, MapLoadStep::Done);
        counts.record(step);
        steps += 1;
        assert_eq!(counts.load_progress().completed, steps);
    }
    assert_eq!(steps, TOTAL_LOAD_STEPS);
    assert_eq!(counts.label_levels, LABEL_ZOOM_LEVELS);
    assert_eq!(counts.next_step(), MapLoadStep::Done);
    assert_eq!(counts.load_progress().item, "Game ready.");
}
