use plato_diffusion::correction::clamp_to_unit;
use plato_diffusion::{Correction, CorrectionStore, DistillationConfig, TrainingExample, UNIT};

fn make_correction(room: &str, tile: &str, confidence: i64) -> Correction {
    Correction::new(room, tile, "original", "expected", "cloud says expected", confidence)
}

// ── Correction tests ──

#[test]
fn correction_creation() {
    let c = Correction::new("room1", "tileA", "cat", "dog", "it's a dog", 950_000);
    assert_eq!(c.room_id, "room1");
    assert_eq!(c.tile_id, "tileA");
    assert_eq!(c.original_label, "cat");
    assert_eq!(c.expected_label, "dog");
    assert_eq!(c.cloud_response, "it's a dog");
    assert_eq!(c.confidence, 950_000);
    assert_ne!(c.id, uuid::Uuid::nil());
}

#[test]
fn confidence_clamped_high() {
    let c = Correction::new("r", "t", "a", "b", "c", 1_500_000);
    assert_eq!(c.confidence, 1_000_000);
}

#[test]
fn confidence_clamped_low() {
    let c = Correction::new("r", "t", "a", "b", "c", -500_000);
    assert_eq!(c.confidence, 0);
}

#[test]
fn unique_ids() {
    let c1 = Correction::new("r", "t", "a", "b", "c", 500_000);
    let c2 = Correction::new("r", "t", "a", "b", "c", 500_000);
    assert_ne!(c1.id, c2.id);
}

#[test]
fn correction_timestamp_from_clock() {
    let c = Correction::new("r", "t", "a", "b", "c", 500_000);
    // Any clock that runs this test reads well after 2020-01-01.
    assert!(c.timestamp > 1_577_836_800);
}

#[test]
fn correction_from_parts_keeps_id_and_time() {
    let id = uuid::Uuid::from_u128(42);
    let c = Correction::from_parts(id, "room", "tile", "a", "b", "c", 2_000_000, 1234);
    assert_eq!(c.id, id);
    assert_eq!(c.timestamp, 1234);
    assert_eq!(c.confidence, UNIT);
    let copy = c.clone();
    assert_eq!(copy.id, id);
}

#[test]
fn clamp_edges() {
    assert_eq!(clamp_to_unit(i64::MIN), 0);
    assert_eq!(clamp_to_unit(0), 0);
    assert_eq!(clamp_to_unit(1_000_000), 1_000_000);
    assert_eq!(clamp_to_unit(1_000_001), 1_000_000);
    assert_eq!(clamp_to_unit(i64::MAX), 1_000_000);
    assert_eq!(clamp_to_unit(123_456), 123_456);
}

// ── Store tests ──

#[test]
fn store_add_and_len() {
    let mut store = CorrectionStore::new("room1");
    assert!(store.is_empty());
    store.add(make_correction("room1", "t1", 900_000));
    store.add(make_correction("room1", "t2", 800_000));
    assert_eq!(store.len(), 2);
    assert!(!store.is_empty());
    assert_eq!(store.corrections()[1].tile_id, "t2");
    assert_eq!(store.room_id(), "room1");
}

/// The average confidence as a fraction, divided in floating point as the
/// front end does.
fn average(store: &CorrectionStore) -> f64 {
    if store.is_empty() {
        return 0.0;
    }
    store.confidence_total() as f64 / UNIT as f64 / store.len() as f64
}

#[test]
fn store_empty_avg_confidence() {
    let store = CorrectionStore::new("room1");
    assert_eq!(store.confidence_total(), 0);
    assert!((average(&store) - 0.0).abs() < 1e-9);
}

#[test]
fn store_avg_confidence() {
    let mut store = CorrectionStore::new("room1");
    store.add(make_correction("room1", "t1", 800_000));
    store.add(make_correction("room1", "t2", 1_000_000));
    assert_eq!(store.confidence_total(), 1_800_000);
    assert!((average(&store) - 0.9).abs() < 1e-9);
}

#[test]
fn store_confidence_total_is_exact() {
    let mut store = CorrectionStore::new("room1");
    store.add(make_correction("room1", "t1", 1));
    store.add(make_correction("room1", "t2", 2));
    assert_eq!(store.confidence_total(), 3);
    assert!((average(&store) - 0.0000015).abs() < 1e-12);
}

#[test]
fn store_diversity() {
    let mut store = CorrectionStore::new("room1");
    store.add(make_correction("room1", "t1", 900_000));
    store.add(make_correction("room1", "t1", 800_000));
    store.add(make_correction("room1", "t2", 700_000));
    assert_eq!(store.diversity(), 2);
}

#[test]
fn diversity_grows_only_with_new_tiles() {
    let mut store = CorrectionStore::new("room1");
    assert_eq!(store.diversity(), 0);
    store.add(make_correction("room1", "t1", 900_000));
    assert_eq!(store.diversity(), 1);
    store.add(make_correction("room1", "t1", 900_000));
    assert_eq!(store.diversity(), 1);
    store.add(make_correction("room1", "t3", 900_000));
    assert_eq!(store.diversity(), 2);
    assert!(store.diversity() <= store.len());
}

#[test]
fn store_from_parts() {
    let store = CorrectionStore::from_parts(
        "room9".to_string(),
        vec![make_correction("room9", "t1", 1)],
        Some(77),
    );
    assert_eq!(store.room_id(), "room9");
    assert_eq!(store.len(), 1);
    assert_eq!(store.last_distillation_timestamp(), Some(77));
}

// ── Distillation trigger tests ──

#[test]
fn should_distill_below_threshold() {
    let mut store = CorrectionStore::new("room1");
    let config = DistillationConfig::new(10);
    for _ in 0..9 {
        store.add(make_correction("room1", "t1", 900_000));
    }
    assert!(!store.should_distill(&config));
}

#[test]
fn should_distill_meets_threshold() {
    let mut store = CorrectionStore::new("room1");
    // Use a config with no time/interval requirement
    let config = DistillationConfig {
        min_corrections: 5,
        max_interval_secs: None, // skip time check
        min_diversity: Some(1),
    };
    for _ in 0..5 {
        store.add(make_correction("room1", "t1", 900_000));
    }
    assert!(store.should_distill(&config));
}

#[test]
fn should_distill_fails_diversity() {
    let mut store = CorrectionStore::new("room1");
    let config = DistillationConfig {
        min_corrections: 3,
        max_interval_secs: None,
        min_diversity: Some(3),
    };
    // Only 2 unique tiles
    store.add(make_correction("room1", "t1", 900_000));
    store.add(make_correction("room1", "t1", 900_000));
    store.add(make_correction("room1", "t2", 900_000));
    assert!(!store.should_distill(&config));
}

#[test]
fn should_distill_empty_store() {
    let store = CorrectionStore::new("room1");
    let config = DistillationConfig::new(1);
    assert!(!store.should_distill(&config));
}

#[test]
fn should_distill_at_respects_interval() {
    let mut store = CorrectionStore::new("room1");
    let config = DistillationConfig::new(1).with_interval(100);
    store.add(make_correction("room1", "t1", 900_000));
    // Never distilled: the interval counts from 0.
    assert!(store.should_distill_at(&config, 100));
    assert!(!store.should_distill_at(&config, 99));
    store.mark_distilled_at(1_000);
    assert_eq!(store.last_distillation_timestamp(), Some(1_000));
    assert!(!store.should_distill_at(&config, 1_000));
    assert!(!store.should_distill_at(&config, 1_099));
    assert!(store.should_distill_at(&config, 1_100));
}

#[test]
fn should_distill_with_clock_after_recent_round() {
    let mut store = CorrectionStore::new("room1");
    let config = DistillationConfig::new(1).with_interval(3600);
    store.add(make_correction("room1", "t1", 900_000));
    // Never distilled: the clock is decades past the interval.
    assert!(store.should_distill(&config));
    store.mark_distilled();
    assert!(store.last_distillation_timestamp().is_some());
    assert!(!store.should_distill(&config));
}

#[test]
fn should_distill_when_clock_behind_last_round() {
    let mut store = CorrectionStore::new("room1");
    let config = DistillationConfig::new(1).with_interval(1);
    store.add(make_correction("room1", "t1", 900_000));
    store.mark_distilled_at(u64::MAX);
    assert!(!store.should_distill(&config));
}

// ── Export training data ──

#[test]
fn export_training_data_format() {
    let mut store = CorrectionStore::new("room1");
    store.add(Correction::new("room1", "tileA", "cat", "dog", "cloud", 900_000));
    let examples = store.export_training_data();
    assert_eq!(examples.len(), 1);
    assert_eq!(examples[0].input, "tile:room1:tileA");
    assert_eq!(examples[0].expected_output, "dog");
    assert_eq!(examples[0].confidence, 900_000);
    assert_eq!(examples[0].tile_id, "tileA");
}

#[test]
fn export_training_data_empty() {
    let store = CorrectionStore::new("room1");
    assert!(store.export_training_data().is_empty());
}

#[test]
fn export_keeps_order() {
    let mut store = CorrectionStore::new("r");
    store.add(make_correction("r", "b", 1));
    store.add(make_correction("r", "a", 2));
    let examples = store.export_training_data();
    let expected = vec![
        TrainingExample {
            input: "tile:r:b".to_string(),
            expected_output: "expected".to_string(),
            confidence: 1,
            tile_id: "b".to_string(),
        },
        TrainingExample {
            input: "tile:r:a".to_string(),
            expected_output: "expected".to_string(),
            confidence: 2,
            tile_id: "a".to_string(),
        },
    ];
    assert_eq!(examples, expected);
}

// ── Config validation ──

#[test]
fn config_valid() {
    let config = DistillationConfig::default();
    assert!(config.validate().is_ok());
}

#[test]
fn config_zero_corrections_fails() {
    let config = DistillationConfig::new(0);
    assert!(config.validate().is_err());
}

#[test]
fn config_zero_interval_fails() {
    let config = DistillationConfig::new(5).with_interval(0);
    assert!(config.validate().is_err());
}

#[test]
fn config_zero_diversity_fails() {
    let config = DistillationConfig::new(5).with_min_diversity(0);
    assert!(config.validate().is_err());
}

#[test]
fn config_error_messages() {
    assert_eq!(
        DistillationConfig::new(0).validate(),
        Err("min_corrections must be > 0".to_string())
    );
    assert_eq!(
        DistillationConfig::new(5).with_interval(0).validate(),
        Err("max_interval_secs must be > 0".to_string())
    );
    assert_eq!(
        DistillationConfig::new(5).with_min_diversity(0).validate(),
        Err("min_diversity must be > 0".to_string())
    );
    assert_eq!(
        DistillationConfig::new(5).with_interval(10).with_min_diversity(2).validate(),
        Ok(())
    );
}

#[test]
fn config_builders_and_default() {
    let c = DistillationConfig::new(7).with_interval(9).with_min_diversity(3);
    assert_eq!(
        c,
        DistillationConfig { min_corrections: 7, max_interval_secs: Some(9), min_diversity: Some(3) }
    );
    let d = DistillationConfig::default();
    assert_eq!(d.min_corrections, 50);
    assert_eq!(d.max_interval_secs, Some(3600));
    assert_eq!(d.min_diversity, Some(5));
}

// ── by_tile grouping ──

#[test]
fn by_tile_grouping() {
    let mut store = CorrectionStore::new("room1");
    store.add(make_correction("room1", "t1", 900_000));
    store.add(make_correction("room1", "t2", 800_000));
    store.add(make_correction("room1", "t1", 700_000));
    let groups = store.by_tile();
    assert_eq!(groups.len(), 2);
    assert_eq!(groups.get("t1").unwrap().len(), 2);
    assert_eq!(groups.get("t2").unwrap().len(), 1);
    assert_eq!(groups.get("t1").unwrap()[1].confidence, 700_000);
    assert!(groups.get("t3").is_none());
}

// ── Duplicate corrections ──

#[test]
fn duplicate_corrections_both_stored() {
    let mut store = CorrectionStore::new("room1");
    let c = make_correction("room1", "t1", 900_000);
    store.add(c.clone());
    store.add(c);
    assert_eq!(store.len(), 2);
}
