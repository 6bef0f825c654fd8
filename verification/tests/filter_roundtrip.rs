//! Round-trip tests for filter state and presets.

use eventsleuth::filter::FilterState;
use eventsleuth::presets::FilterPreset;

#[test]
fn default_filter_matches_everything() {
    let filter = FilterState::default();
    assert!(filter.event_id_input.is_empty());
    assert!(filter.text_search.is_empty());
    assert!(filter.levels.iter().all(|&l| l));
}

#[test]
fn preset_roundtrip_preserves_state() {
    let mut filter = FilterState::default();
    filter.event_id_input = "1000-2000, !1500".to_string();
    filter.text_search = "test query".to_string();
    filter.levels = [false, false, true, true, false, false];
    filter.use_regex = false;

    let preset = FilterPreset::from_state("test_preset", &filter);
    assert_eq!(preset.name, "test_preset");

    let restored = preset.to_filter_state();
    assert_eq!(restored.event_id_input, "1000-2000, !1500");
    assert_eq!(restored.text_search, "test query");
    assert!(restored.levels[2]); // Error
    assert!(restored.levels[3]); // Warning
    assert!(!restored.levels[4]); // Info should be off
    assert!(!restored.use_regex);
    // The derived sets were recomputed from the raw input.
    assert!(restored.include_ids.contains(&1000));
    assert!(restored.exclude_ids.contains(&1500));
}

#[test]
fn loading_a_preset_rederives_time_bounds() {
    let mut filter = FilterState::default();
    filter.time_from_input = "2024-06-15 14:30:00".to_string();
    let preset = FilterPreset::from_state("times", &filter);
    let restored = preset.to_filter_state();
    assert!(restored.time_from.is_some());
    assert!(restored.time_to.is_none());
}

#[test]
fn time_presets_set_lower_bound_only() {
    let mut filter = FilterState::default();
    filter.time_to = Some(123);
    filter.time_to_input = "stale".into();
    filter.apply_time_preset(24);
    assert!(filter.time_from.is_some());
    assert_eq!(filter.time_to, None);
    assert!(filter.time_to_input.is_empty());
    assert!(!filter.time_from_input.is_empty());
}
