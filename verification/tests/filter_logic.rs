//! Tests for the in-memory filtering logic.

use eventsleuth::filter::FilterState;
use eventsleuth::presets::FilterPreset;
use eventsleuth::record::EventRecord;

fn make_event(id: u32, level: u8, provider: &str, message: &str) -> EventRecord {
    EventRecord {
        raw_xml: String::new(),
        channel: "Application".into(),
        event_id: id,
        level,
        level_name: EventRecord::level_to_name(level).into(),
        provider_name: provider.into(),
        timestamp: 1_700_000_000_000,
        computer: "TEST-PC".into(),
        message: message.into(),
        process_id: 0,
        thread_id: 0,
        task: 0,
        opcode: 0,
        keywords: 0,
        activity_id: None,
        user_sid: None,
        event_data: vec![],
    }
}

#[test]
fn test_default_matches_all() {
    let f = FilterState::default();
    let e = make_event(1001, 2, "TestProvider", "some message");
    assert!(f.matches(&e));
}

#[test]
fn test_event_id_include() {
    let mut f = FilterState::default();
    f.event_id_input = "1001, 1002".into();
    f.parse_event_ids();

    assert!(f.matches(&make_event(1001, 4, "P", "m")));
    assert!(f.matches(&make_event(1002, 4, "P", "m")));
    assert!(!f.matches(&make_event(9999, 4, "P", "m")));
}

#[test]
fn test_event_id_exclude() {
    let mut f = FilterState::default();
    f.event_id_input = "!1001".into();
    f.parse_event_ids();

    assert!(!f.matches(&make_event(1001, 4, "P", "m")));
    assert!(f.matches(&make_event(9999, 4, "P", "m")));
}

#[test]
fn test_event_id_range() {
    let mut f = FilterState::default();
    f.event_id_input = "100-105".into();
    f.parse_event_ids();

    assert!(f.matches(&make_event(100, 4, "P", "m")));
    assert!(f.matches(&make_event(103, 4, "P", "m")));
    assert!(f.matches(&make_event(105, 4, "P", "m")));
    assert!(!f.matches(&make_event(106, 4, "P", "m")));
}

#[test]
fn test_level_filter() {
    let mut f = FilterState::default();
    f.levels = [false, false, true, false, false, false]; // only Error
    assert!(f.matches(&make_event(1, 2, "P", "m"))); // Error
    assert!(!f.matches(&make_event(1, 4, "P", "m"))); // Info
}

#[test]
fn test_text_search_case_insensitive() {
    let mut f = FilterState::default();
    f.text_search = "explorer".into();
    f.parse_event_ids(); // updates text_search_lower cache
    assert!(f.matches(&make_event(1, 4, "P", "Explorer.exe crashed")));
    assert!(!f.matches(&make_event(1, 4, "P", "Nothing here")));
}

#[test]
fn test_regex_search_basic_pattern() {
    let mut f = FilterState::default();
    f.use_regex = true;
    f.text_search = r"crash(ed|ing)".into();
    f.parse_event_ids();
    assert!(f.matches(&make_event(1, 4, "P", "Explorer.exe crashed")));
    assert!(f.matches(&make_event(1, 4, "P", "App is crashing")));
    assert!(!f.matches(&make_event(1, 4, "P", "App is running")));
}

#[test]
fn test_regex_search_case_insensitive_default() {
    let mut f = FilterState::default();
    f.use_regex = true;
    f.case_sensitive = false;
    f.text_search = r"ERROR".into();
    f.parse_event_ids();
    assert!(f.matches(&make_event(1, 4, "P", "An error occurred")));
    assert!(f.matches(&make_event(1, 4, "P", "ERROR in module")));
}

#[test]
fn test_regex_search_case_sensitive() {
    let mut f = FilterState::default();
    f.use_regex = true;
    f.case_sensitive = true;
    f.text_search = r"ERROR".into();
    f.parse_event_ids();
    assert!(!f.matches(&make_event(1, 4, "P", "An error occurred")));
    assert!(f.matches(&make_event(1, 4, "P", "ERROR in module")));
}

#[test]
fn test_regex_invalid_pattern_matches_nothing() {
    let mut f = FilterState::default();
    f.use_regex = true;
    f.text_search = r"[invalid(".into();
    f.parse_event_ids();
    // An invalid pattern compiles to no pattern, which matches nothing.
    assert!(!f.matches(&make_event(1, 4, "P", "anything")));
}

#[test]
fn test_regex_matches_provider_name() {
    let mut f = FilterState::default();
    f.use_regex = true;
    f.text_search = r"^Microsoft".into();
    f.parse_event_ids();
    assert!(f.matches(&make_event(1, 4, "Microsoft-Windows-Kernel", "m")));
    assert!(!f.matches(&make_event(1, 4, "OtherProvider", "m")));
}

#[test]
fn test_regex_empty_search_matches_all() {
    let mut f = FilterState::default();
    f.use_regex = true;
    f.text_search = String::new();
    f.parse_event_ids();
    assert!(f.matches(&make_event(1, 4, "P", "anything")));
}

#[test]
fn test_regex_search_matches_channel() {
    let mut f = FilterState::default();
    f.use_regex = true;
    f.text_search = r"^Application$".into();
    f.parse_event_ids();
    // The channel field is "Application" from make_event.
    assert!(f.matches(&make_event(1001, 4, "P", "m")));
}

#[test]
fn test_preset_preserves_regex_flag() {
    let mut f = FilterState::default();
    f.use_regex = true;
    f.text_search = r"\d+".into();
    f.parse_event_ids();

    let preset = FilterPreset::from_state("test", &f);
    assert!(preset.use_regex);

    let restored = preset.to_filter_state();
    assert!(restored.use_regex);
    assert_eq!(restored.text_search, r"\d+");
}

#[test]
fn id_range_with_negation_scenario() {
    // `100-105, !103` matches 100,101,102,104,105 and rejects 103.
    let mut f = FilterState::default();
    f.event_id_input = "100-105, !103".into();
    f.parse_event_ids();
    for id in [100u32, 101, 102, 104, 105] {
        assert!(f.matches(&make_event(id, 4, "P", "m")), "id {id} must match");
    }
    assert!(!f.matches(&make_event(103, 4, "P", "m")));
}

#[test]
fn exclusion_wins_over_inclusion() {
    // An id named both positively and negated never matches.
    let mut f = FilterState::default();
    f.event_id_input = "1001, !1001".into();
    f.parse_event_ids();
    assert!(f.include_ids.contains(&1001));
    assert!(f.exclude_ids.contains(&1001));
    assert!(!f.matches(&make_event(1001, 4, "P", "m")));
}

#[test]
fn reversed_range_bounds_are_swapped() {
    let mut f = FilterState::default();
    f.event_id_input = "105-100".into();
    f.parse_event_ids();
    assert!(f.matches(&make_event(100, 4, "P", "m")));
    assert!(f.matches(&make_event(105, 4, "P", "m")));
    assert!(!f.matches(&make_event(106, 4, "P", "m")));
}

#[test]
fn huge_range_is_capped() {
    let mut f = FilterState::default();
    f.event_id_input = "0-4294967295".into();
    f.parse_event_ids();
    assert_eq!(f.include_ids.len(), 100_000);
    assert!(f.matches(&make_event(99_999, 4, "P", "m")));
    assert!(!f.matches(&make_event(100_000, 4, "P", "m")));
}

#[test]
fn unicode_haystack_falls_back_to_full_casefold() {
    let mut f = FilterState::default();
    f.provider_filter = "ÉCOLE".into();
    f.text_search = String::new();
    f.parse_event_ids();
    // The haystack holds non-ASCII characters, so matching goes through
    // the full Unicode lowering.
    assert!(f.matches(&make_event(1, 4, "école centrale", "m")));
    assert!(!f.matches(&make_event(1, 4, "academy", "m")));
}

#[test]
fn out_of_range_level_is_clamped() {
    let mut f = FilterState::default();
    f.levels = [true, true, true, true, true, false];
    // Levels past the table clamp to the last slot, here disabled.
    assert!(!f.matches(&make_event(1, 200, "P", "m")));
    f.levels[5] = true;
    assert!(f.matches(&make_event(1, 200, "P", "m")));
}

#[test]
fn time_bounds_are_inclusive() {
    let mut f = FilterState::default();
    f.time_from = Some(1000);
    f.time_to = Some(2000);
    let mut e = make_event(1, 4, "P", "m");
    e.timestamp = 1000;
    assert!(f.matches(&e));
    e.timestamp = 2000;
    assert!(f.matches(&e));
    e.timestamp = 999;
    assert!(!f.matches(&e));
    e.timestamp = 2001;
    assert!(!f.matches(&e));
}

#[test]
fn active_count_reports_each_group() {
    let mut f = FilterState::default();
    assert_eq!(f.active_count(), 0);
    assert!(f.is_empty());
    f.event_id_input = "7".into();
    f.provider_filter = "svc".into();
    f.text_search = "x".into();
    f.levels[0] = false;
    f.time_from = Some(5);
    assert_eq!(f.active_count(), 5);
    assert!(!f.is_empty());
    f.clear();
    assert_eq!(f.active_count(), 0);
}

#[test]
fn text_search_covers_payload_and_raw() {
    let mut f = FilterState::default();
    f.text_search = "needle".into();
    f.parse_event_ids();
    let mut e = make_event(1, 4, "P", "m");
    e.event_data = vec![("key".into(), "the Needle here".into())];
    assert!(f.matches(&e));
    let mut e2 = make_event(1, 4, "P", "m");
    e2.raw_xml = "<x>needle</x>".into();
    assert!(f.matches(&e2));
}
