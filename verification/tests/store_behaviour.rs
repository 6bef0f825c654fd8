//! Tests for the record store: projection, sorting, selection, eviction.

use eventsleuth::filter::FilterState;
use eventsleuth::order::SortColumn;
use eventsleuth::record::EventRecord;
use eventsleuth::stats::compute_stats;
use eventsleuth::store::{ErrorLog, RecordStore};

fn rec(id: u32, level: u8, provider: &str, ts: i64) -> EventRecord {
    EventRecord {
        raw_xml: String::new(),
        channel: "Application".into(),
        event_id: id,
        level,
        level_name: EventRecord::level_to_name(level).into(),
        provider_name: provider.into(),
        timestamp: ts,
        computer: String::new(),
        message: format!("message {id}"),
        process_id: 0,
        thread_id: 0,
        task: 0,
        opcode: 0,
        keywords: 0,
        activity_id: None,
        user_sid: None,
        event_data: vec![],
    }
}

#[test]
fn append_past_capacity_evicts_oldest_and_clears_selection() {
    let mut store = RecordStore::new(3, SortColumn::Timestamp, true);
    store.append(vec![rec(1, 4, "A", 10), rec(2, 4, "A", 20)]);
    store.refilter(&FilterState::default());
    store.select(0);
    assert!(store.selected_index.is_some());

    store.append(vec![rec(3, 4, "A", 30), rec(4, 4, "A", 40), rec(5, 4, "A", 50)]);
    assert!(store.all_records.len() <= 3);
    assert_eq!(store.selected_index, None, "eviction clears the selection");
    // The oldest records were dropped from the front.
    assert_eq!(store.all_records[0].event_id, 3);
    assert_eq!(store.all_records[2].event_id, 5);
}

#[test]
fn refilter_restores_selection_by_identity() {
    let mut store = RecordStore::new(100, SortColumn::EventId, true);
    store.append(vec![
        rec(30, 4, "A", 3),
        rec(10, 4, "A", 1),
        rec(20, 2, "A", 2),
    ]);
    let mut filter = FilterState::default();
    store.refilter(&filter);
    // Sorted ascending by id: 10, 20, 30. Select the record with id 20.
    store.select(1);
    assert_eq!(store.selected_event().unwrap().event_id, 20);

    // Narrow to errors only: id 20 is the only survivor, at position 0.
    filter.levels = [false, false, true, false, false, false];
    store.refilter(&filter);
    assert_eq!(store.selected_index, Some(0));
    assert_eq!(store.selected_event().unwrap().event_id, 20);

    // Narrow it out entirely: the selection empties.
    filter.levels = [true, true, false, true, true, true];
    store.refilter(&filter);
    assert_eq!(store.selected_index, None);
}

#[test]
fn sort_orders_by_each_column_and_direction() {
    let mut store = RecordStore::new(100, SortColumn::Timestamp, false);
    store.append(vec![
        rec(2, 1, "beta", 200),
        rec(1, 5, "alpha", 100),
        rec(3, 3, "gamma", 300),
    ]);
    store.refilter(&FilterState::default());
    // Descending by timestamp: newest first.
    let ids: Vec<u32> = store
        .filtered_indices
        .iter()
        .map(|&i| store.all_records[i].event_id)
        .collect();
    assert_eq!(ids, vec![3, 2, 1]);

    store.sort_column = SortColumn::Provider;
    store.sort_ascending = true;
    store.sort_events();
    let providers: Vec<String> = store
        .filtered_indices
        .iter()
        .map(|&i| store.all_records[i].provider_name.clone())
        .collect();
    assert_eq!(providers, vec!["alpha", "beta", "gamma"]);

    store.sort_column = SortColumn::Level;
    store.sort_events();
    let levels: Vec<u8> = store
        .filtered_indices
        .iter()
        .map(|&i| store.all_records[i].level)
        .collect();
    assert_eq!(levels, vec![1, 3, 5]);
}

#[test]
fn sort_is_stable_on_key_ties() {
    let mut store = RecordStore::new(100, SortColumn::Level, true);
    store.append(vec![
        rec(1, 4, "A", 10),
        rec(2, 4, "B", 20),
        rec(3, 4, "C", 30),
    ]);
    store.refilter(&FilterState::default());
    // All levels equal: the original order is kept.
    let ids: Vec<u32> = store
        .filtered_indices
        .iter()
        .map(|&i| store.all_records[i].event_id)
        .collect();
    assert_eq!(ids, vec![1, 2, 3]);
}

#[test]
fn select_refuses_out_of_bounds() {
    let mut store = RecordStore::new(100, SortColumn::Timestamp, true);
    store.append(vec![rec(1, 4, "A", 10)]);
    store.refilter(&FilterState::default());
    store.select(5);
    assert_eq!(store.selected_index, None);
    store.select(0);
    assert_eq!(store.selected_index, Some(0));
}

#[test]
fn filtered_event_list_clones_in_display_order() {
    let mut store = RecordStore::new(100, SortColumn::EventId, true);
    store.append(vec![rec(2, 4, "A", 2), rec(1, 4, "A", 1)]);
    store.refilter(&FilterState::default());
    let list = store.filtered_event_list();
    assert_eq!(list.len(), 2);
    assert_eq!(list[0].event_id, 1);
    assert_eq!(list[1].event_id, 2);
}

#[test]
fn clear_empties_everything() {
    let mut store = RecordStore::new(100, SortColumn::Timestamp, true);
    store.append(vec![rec(1, 4, "A", 10)]);
    store.refilter(&FilterState::default());
    store.clear();
    assert_eq!(store.all_records.len(), 0);
    assert_eq!(store.filtered_indices.len(), 0);
    assert_eq!(store.selected_index, None);
}

#[test]
fn stats_count_levels_and_providers() {
    let mut store = RecordStore::new(100, SortColumn::Timestamp, true);
    store.append(vec![
        rec(1, 2, "busy", 10),
        rec(2, 2, "busy", 20),
        rec(3, 4, "quiet", 30),
        rec(4, 200, "busy", 40),
    ]);
    store.refilter(&FilterState::default());
    let stats = compute_stats(&store.all_records, &store.filtered_indices);
    assert_eq!(stats.total, 4);
    assert_eq!(stats.level_counts[2], 2);
    assert_eq!(stats.level_counts[4], 1);
    // Out-of-range levels are clamped to the last slot.
    assert_eq!(stats.level_counts[5], 1);
    assert_eq!(stats.top_providers.len(), 2);
    assert_eq!(stats.top_providers[0].0, "busy");
    assert_eq!(stats.top_providers[0].1, 3);
    assert_eq!(stats.top_providers[1], ("quiet".to_string(), 1));
    // One bucket per hour of span.
    assert_eq!(stats.hourly_histogram.len(), 1);
    assert_eq!(stats.hourly_histogram[0].1, 4);
}

#[test]
fn csv_rows_project_the_record() {
    let header = eventsleuth::export::csv_header();
    assert_eq!(header.len(), 7);
    assert_eq!(header[0], "Timestamp");
    let r = rec(4625, 2, "Security-Auditing", 1_700_000_000_000);
    let cells = eventsleuth::export::csv_row_fields(&r);
    assert_eq!(cells.len(), 7);
    assert_eq!(cells[1], "Error");
    assert_eq!(cells[2], "4625");
    assert_eq!(cells[3], "Security-Auditing");
    assert_eq!(cells[5], "Application");
    assert_eq!(cells[6], "message 4625");
}

#[test]
fn error_log_drops_oldest_past_cap() {
    let mut log = ErrorLog::new(3);
    for i in 0..5 {
        log.push("System".to_string(), format!("failure {i}"));
    }
    assert_eq!(log.entries.len(), 3);
    // The newest failures survive, oldest first.
    assert_eq!(log.entries[0].1, "failure 2");
    assert_eq!(log.entries[2].1, "failure 4");
}

#[test]
fn display_message_falls_back_to_payload() {
    let mut r = rec(7, 4, "A", 0);
    r.message = String::new();
    r.event_data = vec![("Reason".into(), "shutdown".into())];
    assert_eq!(r.display_message(), "shutdown");
    r.event_data.clear();
    assert_eq!(r.display_message(), "(no message)");
}
