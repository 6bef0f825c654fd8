//! Tests for the ingestion pipeline decisions and the plain-data drivers.

use eventsleuth::calendar::timestamp_from_ymd_hms_ms;
use eventsleuth::reader::{
    advance_tail_ms, build_xpath_query, extract_provider_name, is_transient_error, retry_decision,
    run_ingestion, tail_query_bounds, to_wide, ChannelRead, ChannelSource, FetchErrorAction,
    IterDecision, ReaderMessage, RetryDecision,
};
use eventsleuth::record::EventRecord;

fn rec(id: u32, ts: i64) -> EventRecord {
    EventRecord {
        raw_xml: String::new(),
        channel: "System".into(),
        event_id: id,
        level: 4,
        level_name: "Information".into(),
        provider_name: "P".into(),
        timestamp: ts,
        computer: String::new(),
        message: String::new(),
        process_id: 0,
        thread_id: 0,
        task: 0,
        opcode: 0,
        keywords: 0,
        activity_id: None,
        user_sid: None,
        event_data: vec![],
    }
}

#[test]
fn test_build_xpath_no_filters() {
    let xpath = build_xpath_query(None, None);
    assert_eq!(xpath, "*");
}

#[test]
fn test_build_xpath_with_time_from() {
    let from = timestamp_from_ymd_hms_ms(2024, 1, 15, 10, 0, 0, 0);
    let xpath = build_xpath_query(Some(from), None);
    assert!(xpath.contains("TimeCreated"));
    assert!(xpath.contains("2024-01-15"));
}

#[test]
fn xpath_renders_exact_utc_instants() {
    let from = timestamp_from_ymd_hms_ms(2024, 1, 15, 10, 0, 0, 0);
    let to = timestamp_from_ymd_hms_ms(2024, 1, 16, 0, 0, 0, 500);
    assert_eq!(
        build_xpath_query(Some(from), None),
        "*[System[TimeCreated[@SystemTime >= '2024-01-15T10:00:00.000Z']]]"
    );
    assert_eq!(
        build_xpath_query(Some(from), Some(to)),
        "*[System[TimeCreated[@SystemTime >= '2024-01-15T10:00:00.000Z'] \
         and TimeCreated[@SystemTime <= '2024-01-16T00:00:00.500Z']]]"
    );
}

#[test]
fn test_extract_provider_name() {
    let xml = r#"<Event><System><Provider Name="TestProvider" /></System></Event>"#;
    assert_eq!(extract_provider_name(xml), Some("TestProvider".into()));
}

#[test]
fn test_extract_provider_name_missing() {
    let xml = "<Event><System></System></Event>";
    assert_eq!(extract_provider_name(xml), None);
}

#[test]
fn test_to_wide() {
    let wide = to_wide("AB");
    assert_eq!(wide, vec![0x41, 0x42, 0x00]);
}

#[test]
fn to_wide_encodes_surrogate_pairs() {
    let wide = to_wide("\u{1F4CA}");
    assert_eq!(wide, vec![0xD83D, 0xDCCA, 0x0000]);
}

#[test]
fn transient_codes_are_classified() {
    assert!(is_transient_error(0x800706BA));
    assert!(is_transient_error(0x00000005));
    assert!(is_transient_error(1460));
    assert!(is_transient_error(0x800705B4));
    assert!(!is_transient_error(0x80070103));
    assert!(!is_transient_error(0));
}

#[test]
fn retry_backoff_doubles() {
    assert!(matches!(retry_decision(1, true), RetryDecision::RetryAfter(50)));
    assert!(matches!(retry_decision(2, true), RetryDecision::RetryAfter(100)));
    assert!(matches!(retry_decision(3, true), RetryDecision::RetryAfter(200)));
    assert!(matches!(retry_decision(4, true), RetryDecision::GiveUp));
    assert!(matches!(retry_decision(1, false), RetryDecision::GiveUp));
}

#[test]
fn pagination_state_machine_decisions() {
    let mut cr = ChannelRead::new(3);
    assert!(matches!(cr.begin_iteration(false, 2), IterDecision::Fetch(2)));
    assert!(matches!(cr.begin_iteration(true, 2), IterDecision::Stop));
    cr.on_batch(2);
    // Only one record of cap headroom is left: the fetch is clamped.
    assert!(matches!(cr.begin_iteration(false, 2), IterDecision::Fetch(1)));
    cr.on_batch(1);
    // The cap is reached: stop at the next checkpoint.
    assert!(matches!(cr.begin_iteration(false, 2), IterDecision::Stop));
    // End-of-results codes end the channel normally.
    assert!(matches!(
        cr.on_fetch_error(259),
        FetchErrorAction::EndOfStream
    ));
    assert!(matches!(
        cr.on_fetch_error(0x80070103),
        FetchErrorAction::EndOfStream
    ));
    // Pagination timeouts back off, then give up.
    assert!(matches!(
        cr.on_fetch_error(1460),
        FetchErrorAction::RetryAfter(50)
    ));
    assert!(matches!(
        cr.on_fetch_error(1460),
        FetchErrorAction::RetryAfter(100)
    ));
    assert!(matches!(
        cr.on_fetch_error(0x800705B4),
        FetchErrorAction::RetryAfter(200)
    ));
    assert!(matches!(
        cr.on_fetch_error(1460),
        FetchErrorAction::GiveUpTimeout
    ));
    // A delivered batch resets the timeout budget.
    cr.on_batch(0);
    assert!(matches!(
        cr.on_fetch_error(1460),
        FetchErrorAction::RetryAfter(50)
    ));
    // Anything else is fatal to the channel.
    assert!(matches!(
        cr.on_fetch_error(0x80070057),
        FetchErrorAction::Fatal(0x80070057)
    ));
}

#[test]
fn tail_from_near_max_datetime_does_not_panic() {
    // Advancing one unit past the maximum representable instant must fall
    // back to the instant itself rather than wrap or panic.
    let max_ts = i64::MAX;
    let tail_from = advance_tail_ms(max_ts);
    assert_eq!(
        tail_from, max_ts,
        "overflow fallback must equal the original timestamp"
    );
}

#[test]
fn tail_from_normal_datetime_increments_by_1ms() {
    let ts = timestamp_from_ymd_hms_ms(2024, 6, 15, 12, 0, 0, 0);
    let result = advance_tail_ms(ts);
    assert_eq!(result - ts, 1);
}

#[test]
fn tail_query_never_keeps_upper_bound() {
    let (from, to) = tail_query_bounds(Some(1000), Some(5));
    assert_eq!(from, Some(1001));
    assert_eq!(to, None);
    let (from2, to2) = tail_query_bounds(None, Some(7));
    assert_eq!(from2, Some(7));
    assert_eq!(to2, None);
}

#[test]
fn full_read_pages_into_batches() {
    // Five synthetic records, newest first, read with a page size of two:
    // exactly three batches of 2, 2 and 1, then the completion total.
    let records: Vec<EventRecord> = (0..5).map(|i| rec(100 + i, 5 - i as i64)).collect();
    let sources = vec![ChannelSource {
        name: "System".into(),
        result: Ok(records),
    }];
    let msgs = run_ingestion(sources, 2, 1_000_000, None, 0);
    let mut batch_sizes = Vec::new();
    let mut total_seen = None;
    let mut errors = 0;
    for m in &msgs {
        match m {
            ReaderMessage::EventBatch(b) => batch_sizes.push(b.len()),
            ReaderMessage::Complete { total, .. } => total_seen = Some(*total),
            ReaderMessage::Error { .. } => errors += 1,
            ReaderMessage::Progress { .. } => {}
        }
    }
    assert_eq!(batch_sizes, vec![2, 2, 1]);
    assert_eq!(total_seen, Some(5));
    assert_eq!(errors, 0);
    // Batches preserve delivery order.
    if let ReaderMessage::EventBatch(first) = &msgs[0] {
        assert_eq!(first[0].event_id, 100);
        assert_eq!(first[1].event_id, 101);
    } else {
        panic!("first message must be a batch");
    }
}

#[test]
fn cancellation_after_first_batch_is_not_an_error() {
    let records: Vec<EventRecord> = (0..5).map(|i| rec(100 + i, 5 - i as i64)).collect();
    let sources = vec![ChannelSource {
        name: "System".into(),
        result: Ok(records),
    }];
    let msgs = run_ingestion(sources, 2, 1_000_000, Some(1), 0);
    let mut batch_records = 0;
    let mut total_seen = None;
    let mut errors = 0;
    for m in &msgs {
        match m {
            ReaderMessage::EventBatch(b) => batch_records += b.len(),
            ReaderMessage::Complete { total, .. } => total_seen = Some(*total),
            ReaderMessage::Error { .. } => errors += 1,
            ReaderMessage::Progress { .. } => {}
        }
    }
    assert_eq!(batch_records, 2, "only the first page is delivered");
    assert_eq!(
        total_seen,
        Some(2),
        "the total reflects only records delivered before the flag was observed"
    );
    assert_eq!(errors, 0, "cancellation is not an error");
}

#[test]
fn per_channel_cap_truncates_the_read() {
    let records: Vec<EventRecord> = (0..10).map(|i| rec(i, i as i64)).collect();
    let sources = vec![ChannelSource {
        name: "System".into(),
        result: Ok(records),
    }];
    let msgs = run_ingestion(sources, 4, 5, None, 0);
    let mut batch_sizes = Vec::new();
    let mut total_seen = None;
    for m in &msgs {
        match m {
            ReaderMessage::EventBatch(b) => batch_sizes.push(b.len()),
            ReaderMessage::Complete { total, .. } => total_seen = Some(*total),
            _ => {}
        }
    }
    // The last fetch is clamped so the cap is never overshot.
    assert_eq!(batch_sizes, vec![4, 1]);
    assert_eq!(total_seen, Some(5));
}

#[test]
fn channels_run_in_caller_order_with_cumulative_progress() {
    let sources = vec![
        ChannelSource {
            name: "Application".into(),
            result: Ok(vec![rec(1, 1), rec(2, 2), rec(3, 3)]),
        },
        ChannelSource {
            name: "System".into(),
            result: Ok(vec![rec(4, 4)]),
        },
    ];
    let msgs = run_ingestion(sources, 2, 100, None, 0);
    let mut progress = Vec::new();
    for m in &msgs {
        if let ReaderMessage::Progress { count, channel } = m {
            progress.push((*count, channel.clone()));
        }
    }
    assert_eq!(
        progress,
        vec![(3, "Application".to_string()), (4, "System".to_string())]
    );
    // The completion message comes last and exactly once.
    assert!(matches!(msgs.last(), Some(ReaderMessage::Complete { total: 4, .. })));
    let completions = msgs
        .iter()
        .filter(|m| matches!(m, ReaderMessage::Complete { .. }))
        .count();
    assert_eq!(completions, 1);
}

#[test]
fn failed_channel_does_not_abort_siblings() {
    let sources = vec![
        ChannelSource {
            name: "Broken".into(),
            result: Err(0x80070005),
        },
        ChannelSource {
            name: "System".into(),
            result: Ok(vec![rec(1, 1), rec(2, 2)]),
        },
    ];
    let msgs = run_ingestion(sources, 10, 100, None, 7);
    let mut errors = Vec::new();
    let mut total_seen = None;
    let mut progress = Vec::new();
    for m in &msgs {
        match m {
            ReaderMessage::Error { channel, error } => errors.push((channel.clone(), error.clone())),
            ReaderMessage::Complete { total, elapsed_ms } => {
                total_seen = Some(*total);
                assert_eq!(*elapsed_ms, 7);
            }
            ReaderMessage::Progress { count, channel } => progress.push((*count, channel.clone())),
            ReaderMessage::EventBatch(_) => {}
        }
    }
    assert_eq!(errors.len(), 1);
    assert_eq!(errors[0].0, "Broken");
    assert!(errors[0].1.contains("80070005"), "got: {}", errors[0].1);
    assert_eq!(total_seen, Some(2), "the healthy channel still ran");
    assert_eq!(progress, vec![(2, "System".to_string())]);
}
