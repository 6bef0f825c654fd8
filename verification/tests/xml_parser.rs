//! Tests for the event document parser.

use eventsleuth::xml::parse_event_xml;

const SAMPLE_XML: &str = r#"<Event xmlns="http://schemas.microsoft.com/win/2004/08/events/event">
  <System>
    <Provider Name="TestProvider" />
    <EventID>1001</EventID>
    <Level>2</Level>
    <Task>0</Task>
    <Opcode>0</Opcode>
    <Keywords>0x80000000000000</Keywords>
    <TimeCreated SystemTime="2024-01-15T10:23:45.1234567Z" />
    <Execution ProcessID="4532" ThreadID="7890" />
    <Channel>Application</Channel>
    <Computer>DESKTOP-TEST</Computer>
    <Security UserID="S-1-5-21-123" />
  </System>
  <EventData>
    <Data Name="ProgramName">explorer.exe</Data>
    <Data Name="HangTime">10000</Data>
  </EventData>
</Event>"#;

#[test]
fn test_parse_basic_event() {
    let record = parse_event_xml(SAMPLE_XML, "Application", None).unwrap();
    assert_eq!(record.event_id, 1001);
    assert_eq!(record.level, 2);
    assert_eq!(record.provider_name, "TestProvider");
    assert_eq!(record.computer, "DESKTOP-TEST");
    assert_eq!(record.process_id, 4532);
    assert_eq!(record.thread_id, 7890);
    assert_eq!(record.event_data.len(), 2);
    assert_eq!(
        record.event_data[0],
        ("ProgramName".into(), "explorer.exe".into())
    );
    assert_eq!(record.user_sid, Some("S-1-5-21-123".into()));
}

#[test]
fn parsed_fields_round_out_the_record() {
    let record = parse_event_xml(SAMPLE_XML, "FallbackChannel", None).unwrap();
    assert_eq!(record.channel, "Application", "the document's channel wins");
    assert_eq!(record.level_name, "Error");
    assert_eq!(record.keywords, 0x80000000000000);
    assert_eq!(record.raw_xml, SAMPLE_XML);
    assert_eq!(
        record.timestamp,
        eventsleuth::calendar::timestamp_from_ymd_hms_ms(2024, 1, 15, 10, 23, 45, 123)
    );
    // Without a formatted message the payload pairs are joined.
    assert_eq!(record.message, "ProgramName: explorer.exe; HangTime: 10000");
}

#[test]
fn formatted_message_wins_over_fallback() {
    let record =
        parse_event_xml(SAMPLE_XML, "Application", Some("explorer.exe stopped responding".into()))
            .unwrap();
    assert_eq!(record.message, "explorer.exe stopped responding");
}

#[test]
fn channel_parameter_fills_missing_channel_element() {
    let xml = r#"<Event><System><Provider Name="P"/><EventID>5</EventID></System></Event>"#;
    let record = parse_event_xml(xml, "Setup", None).unwrap();
    assert_eq!(record.channel, "Setup");
    assert_eq!(record.event_id, 5);
    assert_eq!(record.level, 0);
    assert_eq!(record.message, "");
}

#[test]
fn unnamed_data_entries_are_numbered() {
    let xml = r#"<Event><System><EventID>9</EventID></System>
      <EventData><Data>first</Data><Data Name="K">v</Data><Data>third</Data></EventData>
    </Event>"#;
    let record = parse_event_xml(xml, "C", None).unwrap();
    assert_eq!(
        record.event_data,
        vec![
            ("Data_1".to_string(), "first".to_string()),
            ("K".to_string(), "v".to_string()),
            ("Data_2".to_string(), "third".to_string()),
        ]
    );
}

#[test]
fn user_data_wrapper_children_become_pairs() {
    let xml = r#"<Event><System><EventID>3</EventID></System>
      <UserData><MyEvent><Code>77</Code><Why>locked</Why></MyEvent></UserData>
    </Event>"#;
    let record = parse_event_xml(xml, "C", None).unwrap();
    assert_eq!(
        record.event_data,
        vec![
            ("Code".to_string(), "77".to_string()),
            ("Why".to_string(), "locked".to_string()),
        ]
    );
    assert_eq!(record.message, "Code: 77; Why: locked");
}

#[test]
fn entities_are_decoded() {
    let xml = r#"<Event><System><EventID>1</EventID></System>
      <EventData><Data Name="Path">C:\a &amp; b &lt;dir&gt;</Data></EventData>
    </Event>"#;
    let record = parse_event_xml(xml, "C", None).unwrap();
    assert_eq!(record.event_data[0].1, r"C:\a & b <dir>");
}

#[test]
fn malformed_documents_are_rejected() {
    assert!(parse_event_xml("", "C", None).is_err());
    assert!(parse_event_xml("<Event>", "C", None).is_err());
    assert!(parse_event_xml("<Event></Mismatch>", "C", None).is_err());
    assert!(parse_event_xml("no markup at all", "C", None).is_err());
    // A well-formed document without a System element is rejected too.
    let err = parse_event_xml("<Event><Other/></Event>", "C", None);
    assert!(err.is_err());
}

#[test]
fn prologue_and_namespace_prefixes_are_accepted() {
    let xml = "<?xml version=\"1.0\"?>\
        <ns:Event xmlns:ns=\"urn:x\"><ns:System><ns:EventID>42</ns:EventID></ns:System></ns:Event>";
    let record = parse_event_xml(xml, "C", None).unwrap();
    assert_eq!(record.event_id, 42);
}
