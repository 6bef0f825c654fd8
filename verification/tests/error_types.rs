//! Tests for error construction and display text.

use eventsleuth::error::{windows_err, EventSleuthError};

#[test]
fn windows_api_error_displays_hex_hresult() {
    let err = windows_err(0x80070005, "EvtQuery on Security");
    let msg = err.message();
    assert!(
        msg.contains("80070005"),
        "Error message should contain hex HRESULT: {msg}"
    );
    assert!(
        msg.contains("EvtQuery on Security"),
        "Error message should contain context: {msg}"
    );
}

#[test]
fn xml_parse_error_preserves_message() {
    let err = EventSleuthError::XmlParse("unexpected EOF at line 42".into());
    let msg = err.message();
    assert!(
        msg.contains("unexpected EOF"),
        "Should contain detail: {msg}"
    );
}

#[test]
fn export_error_preserves_message() {
    let err = EventSleuthError::Export("disk full".into());
    let msg = err.message();
    assert!(msg.contains("disk full"), "Should contain detail: {msg}");
}

#[test]
fn channel_enum_error_displays() {
    let err = EventSleuthError::ChannelEnum("handle invalid".into());
    let msg = err.message();
    assert!(
        msg.contains("handle invalid"),
        "Should contain detail: {msg}"
    );
}

#[test]
fn error_is_send_and_sync() {
    fn assert_send_sync<T: Send + Sync>() {}
    // The error crosses thread boundaries inside delivery channels.
    assert_send_sync::<EventSleuthError>();
}

#[test]
fn io_error_text_preserved() {
    let err = EventSleuthError::Io("no access".into());
    let msg = err.message();
    assert!(msg.contains("no access"), "Should preserve detail: {msg}");
    assert!(msg.contains("I/O error"), "Should name the category: {msg}");
}

#[test]
fn filter_parse_error_displays() {
    let err = EventSleuthError::FilterParse("bad token".into());
    let msg = err.message();
    assert!(msg.contains("bad token"));
    assert!(msg.contains("Filter parse error"));
}

#[test]
fn hresult_renders_as_eight_upper_hex_digits() {
    let err = windows_err(0x5, "probe");
    let msg = err.message();
    assert!(msg.contains("0x00000005"), "got: {msg}");
    let err2 = windows_err(0x800705B4, "probe");
    assert!(err2.message().contains("0x800705B4"));
}
