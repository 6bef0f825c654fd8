//! Tests for channel-name helpers and the elevation-banner rule.

use eventsleuth::channels::{categorise_channel, common_channels, security_access_error_in_list};

fn strv(s: &[&str]) -> Vec<String> {
    s.iter().map(|s| s.to_string()).collect()
}

fn e(ch: &str, msg: &str) -> (String, String) {
    (ch.to_owned(), msg.to_owned())
}

#[test]
fn test_common_channels_preserves_actual_casing() {
    let all = strv(&["application", "SYSTEM", "SECURITY", "Setup"]);
    let result = common_channels(&all);
    assert!(
        result.contains(&"application".to_string()),
        "must keep OS casing"
    );
    assert!(
        result.contains(&"SYSTEM".to_string()),
        "must keep OS casing"
    );
    assert!(
        result.contains(&"SECURITY".to_string()),
        "must keep OS casing"
    );
    assert!(result.contains(&"Setup".to_string()), "must keep OS casing");
}

#[test]
fn test_common_channels_skips_absent_channels() {
    let all = strv(&["Application", "System"]);
    let result = common_channels(&all);
    assert_eq!(result.len(), 2);
    assert!(!result.iter().any(|c| c.eq_ignore_ascii_case("Security")));
    assert!(!result.iter().any(|c| c.eq_ignore_ascii_case("Setup")));
}

#[test]
fn test_common_channels_names_are_in_all() {
    let all = strv(&["Application", "System", "Security", "Setup", "Other"]);
    let result = common_channels(&all);
    for name in &result {
        assert!(
            all.contains(name),
            "returned name '{name}' must be an element of the input slice"
        );
    }
}

#[test]
fn categorise_groups_classic_and_service_logs() {
    assert_eq!(categorise_channel("System").0, "Windows Logs");
    assert_eq!(categorise_channel("SECURITY").0, "Windows Logs");
    assert_eq!(
        categorise_channel("Microsoft-Windows-Sysmon/Operational").0,
        "Applications and Services Logs"
    );
    assert_eq!(categorise_channel("OpenSSH/Admin").0, "Other");
    assert_eq!(categorise_channel("Setup").1, "Setup");
}

#[test]
fn hresult_access_denied_triggers_banner() {
    let errors = vec![e(
        "Security",
        "Windows API error: EvtQuery on channel 'Security' (HRESULT: 0x80070005)",
    )];
    assert!(
        security_access_error_in_list(&errors),
        "HRESULT 0x80070005 in Security channel error must trigger security banner"
    );
}

#[test]
fn raw_win32_code_string_alone_does_not_trigger_banner() {
    // A message holding only the raw Win32 code string (no HRESULT text,
    // no "access" substring) must not trigger the banner.
    let errors = vec![e("Security", "error code: 00000005")];
    assert!(
        !security_access_error_in_list(&errors),
        "Raw Win32 code string '00000005' alone must NOT trigger the security banner"
    );
}

#[test]
fn non_security_channel_never_triggers_banner() {
    let errors = vec![e(
        "Application",
        "Windows API error: EvtQuery (HRESULT: 0x80070005)",
    )];
    assert!(
        !security_access_error_in_list(&errors),
        "Access-denied on a non-Security channel must not trigger the security banner"
    );
}

#[test]
fn generic_access_text_triggers_banner() {
    let errors = vec![e("Security", "Access denied: channel cannot be opened")];
    assert!(
        security_access_error_in_list(&errors),
        "Access-denied text in Security channel error must trigger the security banner"
    );
}

#[test]
fn empty_errors_no_banner() {
    assert!(
        !security_access_error_in_list(&Vec::new()),
        "Empty error list must not trigger the security banner"
    );
}
