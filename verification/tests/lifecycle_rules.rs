//! Tests for the load lifecycle and the debounced filter application.

use eventsleuth::lifecycle::{load_phase_step, Debouncer, LoadEvent, LoadPhase};

#[test]
fn load_lifecycle_transitions() {
    // Idle → Loading on start; only completion returns to Idle.
    let p = load_phase_step(LoadPhase::Idle, LoadEvent::Started);
    assert!(matches!(p, LoadPhase::Loading));
    let p = load_phase_step(p, LoadEvent::CancelRequested);
    assert!(matches!(p, LoadPhase::Cancelling));
    // A cancel request while already cancelling changes nothing.
    let p = load_phase_step(p, LoadEvent::CancelRequested);
    assert!(matches!(p, LoadPhase::Cancelling));
    let p = load_phase_step(p, LoadEvent::Completed);
    assert!(matches!(p, LoadPhase::Idle));
    // Cancelling when idle stays idle.
    let p = load_phase_step(LoadPhase::Idle, LoadEvent::CancelRequested);
    assert!(matches!(p, LoadPhase::Idle));
}

#[test]
fn debounce_fires_only_after_the_deadline() {
    let mut d = Debouncer::new(150);
    assert!(!d.tick(1_000), "nothing pending yet");
    d.record_edit(1_000);
    assert!(!d.tick(1_100), "the deadline has not passed");
    // A further edit pushes the deadline out.
    d.record_edit(1_120);
    assert!(!d.tick(1_200));
    assert!(d.tick(1_270), "150 units after the last edit");
    assert!(!d.tick(2_000), "firing cleared the pending edit");
}

#[test]
fn debounce_deadline_saturates_near_the_top() {
    let mut d = Debouncer::new(150);
    d.record_edit(i64::MAX - 10);
    assert_eq!(d.deadline, Some(i64::MAX));
    assert!(!d.tick(0));
    assert!(d.tick(i64::MAX));
}
