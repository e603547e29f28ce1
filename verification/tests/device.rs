use hid_matrix::control::{ControlResponder, OutResponse, ReportId};
use hid_matrix::encoder::{encoder_step, Direction};
use hid_matrix::monitor::{ConfigMonitor, UsbEvent};

#[test]
fn monitor_starts_unconfigured() {
    let monitor = ConfigMonitor::new();
    assert!(!monitor.is_configured());
}

#[test]
fn only_set_configuration_configures() {
    let mut monitor = ConfigMonitor::new();
    monitor.enabled(true);
    assert!(!monitor.is_configured());
    monitor.addressed(7);
    assert!(!monitor.is_configured());
    monitor.configured(true);
    assert!(monitor.is_configured());
}

#[test]
fn every_other_event_reverts_to_unconfigured() {
    let events = [
        UsbEvent::Enabled(true),
        UsbEvent::Enabled(false),
        UsbEvent::Reset,
        UsbEvent::Addressed(0),
        UsbEvent::Addressed(42),
        UsbEvent::Configured(false),
    ];
    for ev in events {
        let mut monitor = ConfigMonitor::new();
        monitor.configured(true);
        assert!(monitor.is_configured());
        monitor.on_event(ev);
        assert!(!monitor.is_configured());
    }
}

#[test]
fn configured_transitions_are_idempotent() {
    let mut monitor = ConfigMonitor::new();
    monitor.configured(true);
    monitor.configured(true);
    assert!(monitor.is_configured());
    monitor.reset();
    monitor.reset();
    assert!(!monitor.is_configured());
}

#[test]
fn set_report_accepts_any_payload_and_stores_nothing() {
    let mut responder = ControlResponder::new();
    let payload = vec![0x01u8, 0xff, 0x42];
    let response = responder.set_report(ReportId::Out(0), &payload);
    assert_eq!(response, OutResponse::Accepted);
    // the payload is discarded: a later GET_REPORT still has no data
    let mut buf = vec![0u8; 8];
    assert_eq!(responder.get_report(ReportId::Out(0), &mut buf), None);
    assert_eq!(buf, vec![0u8; 8]);
}

#[test]
fn get_report_has_no_data_for_any_id() {
    let mut responder = ControlResponder::new();
    let mut buf = vec![0u8; 8];
    assert_eq!(responder.get_report(ReportId::In(1), &mut buf), None);
    assert_eq!(responder.get_report(ReportId::Feature(2), &mut buf), None);
}

#[test]
fn idle_rate_is_not_implemented() {
    let mut responder = ControlResponder::new();
    responder.set_idle_ms(Some(ReportId::In(0)), 500);
    assert_eq!(responder.get_idle_ms(Some(ReportId::In(0))), None);
    assert_eq!(responder.get_idle_ms(None), None);
}

#[test]
fn encoder_steps_by_direction() {
    assert_eq!(encoder_step(0, Direction::Clockwise), 1);
    assert_eq!(encoder_step(0, Direction::CounterClockwise), -1);
    assert_eq!(encoder_step(-3, Direction::Clockwise), -2);
}

#[test]
fn encoder_wraps_at_integer_width() {
    assert_eq!(encoder_step(i32::MAX, Direction::Clockwise), i32::MIN);
    assert_eq!(encoder_step(i32::MIN, Direction::CounterClockwise), i32::MAX);
}
