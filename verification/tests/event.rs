use rust_rsi::binary64::Binary64;
use rust_rsi::engine::{Action, Input, StreamEngine};
use rust_rsi::event::{PendingEmission, TradeEvent};
use rust_rsi::fault::{recovery, Fault, Recovery};

fn pending_for(key: &str) -> PendingEmission {
    let mut engine = StreamEngine::new();
    for i in 0..14 {
        let input = Input::Trade(TradeEvent {
            asset_key: key.to_string(),
            price: Binary64::from_bits((i as f64).to_bits()),
            observed_at: String::new(),
        });
        assert!(matches!(engine.step(input), Action::Wait));
    }
    let input = Input::Trade(TradeEvent {
        asset_key: key.to_string(),
        price: Binary64::from_bits(14.0f64.to_bits()),
        observed_at: String::new(),
    });
    match engine.step(input) {
        Action::Compute(pending) => pending,
        _ => panic!("the fifteenth trade is due a value"),
    }
}

#[test]
fn pending_emission_shows_key_and_full_window() {
    let pending = pending_for("So11111111111111111111111111111111111111112");
    assert_eq!(pending.asset_key(), "So11111111111111111111111111111111111111112");
    assert_eq!(pending.window().len(), 15);
    for (i, p) in pending.window().iter().enumerate() {
        assert_eq!(f64::from_bits(p.to_bits()), i as f64);
    }
}

#[test]
fn complete_at_builds_the_result_from_its_parts() {
    let pending = pending_for("X");
    let rsi = Binary64::from_bits(62.5f64.to_bits());
    let result = pending.complete_at(rsi, "2024-05-01T12:30:00+00:00".to_string());
    assert_eq!(result.asset_key, "X");
    assert_eq!(result.emitted_at, "2024-05-01T12:30:00+00:00");
    assert_eq!(result.rsi, rsi);
    assert_eq!(f64::from_bits(result.rsi.to_bits()), 62.5);
}

#[test]
fn complete_stamps_the_current_time_in_rfc3339() {
    let before = chrono::Utc::now();
    let pending = pending_for("Y");
    let rsi = Binary64::from_bits(100.0f64.to_bits());
    let result = pending.complete(rsi);
    let after = chrono::Utc::now();
    assert_eq!(result.asset_key, "Y");
    assert_eq!(result.rsi, rsi);
    let stamp = chrono::DateTime::parse_from_rfc3339(&result.emitted_at)
        .expect("the stamp is an RFC 3339 string");
    assert_eq!(stamp.offset().local_minus_utc(), 0);
    assert!(result.emitted_at.ends_with("+00:00"));
    let stamp = stamp.with_timezone(&chrono::Utc);
    assert!(before <= stamp);
    assert!(stamp <= after);
}

#[test]
fn unreadable_events_are_skipped() {
    assert_eq!(recovery(Fault::Deserialization), Recovery::Skip);
    assert_eq!(recovery(Fault::MissingPayload), Recovery::Skip);
}

#[test]
fn publish_failure_is_reported_not_fatal() {
    assert_eq!(recovery(Fault::Publish), Recovery::Report);
}

#[test]
fn only_adapter_construction_failure_terminates() {
    assert_eq!(recovery(Fault::AdapterConstruction), Recovery::Terminate);
    for fault in [Fault::Deserialization, Fault::MissingPayload, Fault::Publish] {
        assert_ne!(recovery(fault), Recovery::Terminate);
    }
}
