use relay_core::sensor::{run_cycles, sample_event, SensorReading};
use relay_core::telemetry::TelemetryEvent;

#[test]
fn successful_read_emits_one_event() {
    let ev = sample_event(Some(SensorReading { temperature: 21, humidity: 40 }));
    assert_eq!(
        ev,
        Some(TelemetryEvent::Sensor { temperature: 21, humidity: 40 })
    );
}

#[test]
fn failed_read_emits_nothing() {
    assert_eq!(sample_event(None), None);
}

#[test]
fn three_failures_then_recovery() {
    // Three consecutive failures: zero events, three logged failures, and the
    // sampler still emits on the fourth, successful, read.
    let outcomes = vec![None, None, None];
    let (events, failures) = run_cycles(&outcomes);
    assert!(events.is_empty());
    assert_eq!(failures, 3);

    let outcomes = vec![
        None,
        None,
        None,
        Some(SensorReading { temperature: 19, humidity: 55 }),
    ];
    let (events, failures) = run_cycles(&outcomes);
    assert_eq!(
        events,
        vec![TelemetryEvent::Sensor { temperature: 19, humidity: 55 }]
    );
    assert_eq!(failures, 3);
}

#[test]
fn events_keep_cycle_order() {
    let outcomes = vec![
        Some(SensorReading { temperature: 1, humidity: 10 }),
        None,
        Some(SensorReading { temperature: -2, humidity: 20 }),
    ];
    let (events, failures) = run_cycles(&outcomes);
    assert_eq!(
        events,
        vec![
            TelemetryEvent::Sensor { temperature: 1, humidity: 10 },
            TelemetryEvent::Sensor { temperature: -2, humidity: 20 },
        ]
    );
    assert_eq!(failures, 1);
}
