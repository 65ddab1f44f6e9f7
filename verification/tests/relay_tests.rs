use relay_core::relay::{RelayAction, RelayBank, RelayCommand};
use relay_core::telemetry::TelemetryEvent;

fn cmd(id: usize, action: RelayAction) -> RelayCommand {
    RelayCommand { id, action }
}

#[test]
fn new_bank_is_de_energized() {
    let bank = RelayBank::new(2);
    assert_eq!(bank.len(), 2);
    assert!(!bank.level(0));
    assert!(!bank.level(1));
}

#[test]
fn end_to_end_relay_zero() {
    // RelayId 0 starts de-energized; On then Toggle, each with exactly one
    // read-back event.
    let mut bank = RelayBank::new(2);
    let ev_on = bank.process(&cmd(0, RelayAction::On), true);
    assert_eq!(ev_on, TelemetryEvent::Relay { id: 0, state: true });
    let ev_toggle = bank.process(&cmd(0, RelayAction::Toggle), true);
    assert_eq!(ev_toggle, TelemetryEvent::Relay { id: 0, state: false });
}

#[test]
fn read_back_reports_actual_level_on_failed_write() {
    let mut bank = RelayBank::new(1);
    // The write fails silently: the event must report the unchanged level,
    // never the requested one.
    let ev = bank.process(&cmd(0, RelayAction::On), false);
    assert_eq!(ev, TelemetryEvent::Relay { id: 0, state: false });
    assert!(!bank.level(0));
}

#[test]
fn status_emits_event_without_write() {
    let mut bank = RelayBank::new(1);
    bank.process(&cmd(0, RelayAction::On), true);
    let ev = bank.process(&cmd(0, RelayAction::Status), true);
    assert_eq!(ev, TelemetryEvent::Relay { id: 0, state: true });
    assert!(bank.level(0));
}

#[test]
fn on_twice_equals_on_once() {
    let mut once = RelayBank::new(2);
    once.process(&cmd(1, RelayAction::On), true);
    let mut twice = RelayBank::new(2);
    twice.process(&cmd(1, RelayAction::On), true);
    twice.process(&cmd(1, RelayAction::On), true);
    assert_eq!(once.level(0), twice.level(0));
    assert_eq!(once.level(1), twice.level(1));
}

#[test]
fn off_twice_equals_off_once() {
    let mut once = RelayBank::new(1);
    once.process(&cmd(0, RelayAction::On), true);
    once.process(&cmd(0, RelayAction::Off), true);
    let mut twice = RelayBank::new(1);
    twice.process(&cmd(0, RelayAction::On), true);
    twice.process(&cmd(0, RelayAction::Off), true);
    twice.process(&cmd(0, RelayAction::Off), true);
    assert_eq!(once.level(0), twice.level(0));
}

#[test]
fn toggle_twice_restores_level() {
    let mut bank = RelayBank::new(1);
    assert!(!bank.level(0));
    bank.process(&cmd(0, RelayAction::Toggle), true);
    assert!(bank.level(0));
    bank.process(&cmd(0, RelayAction::Toggle), true);
    assert!(!bank.level(0));
}

#[test]
fn events_keep_command_order() {
    let mut bank = RelayBank::new(2);
    let cmds = vec![
        (cmd(0, RelayAction::On), true),
        (cmd(1, RelayAction::Toggle), true),
        (cmd(0, RelayAction::Off), true),
        (cmd(0, RelayAction::Status), true),
    ];
    let evs = bank.process_all(&cmds);
    assert_eq!(
        evs,
        vec![
            TelemetryEvent::Relay { id: 0, state: true },
            TelemetryEvent::Relay { id: 1, state: true },
            TelemetryEvent::Relay { id: 0, state: false },
            TelemetryEvent::Relay { id: 0, state: false },
        ]
    );
}

#[test]
fn out_of_range_command_is_dropped() {
    let mut bank = RelayBank::new(2);
    let ev = bank.process_checked(&cmd(2, RelayAction::On), true);
    assert!(ev.is_none());
    assert!(!bank.level(0));
    assert!(!bank.level(1));
    let ev = bank.process_checked(&cmd(1, RelayAction::On), true);
    assert_eq!(ev, Some(TelemetryEvent::Relay { id: 1, state: true }));
}

#[test]
fn plan_matches_actions() {
    let mut bank = RelayBank::new(1);
    assert_eq!(bank.plan(&cmd(0, RelayAction::Toggle)), Some(true));
    assert_eq!(bank.plan(&cmd(0, RelayAction::On)), Some(true));
    assert_eq!(bank.plan(&cmd(0, RelayAction::Off)), Some(false));
    assert_eq!(bank.plan(&cmd(0, RelayAction::Status)), None);
    bank.record(0, true);
    assert_eq!(bank.plan(&cmd(0, RelayAction::Toggle)), Some(false));
}

#[test]
fn record_syncs_to_observed_level() {
    let mut bank = RelayBank::new(1);
    let ev = bank.record(0, true);
    assert_eq!(ev, TelemetryEvent::Relay { id: 0, state: true });
    assert!(bank.level(0));
}
