use relay_core::button::ButtonMonitor;
use relay_core::relay::{RelayAction, RelayCommand};

#[test]
fn release_edge_fires_once() {
    let mut monitor = ButtonMonitor::new(1);
    // Raised first, then lowered: exactly the raised-then-lowered pair.
    assert!(!monitor.observe(0, true));
    assert!(monitor.observe(0, false));
}

#[test]
fn first_lowered_reading_does_not_fire() {
    let mut monitor = ButtonMonitor::new(1);
    // No raised observation stored yet: a lowered reading alone must not fire.
    assert!(!monitor.observe(0, false));
}

#[test]
fn repeated_lowered_readings_fire_at_most_once() {
    let mut monitor = ButtonMonitor::new(1);
    let fires = monitor.observe_run(0, &vec![true, false, false, false, false]);
    assert_eq!(fires, vec![false, true, false, false, false]);
    assert_eq!(fires.iter().filter(|f| **f).count(), 1);
}

#[test]
fn each_release_fires_again() {
    let mut monitor = ButtonMonitor::new(1);
    let fires = monitor.observe_run(0, &vec![true, false, true, false]);
    assert_eq!(fires, vec![false, true, false, true]);
}

#[test]
fn steady_raised_line_never_fires() {
    let mut monitor = ButtonMonitor::new(1);
    let fires = monitor.observe_run(0, &vec![true, true, true]);
    assert_eq!(fires, vec![false, false, false]);
}

#[test]
fn scan_emits_toggle_per_released_button() {
    let mut monitor = ButtonMonitor::new(2);
    // First pass: both lines raised, nothing fires, state is stored.
    let cmds = monitor.scan(&vec![true, true]);
    assert!(cmds.is_empty());
    // Second pass: button 0 released, button 1 still raised.
    let cmds = monitor.scan(&vec![false, true]);
    assert_eq!(
        cmds,
        vec![RelayCommand { id: 0, action: RelayAction::Toggle }]
    );
    // Third pass: button 0 still lowered (no new fire), button 1 released.
    let cmds = monitor.scan(&vec![false, false]);
    assert_eq!(
        cmds,
        vec![RelayCommand { id: 1, action: RelayAction::Toggle }]
    );
}

#[test]
fn scan_keeps_button_order() {
    let mut monitor = ButtonMonitor::new(3);
    monitor.scan(&vec![true, true, true]);
    let cmds = monitor.scan(&vec![false, true, false]);
    assert_eq!(
        cmds,
        vec![
            RelayCommand { id: 0, action: RelayAction::Toggle },
            RelayCommand { id: 2, action: RelayAction::Toggle },
        ]
    );
}
