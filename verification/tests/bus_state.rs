use smart_alarm_clock::firmware::state as fw;
use smart_alarm_clock::state;

#[test]
fn fmt_hms_pads_fields() {
    assert_eq!(state::fmt_hms(0), "00:00:00");
    assert_eq!(state::fmt_hms(45_296), "12:34:56");
    assert_eq!(fw::fmt_hms(86_399), "23:59:59");
    assert_eq!(fw::fmt_hms(360_000), "100:00:00");
}

#[test]
fn phase_names() {
    assert_eq!(fw::phase_str(fw::Phase::Syncing), "syncing");
    assert_eq!(fw::phase_str(fw::Phase::Idle), "idle");
    assert_eq!(fw::phase_str(fw::Phase::Armed), "armed");
    assert_eq!(state::phase_str(state::Phase::Ringing), "ringing");
    assert_eq!(state::phase_str(state::Phase::Snoozed), "snoozed");
}

#[test]
fn factory_settings() {
    let s = fw::new_shared();
    assert_eq!(s.settings.presets.len(), fw::NUM_PRESETS);
    assert_eq!(s.settings.presets[0].secs, 7 * 3600);
    assert!(s.settings.presets[0].enabled);
    assert!(s.settings.presets[1..].iter().all(|p| !p.enabled && p.secs == 0));
    assert_eq!(s.settings.snooze_secs, 10);
    assert!(s.display_on);
    assert_eq!(s.version, 0);

    let v1 = state::new_shared();
    let labels: Vec<&str> = v1.settings.presets.iter().map(|p| p.label.as_str()).collect();
    assert_eq!(labels, vec!["Wake", "Weekend", "Nap"]);
    assert_eq!(v1.settings.presets[1].secs, 9 * 3600);
    assert_eq!(v1.settings.presets[2].secs, 13 * 3600);
}

#[test]
fn bus_is_fifo() {
    let mut bus = fw::new_bus();
    fw::submit(&mut bus, fw::Command::Snooze);
    fw::submit(&mut bus, fw::Command::SetPresetEnabled { idx: 2, enabled: true });
    fw::submit(&mut bus, fw::Command::Dismiss);
    let cmds = bus.drain();
    assert_eq!(
        cmds,
        vec![fw::Command::Snooze, fw::Command::SetPresetEnabled { idx: 2, enabled: true }, fw::Command::Dismiss]
    );
    assert!(bus.drain().is_empty());

    let mut bus1 = state::new_bus();
    state::submit(&mut bus1, state::Command::Arm);
    assert_eq!(bus1.drain(), vec![state::Command::Arm]);
}

#[test]
fn version_advanced_settles() {
    let mut s = fw::new_shared();
    let mut last = None;
    assert!(fw::version_advanced(&s, &mut last));
    assert_eq!(last, Some(0));
    assert!(!fw::version_advanced(&s, &mut last));
    s.version = 5;
    assert!(fw::version_advanced(&s, &mut last));
    assert_eq!(last, Some(5));
}
