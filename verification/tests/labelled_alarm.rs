use smart_alarm_clock::alarm::{crossed, AlarmCore};
use smart_alarm_clock::state::{new_bus, new_shared, submit, Command, Phase};

#[test]
fn labelled_crossed_matches() {
    assert!(crossed(10, 20, 15));
    assert!(!crossed(20, 20, 20));
}

#[test]
fn disarm_while_syncing_applies_on_sync() {
    let mut shared = new_shared();
    let mut core = AlarmCore::new(&shared, 0);
    core.apply_command(&mut shared, Command::Disarm, 0);
    assert_eq!(core.phase, Phase::Syncing);
    core.tick(&mut shared, Some(25_200), 10);
    assert_eq!(core.phase, Phase::Idle);
    core.apply_command(&mut shared, Command::Arm, 20);
    assert_eq!(core.phase, Phase::Armed);
}

#[test]
fn labelled_alarm_cycle() {
    let mut shared = new_shared();
    let mut core = AlarmCore::new(&shared, 0);
    core.tick(&mut shared, Some(25_100), 0);
    assert_eq!(core.phase, Phase::Armed);
    core.tick(&mut shared, Some(25_200), 1_000);
    assert_eq!(core.phase, Phase::Ringing);
    // Long press inside the grace window is ignored, Dismiss is not.
    core.apply_command(&mut shared, Command::ButtonLong, 1_500);
    assert_eq!(core.phase, Phase::Ringing);
    core.apply_command(&mut shared, Command::Snooze, 3_000);
    assert_eq!(core.phase, Phase::Snoozed);
    core.tick(&mut shared, Some(25_203), 12_999);
    assert_eq!(core.phase, Phase::Snoozed);
    core.tick(&mut shared, Some(25_213), 13_000);
    assert_eq!(core.phase, Phase::Ringing);
    core.apply_command(&mut shared, Command::Dismiss, 13_001);
    assert_eq!(core.phase, Phase::Armed);
    assert!(core.desired_armed);
}

#[test]
fn long_press_toggles() {
    let mut shared = new_shared();
    let mut core = AlarmCore::new(&shared, 0);
    core.tick(&mut shared, Some(100), 0);
    assert_eq!(core.phase, Phase::Armed);
    core.apply_command(&mut shared, Command::ButtonLong, 10);
    assert_eq!(core.phase, Phase::Idle);
    assert!(!core.desired_armed);
    core.apply_command(&mut shared, Command::ButtonLong, 20);
    assert_eq!(core.phase, Phase::Armed);
}

#[test]
fn labelled_preset_edits() {
    let mut shared = new_shared();
    let mut core = AlarmCore::new(&shared, 0);
    core.apply_command(&mut shared, Command::SetPresetTime { idx: 2, secs: 90_000 }, 0);
    assert_eq!(shared.settings.presets[2].secs, 3_600);
    assert_eq!(shared.settings.presets[2].label, "Nap");
    core.apply_command(&mut shared, Command::SetPresetEnabled { idx: 1, enabled: true }, 0);
    assert!(shared.settings.presets[1].enabled);
    let v = shared.version;
    core.tick(&mut shared, Some(0), 0);
    assert_eq!(shared.version, v.wrapping_add(1));
}

#[test]
fn labelled_step_applies_bus_in_order() {
    let mut shared = new_shared();
    let mut bus = new_bus();
    let mut core = AlarmCore::new(&shared, 0);
    // Disarm then arm while syncing: the last intent wins at sync.
    submit(&mut bus, Command::Disarm);
    submit(&mut bus, Command::Arm);
    core.step(&mut shared, &mut bus, None, 0);
    assert_eq!(shared.phase, Phase::Syncing);
    assert_eq!(bus.drain(), Vec::<Command>::new());
    core.step(&mut shared, &mut bus, Some(3_600), 200);
    assert_eq!(shared.phase, Phase::Armed);
    let n = shared.settings.presets.len();
    submit(&mut bus, Command::SetPresetEnabled { idx: 1, enabled: true });
    submit(&mut bus, Command::Disarm);
    core.step(&mut shared, &mut bus, Some(3_601), 400);
    assert_eq!(shared.phase, Phase::Idle);
    assert!(shared.settings.presets[1].enabled);
    assert_eq!(shared.settings.presets.len(), n);
}
