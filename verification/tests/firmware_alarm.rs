use smart_alarm_clock::firmware::alarm::{clock_reading, crossed, AlarmCore, GRACE_MS};
use smart_alarm_clock::firmware::state::{new_bus, new_shared, submit, Command, Phase};

#[test]
fn crossed_plain_interval() {
    assert!(crossed(100, 200, 150));
    assert!(crossed(100, 200, 200));
    assert!(!crossed(100, 200, 100));
    assert!(!crossed(100, 200, 201));
}

#[test]
fn crossed_wraps_midnight() {
    assert!(crossed(86_390, 5, 86_395));
    assert!(crossed(86_390, 5, 0));
    assert!(crossed(86_390, 5, 5));
    assert!(!crossed(86_390, 5, 86_390));
    assert!(!crossed(86_390, 5, 6));
}

#[test]
fn crossed_still_clock_never() {
    for t in [0u32, 1, 500, 25_200] {
        assert!(!crossed(25_200, 25_200, t));
    }
}

#[test]
fn crossing_split_into_ticks_fires_once() {
    // (100, 300] split at 200: a target is crossed in exactly one half.
    for t in 0..400u32 {
        let whole = crossed(100, 300, t);
        let a = crossed(100, 200, t);
        let b = crossed(200, 300, t);
        assert_eq!(whole, a || b);
        assert!(!(a && b));
    }
}

#[test]
fn clock_reading_validity() {
    assert_eq!(clock_reading(1_699_999_999, 7, 0, 0), None);
    assert_eq!(clock_reading(1_700_000_000, 7, 30, 15), Some(27_015));
}

#[test]
fn firmware_alarm_rings_snoozes_and_dismisses() {
    let mut shared = new_shared();
    let mut core = AlarmCore::new(&shared, 0);
    assert_eq!(core.phase, Phase::Syncing);

    core.tick(&mut shared, None, 0);
    assert_eq!(shared.phase, Phase::Syncing);
    assert_eq!(shared.version, 1);

    // Clock valid just before 07:00; slot 0 (07:00) is enabled.
    core.tick(&mut shared, Some(25_199), 100);
    assert_eq!(core.phase, Phase::Armed);
    assert_eq!(shared.version, 2);
    core.tick(&mut shared, Some(25_199), 300);
    assert_eq!(shared.version, 2);

    core.tick(&mut shared, Some(25_200), 500);
    assert_eq!(core.phase, Phase::Ringing);
    assert_eq!(core.fired_idx, Some(0));
    assert_eq!(shared.version, 3);

    // Inside the grace window the button is ignored.
    core.apply_command(&mut shared, Command::ButtonShort, 500 + GRACE_MS - 1);
    assert_eq!(core.phase, Phase::Ringing);

    core.apply_command(&mut shared, Command::Snooze, 2_500);
    assert_eq!(core.phase, Phase::Snoozed);
    assert_eq!(core.snooze_end_ms, 12_500);

    core.tick(&mut shared, Some(25_203), 12_499);
    assert_eq!(core.phase, Phase::Snoozed);
    core.tick(&mut shared, Some(25_213), 12_500);
    assert_eq!(core.phase, Phase::Ringing);

    core.apply_command(&mut shared, Command::Dismiss, 20_000);
    assert_eq!(core.phase, Phase::Idle);
    assert!(!shared.settings.presets[0].enabled);
    core.tick(&mut shared, Some(25_220), 20_100);
    // Nothing else is enabled, so the clock goes idle.
    assert_eq!(core.phase, Phase::Idle);
    assert_eq!(shared.phase, Phase::Idle);
}

#[test]
fn firmware_alarm_slot_edits_and_display() {
    let mut shared = new_shared();
    let mut core = AlarmCore::new(&shared, 0);
    core.apply_command(&mut shared, Command::SetPresetTime { idx: 3, secs: 86_400 + 60 }, 0);
    assert_eq!(shared.settings.presets[3].secs, 60);
    core.apply_command(&mut shared, Command::SetPresetEnabled { idx: 3, enabled: true }, 0);
    assert!(shared.settings.presets[3].enabled);
    core.apply_command(&mut shared, Command::SetPresetEnabled { idx: 99, enabled: true }, 0);
    assert_eq!(shared.settings.presets.len(), 8);
    assert!(core.settings_changed);
    core.apply_command(&mut shared, Command::ToggleDisplay, 0);
    assert!(!shared.display_on);
    core.apply_command(&mut shared, Command::SetDisplay { on: true }, 0);
    assert!(shared.display_on);
    core.tick(&mut shared, Some(30), 10);
    assert_eq!(core.phase, Phase::Armed);
    core.tick(&mut shared, Some(60), 20);
    assert_eq!(core.phase, Phase::Ringing);
    // The first crossed enabled slot is remembered.
    assert_eq!(core.fired_idx, Some(3));
}

#[test]
fn version_bumps_only_on_material_change() {
    let mut shared = new_shared();
    let mut core = AlarmCore::new(&shared, 0);
    core.tick(&mut shared, Some(3_600), 0);
    let v = shared.version;

    // Quiet round: the clock moves, nothing else; the version stays.
    core.tick(&mut shared, Some(3_601), 200);
    assert_eq!(shared.version, v);

    // Writing a slot (even with its current value) bumps once.
    let enabled = shared.settings.presets[1].enabled;
    core.apply_command(&mut shared, Command::SetPresetEnabled { idx: 1, enabled }, 400);
    core.tick(&mut shared, Some(3_602), 400);
    assert_eq!(shared.version, v + 1);

    // A command on a slot that does not exist writes nothing.
    core.apply_command(&mut shared, Command::SetPresetTime { idx: 8, secs: 60 }, 600);
    core.tick(&mut shared, Some(3_603), 600);
    assert_eq!(shared.version, v + 1);

    // Display commands count as settings writes.
    core.apply_command(&mut shared, Command::ToggleDisplay, 800);
    core.tick(&mut shared, Some(3_604), 800);
    assert_eq!(shared.version, v + 2);
}

#[test]
fn run_keeps_eight_slots() {
    let mut shared = new_shared();
    let snooze = shared.settings.snooze_secs;
    let mut core = AlarmCore::new(&shared, 0);
    let cmds = [
        Command::SetPresetTime { idx: 3, secs: 90_000 },
        Command::SetPresetEnabled { idx: 7, enabled: true },
        Command::SetPresetEnabled { idx: 9, enabled: true },
        Command::Dismiss,
        Command::ButtonShort,
        Command::SetDisplay { on: false },
    ];
    let mut ms: u64 = 0;
    for (i, cmd) in cmds.iter().enumerate() {
        core.apply_command(&mut shared, *cmd, ms);
        core.tick(&mut shared, Some(25_190 + 5 * i as u32), ms);
        ms += 1_000;
        assert_eq!(shared.settings.presets.len(), 8);
        assert_eq!(shared.settings.snooze_secs, snooze);
    }
    assert_eq!(shared.settings.presets[3].secs, 3_600);
    assert!(shared.settings.presets[7].enabled);
}

#[test]
fn step_drains_bus_and_publishes() {
    let mut shared = new_shared();
    let mut bus = new_bus();
    let mut core = AlarmCore::new(&shared, 0);
    core.step(&mut shared, &mut bus, Some(3_600), 0);
    let v = shared.version;
    assert_eq!(shared.phase, Phase::Armed);

    // A quiet round leaves the version alone.
    core.step(&mut shared, &mut bus, Some(3_601), 200);
    assert_eq!(shared.version, v);

    // Two writes in one round bump once; the bus is emptied.
    submit(&mut bus, Command::SetPresetEnabled { idx: 2, enabled: true });
    submit(&mut bus, Command::SetPresetTime { idx: 2, secs: 3_700 });
    core.step(&mut shared, &mut bus, Some(3_602), 400);
    assert_eq!(shared.version, v + 1);
    assert_eq!(bus.drain(), Vec::<Command>::new());
    assert_eq!(shared.settings.presets.len(), 8);
    assert_eq!((shared.settings.presets[2].secs, shared.settings.presets[2].enabled), (3_700, true));

    // Crossing slot 2 rings: the phase changes, so the version bumps.
    core.step(&mut shared, &mut bus, Some(3_700), 600);
    assert_eq!(shared.phase, Phase::Ringing);
    assert_eq!(shared.version, v + 2);
}
