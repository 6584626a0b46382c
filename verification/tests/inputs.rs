use smart_alarm_clock::firmware::button::{button_step, classify_press};
use smart_alarm_clock::firmware::buzzer::{half_duty, melody_step, should_play, BuzzerStep};
use smart_alarm_clock::firmware::state::{Command, Phase};
use smart_alarm_clock::led::{next_hue, rainbow_color};

#[test]
fn press_classification() {
    assert_eq!(classify_press(24), None);
    assert_eq!(classify_press(25), Some(Command::ButtonShort));
    assert_eq!(classify_press(1_499), Some(Command::ButtonShort));
    assert_eq!(classify_press(1_500), Some(Command::ButtonLong));
}

#[test]
fn press_reported_on_release() {
    let (s, c) = button_step(None, true, 1_000);
    assert_eq!((s, c), (Some(1_000), None));
    let (s, c) = button_step(s, true, 2_000);
    assert_eq!((s, c), (Some(1_000), None));
    let (s, c) = button_step(s, false, 2_600);
    assert_eq!((s, c), (None, Some(Command::ButtonLong)));
    let (s, c) = button_step(s, false, 2_700);
    assert_eq!((s, c), (None, None));
    let (s, _) = button_step(None, true, 10);
    assert_eq!(button_step(s, false, 20), (None, None));
}

#[test]
fn melody_steps() {
    assert_eq!(melody_step(0, true), BuzzerStep::Tone { freq: 880, ms: 180 });
    assert_eq!(melody_step(1, true), BuzzerStep::Rest { ms: 60 });
    assert_eq!(melody_step(6, true), BuzzerStep::Tone { freq: 1319, ms: 300 });
    assert_eq!(melody_step(7, true), BuzzerStep::Rest { ms: 240 });
    assert_eq!(melody_step(8, true), BuzzerStep::Stop);
    assert_eq!(melody_step(2, false), BuzzerStep::Stop);
    assert!(should_play(Phase::Ringing));
    assert!(!should_play(Phase::Snoozed));
    assert_eq!(half_duty(1023), 511);
}

#[test]
fn rainbow_colours() {
    assert_eq!(rainbow_color(0), (16, 0, 0));
    assert_eq!(rainbow_color(85), (0, 16, 0));
    assert_eq!(rainbow_color(170), (0, 0, 16));
    assert_eq!(next_hue(254), 0);
    let mut h = 7u8;
    for _ in 0..128 {
        h = next_hue(h);
    }
    assert_eq!(h, 7);
}

#[test]
fn rainbow_stays_dim() {
    for hue in 0..=255u8 {
        let (r, g, b) = rainbow_color(hue);
        assert!(r <= 16 && g <= 16 && b <= 16);
    }
    // Between the primaries the colour mixes two channels.
    assert_eq!(rainbow_color(42), (16, 15, 0));
    assert_eq!(rainbow_color(43), (15, 16, 0));
}
