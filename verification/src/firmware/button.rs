//! Button input: turns the level of an active-low push button, sampled every
//! [`POLL_MS`], into [`Command::ButtonShort`] and [`Command::ButtonLong`].
//!
//! The worker that owns the pin calls [`button_step`] on every sample with
//! the current monotonic time and submits the command it returns.

use vstd::prelude::*;

use crate::firmware::state::Command;

verus! {

/// Hold at least this long (ms) to count as a long press (dismiss).
pub const LONG_MS: u64 = 1500;
/// Contact bounces shorter than this (ms) are ignored.
pub const DEBOUNCE_MS: u64 = 25;
/// Input poll period (ms).
pub const POLL_MS: u64 = 10;

/// The command a press held for `held_ms` stands for.
pub open spec fn press_command(held_ms: u64) -> Option<Command> {
    if held_ms < DEBOUNCE_MS {
        None
    } else if held_ms >= LONG_MS {
        Some(Command::ButtonLong)
    } else {
        Some(Command::ButtonShort)
    }
}

/// Classifies a completed press by how long it was held.
pub fn classify_press(held_ms: u64) -> (cmd: Option<Command>)
    ensures
        cmd == press_command(held_ms),
{
    if held_ms >= DEBOUNCE_MS {
        if held_ms >= LONG_MS {
            Some(Command::ButtonLong)
        } else {
            Some(Command::ButtonShort)
        }
    } else {
        None
    }
}

/// One sample of the button: the press start recorded so far (`None` while
/// released), whether the button is down now, and the time. A press starts
/// when the button goes down and is classified when it is released.
pub open spec fn button_step_spec(pressed_at: Option<u64>, down: bool, now_ms: u64) -> (
    Option<u64>,
    Option<Command>,
) {
    match (down, pressed_at) {
        (true, None) => (Some(now_ms), None),
        (false, Some(t)) => (
            None,
            press_command(
                if now_ms >= t {
                    (now_ms - t) as u64
                } else {
                    0
                },
            ),
        ),
        _ => (pressed_at, None),
    }
}

/// Processes one sample of the button.
pub fn button_step(pressed_at: Option<u64>, down: bool, now_ms: u64) -> (r: (
    Option<u64>,
    Option<Command>,
))
    ensures
        r == button_step_spec(pressed_at, down, now_ms),
{
    match (down, pressed_at) {
        (true, None) => (Some(now_ms), None),
        (false, Some(t)) => {
            let held = if now_ms >= t {
                now_ms - t
            } else {
                0
            };
            (None, classify_press(held))
        },
        _ => (pressed_at, None),
    }
}

/// A press is reported once, on release: pressing at `t`, staying down,
/// then releasing at `t + held` yields exactly `press_command(held)`, and
/// nothing before.
pub proof fn lemma_press_reported_on_release(t: u64, mid: u64, held: u64)
    requires
        t + held <= u64::MAX,
    ensures
        ({
            let (s1, c1) = button_step_spec(None, true, t);
            let (s2, c2) = button_step_spec(s1, true, mid);
            let (s3, c3) = button_step_spec(s2, false, (t + held) as u64);
            &&& c1 is None && c2 is None
            &&& c3 == press_command(held)
            &&& s3 is None
        }),
{
}

} // verus!
