//! Buzzer: the alarm melody and what the buzzer worker plays at each step.
//!
//! The worker polls the shared phase; while it is [`Phase::Ringing`] it plays
//! the melody note by note, asking [`melody_step`] before each note so that a
//! snooze or dismiss silences the buzzer promptly, and leaves it silent.

use vstd::prelude::*;

use crate::firmware::state::Phase;

verus! {

/// Poll interval (ms) while silent.
pub const FRAME_MS: u64 = 50;

/// Number of notes in the melody.
pub const MELODY_LEN: usize = 8;

/// The alarm melody, `(frequency Hz, duration ms)`, `0` Hz being a rest:
/// short and rising so it reads as an alarm.
pub open spec fn melody() -> Seq<(u32, u64)> {
    seq![(880u32, 180u64), (0, 60), (1109, 180), (0, 60), (1319, 180), (0, 60), (1319, 300), (0, 240)]
}

/// Note `i` of the melody.
pub fn melody_note(i: usize) -> (n: (u32, u64))
    requires
        i < MELODY_LEN,
    ensures
        n == melody()[i as int],
{
    let notes: [(u32, u64); 8] = [(880, 180), (0, 60), (1109, 180), (0, 60), (1319, 180), (0, 60), (1319, 300), (0, 240)];
    assert(notes@ == melody());
    notes[i]
}

/// What the buzzer does next.
#[derive(Debug, Clone, Copy, PartialEq, Eq, Structural)]
pub enum BuzzerStep {
    /// Sound `freq` Hz at half duty for `ms` milliseconds.
    Tone { freq: u32, ms: u64 },
    /// Stay silent for `ms` milliseconds.
    Rest { ms: u64 },
    /// Stop the melody and silence the buzzer.
    Stop,
}

/// The step at melody position `idx`: stop once the alarm no longer rings or
/// the melody is over; otherwise play the note (a rest for 0 Hz).
pub open spec fn melody_step_spec(idx: int, ringing: bool) -> BuzzerStep {
    if idx < 0 || idx >= MELODY_LEN || !ringing {
        BuzzerStep::Stop
    } else if melody()[idx].0 == 0 {
        BuzzerStep::Rest { ms: melody()[idx].1 }
    } else {
        BuzzerStep::Tone { freq: melody()[idx].0, ms: melody()[idx].1 }
    }
}

/// Decides the buzzer's next step of the melody.
pub fn melody_step(idx: usize, ringing: bool) -> (s: BuzzerStep)
    ensures
        s == melody_step_spec(idx as int, ringing),
{
    if idx >= MELODY_LEN || !ringing {
        return BuzzerStep::Stop;
    }
    let (freq, ms) = melody_note(idx);
    if freq == 0 {
        BuzzerStep::Rest { ms }
    } else {
        BuzzerStep::Tone { freq, ms }
    }
}

/// Whether the buzzer plays in this phase (only while ringing).
pub fn should_play(phase: Phase) -> (r: bool)
    ensures
        r == (phase == Phase::Ringing),
{
    phase == Phase::Ringing
}

/// The duty cycle giving the square wave: half the maximum.
pub fn half_duty(max_duty: u32) -> (d: u32)
    ensures
        d == max_duty / 2,
{
    max_duty / 2
}

/// Snooze and dismiss silence the buzzer: once the phase stops ringing, the
/// next step at any position is Stop.
pub proof fn lemma_silent_unless_ringing(idx: int, phase: Phase)
    requires
        phase != Phase::Ringing,
    ensures
        melody_step_spec(idx, phase == Phase::Ringing) == BuzzerStep::Stop,
{
}

} // verus!
