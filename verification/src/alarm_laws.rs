//! Laws of the labelled-preset alarm core, stated over the transition
//! functions that [`AlarmCore::apply_command`] and [`AlarmCore::tick`] follow.

use vstd::prelude::*;

use crate::alarm::{
    any_fires, command_next, in_grace, prev_or, snooze_fits, tick_next, AlarmCore,
};
use crate::state::{Command, Phase, Preset, SharedView};

verus! {

/// Arm and Disarm requests made while the clock is syncing are not lost: they
/// take effect at the first tick with a valid clock (Armed, or Ringing right
/// away if a preset is crossed on that tick; Idle after Disarm).
pub proof fn lemma_arming_intent_applied_on_sync(
    c: AlarmCore,
    s: SharedView,
    arm: bool,
    t: u64,
    secs: u32,
    t2: u64,
)
    requires
        c.phase == Phase::Syncing,
    ensures
        ({
            let cmd = if arm {
                Command::Arm
            } else {
                Command::Disarm
            };
            let (c1, s1) = command_next(c, s, cmd, t);
            let c2 = tick_next(c1, s1, Some(secs), t2).0;
            &&& c1.phase == Phase::Syncing
            &&& arm ==> c2.phase == (if any_fires(s.presets, prev_or(c.prev_secs, secs), secs) {
                Phase::Ringing
            } else {
                Phase::Armed
            })
            &&& !arm ==> c2.phase == Phase::Idle
        }),
{
}

/// A long press toggles arming while quiet: Idle becomes Armed and Armed
/// becomes Idle, so two long presses restore the phase and the intent.
pub proof fn lemma_long_press_toggles_arming(c: AlarmCore, s: SharedView, t1: u64, t2: u64)
    requires
        c.phase == Phase::Idle || c.phase == Phase::Armed,
    ensures
        ({
            let (c1, s1) = command_next(c, s, Command::ButtonLong, t1);
            let (c2, s2) = command_next(c1, s1, Command::ButtonLong, t2);
            &&& c1.phase == (if c.phase == Phase::Idle {
                Phase::Armed
            } else {
                Phase::Idle
            })
            &&& c1.desired_armed == (c1.phase == Phase::Armed)
            &&& c2.phase == c.phase
            &&& s2 == s
        }),
{
}

/// A disarmed clock never rings: a tick with a valid clock keeps an Idle core
/// Idle, and a syncing core that was asked to disarm comes up Idle.
pub proof fn lemma_disarmed_never_rings(c: AlarmCore, s: SharedView, secs: u32, now_ms: u64)
    requires
        c.phase == Phase::Idle || (c.phase == Phase::Syncing && !c.desired_armed),
    ensures
        tick_next(c, s, Some(secs), now_ms).0.phase == Phase::Idle,
{
}

/// An armed clock rings exactly when an enabled preset's time is crossed.
pub proof fn lemma_armed_rings_on_crossing(c: AlarmCore, s: SharedView, secs: u32, now_ms: u64)
    requires
        c.phase == Phase::Armed,
    ensures
        (tick_next(c, s, Some(secs), now_ms).0.phase == Phase::Ringing) == any_fires(
            s.presets,
            prev_or(c.prev_secs, secs),
            secs,
        ),
{
}

/// Dismissing a ringing or snoozed alarm re-arms the clock; the Dismiss
/// request is honoured even inside the grace window.
pub proof fn lemma_dismiss_rearms(c: AlarmCore, s: SharedView, now_ms: u64)
    requires
        c.phase == Phase::Ringing || c.phase == Phase::Snoozed,
    ensures
        command_next(c, s, Command::Dismiss, now_ms).0.phase == Phase::Armed,
        command_next(c, s, Command::Dismiss, now_ms).0.desired_armed,
        command_next(c, s, Command::Dismiss, now_ms).1 == s,
{
}

/// The fire-time guard: button presses and snooze requests made in the grace
/// window change nothing.
pub proof fn lemma_grace_ignores_buttons(c: AlarmCore, s: SharedView, cmd: Command, now_ms: u64)
    requires
        in_grace(c, now_ms),
        cmd == Command::Snooze || cmd == Command::ButtonShort || cmd == Command::ButtonLong,
    ensures
        command_next(c, s, cmd, now_ms) == (c, s),
{
}

/// No step adds or removes presets, so every front-end keeps addressing the
/// same slots.
pub proof fn lemma_steps_keep_presets_count(
    c: AlarmCore,
    s: SharedView,
    cmd: Command,
    now: Option<u32>,
    now_ms: u64,
)
    ensures
        command_next(c, s, cmd, now_ms).1.presets.len() == s.presets.len(),
        tick_next(c, s, now, now_ms).1.presets == s.presets,
{
}

/// A long press dismisses a ringing or snoozed alarm outside the grace
/// window: the clock goes back to Armed, intending to stay armed, and the
/// presets are untouched.
pub proof fn lemma_long_press_dismisses(c: AlarmCore, s: SharedView, now_ms: u64)
    requires
        c.phase == Phase::Ringing || c.phase == Phase::Snoozed,
        !in_grace(c, now_ms),
    ensures
        command_next(c, s, Command::ButtonLong, now_ms).0.phase == Phase::Armed,
        command_next(c, s, Command::ButtonLong, now_ms).0.desired_armed,
        command_next(c, s, Command::ButtonLong, now_ms).1 == s,
{
}

/// Arm and Disarm set the arming intent; outside Syncing they also move the
/// clock to Armed or Idle at once (leaving any alarm), while syncing the
/// phase waits for the clock. Neither touches the presets.
pub proof fn lemma_arm_disarm(c: AlarmCore, s: SharedView, t: u64)
    ensures
        ({
            let (c1, s1) = command_next(c, s, Command::Arm, t);
            &&& c1.desired_armed && s1 == s
            &&& c1.phase == (if c.phase == Phase::Syncing {
                Phase::Syncing
            } else {
                Phase::Armed
            })
        }),
        ({
            let (c1, s1) = command_next(c, s, Command::Disarm, t);
            &&& !c1.desired_armed && s1 == s
            &&& c1.phase == (if c.phase == Phase::Syncing {
                Phase::Syncing
            } else {
                Phase::Idle
            })
        }),
{
}

/// Preset edits do what they ask and nothing else: enabling or disabling
/// preset `idx` sets exactly its flag, keeping its label and time; setting
/// its time stores the time of day (modulo 24 h), keeping its label and
/// flag; other presets, the phase and the arming intent stay; an index past
/// the list changes nothing.
pub proof fn lemma_preset_edits(c: AlarmCore, s: SharedView, idx: usize, e: bool, secs: u32, t: u64)
    ensures
        ({
            let (c1, s1) = command_next(c, s, Command::SetPresetEnabled { idx, enabled: e }, t);
            &&& s1.presets.len() == s.presets.len()
            &&& idx < s.presets.len() ==> s1.presets[idx as int] == (Preset {
                label: s.presets[idx as int].label,
                secs: s.presets[idx as int].secs,
                enabled: e,
            })
            &&& forall|j: int| 0 <= j < s.presets.len() && j != idx ==> s1.presets[j] == s.presets[j]
            &&& c1.phase == c.phase && c1.desired_armed == c.desired_armed
            &&& idx >= s.presets.len() ==> (c1, s1) == (c, s)
        }),
        ({
            let (c1, s1) = command_next(c, s, Command::SetPresetTime { idx, secs }, t);
            &&& s1.presets.len() == s.presets.len()
            &&& idx < s.presets.len() ==> s1.presets[idx as int] == (Preset {
                label: s.presets[idx as int].label,
                secs: secs % 86400,
                enabled: s.presets[idx as int].enabled,
            })
            &&& forall|j: int| 0 <= j < s.presets.len() && j != idx ==> s1.presets[j] == s.presets[j]
            &&& c1.phase == c.phase && c1.desired_armed == c.desired_armed
            &&& idx >= s.presets.len() ==> (c1, s1) == (c, s)
        }),
{
}

/// Snooze silences a ringing alarm until `snooze_secs` later: outside the
/// grace window a ringing core becomes Snoozed with its end that far after
/// the request; in any other case a snooze request or short press changes
/// nothing.
pub proof fn lemma_snooze_command(c: AlarmCore, s: SharedView, short: bool, t: u64)
    requires
        snooze_fits(c, t),
    ensures
        ({
            let cmd = if short {
                Command::ButtonShort
            } else {
                Command::Snooze
            };
            let (c1, s1) = command_next(c, s, cmd, t);
            &&& s1 == s
            &&& (c.phase == Phase::Ringing && !in_grace(c, t)) ==> c1.phase == Phase::Snoozed
                && c1.snooze_end_ms == t + c.snooze_secs * 1000 && c1.desired_armed
                == c.desired_armed
            &&& !(c.phase == Phase::Ringing && !in_grace(c, t)) ==> c1 == c
        }),
{
}

/// Outside an alarm, Dismiss changes nothing, and neither does a long press
/// while the clock is syncing.
pub proof fn lemma_quiet_dismiss_ignored(c: AlarmCore, s: SharedView, t: u64)
    requires
        c.phase != Phase::Ringing && c.phase != Phase::Snoozed,
    ensures
        command_next(c, s, Command::Dismiss, t) == (c, s),
        c.phase == Phase::Syncing ==> command_next(c, s, Command::ButtonLong, t) == (c, s),
{
}

} // verus!
