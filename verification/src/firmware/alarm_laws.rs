//! Laws of the firmware alarm core, stated over the transition functions that
//! [`AlarmCore::apply_command`] and [`AlarmCore::tick`] are proved to follow.

use vstd::prelude::*;

use crate::firmware::alarm::{
    any_enabled, apply_commands, bumped, command_next, crossed_spec, fires, first_hit, in_grace,
    initial_core, prev_or, snooze_fits, tick_next, worker_round, AlarmCore,
};
use crate::firmware::state::{Command, Phase, Preset, SharedView, DAY_SECS};

verus! {

/// Distance travelled clockwise around the 24-hour dial from `from` to `to`.
pub open spec fn dial_distance(from: u32, to: u32) -> int {
    (to - from) % (DAY_SECS as int)
}

/// For times of day, `crossed` means the target lies on the clockwise arc
/// `(prev, now]` of the 24-hour dial (an empty arc when `prev == now`).
pub proof fn lemma_crossed_is_dial_arc(prev: u32, now: u32, target: u32)
    requires
        prev < DAY_SECS,
        now < DAY_SECS,
        target < DAY_SECS,
    ensures
        crossed_spec(prev, now, target) == (0 < dial_distance(prev, target) <= dial_distance(
            prev,
            now,
        )),
{
    let d = DAY_SECS as int;
    let dn = now - prev;
    let dt = target - prev;
    assert(dn >= 0 ==> dn % d == dn);
    assert(dn < 0 ==> dn % d == dn + d);
    assert(dt >= 0 ==> dt % d == dt);
    assert(dt < 0 ==> dt % d == dt + d);
}

/// Ticking in smaller steps neither misses nor repeats a crossing: when `mid`
/// lies on the way from `prev` to `now`, the target is crossed on the whole
/// step exactly when it is crossed on one of the two sub-steps, never both.
pub proof fn lemma_crossing_splits(prev: u32, mid: u32, now: u32, target: u32)
    requires
        prev < DAY_SECS,
        mid < DAY_SECS,
        now < DAY_SECS,
        target < DAY_SECS,
        dial_distance(prev, mid) <= dial_distance(prev, now),
    ensures
        crossed_spec(prev, now, target) == (crossed_spec(prev, mid, target) || crossed_spec(
            mid,
            now,
            target,
        )),
        !(crossed_spec(prev, mid, target) && crossed_spec(mid, now, target)),
{
    lemma_crossed_is_dial_arc(prev, now, target);
    lemma_crossed_is_dial_arc(prev, mid, target);
    lemma_crossed_is_dial_arc(mid, now, target);
    let d = DAY_SECS as int;
    let a = mid - prev;
    let b = now - prev;
    let c = now - mid;
    let t1 = target - prev;
    let t2 = target - mid;
    assert(a >= 0 ==> a % d == a);
    assert(a < 0 ==> a % d == a + d);
    assert(b >= 0 ==> b % d == b);
    assert(b < 0 ==> b % d == b + d);
    assert(c >= 0 ==> c % d == c);
    assert(c < 0 ==> c % d == c + d);
    assert(t1 >= 0 ==> t1 % d == t1);
    assert(t1 < 0 ==> t1 % d == t1 + d);
    assert(t2 >= 0 ==> t2 % d == t2);
    assert(t2 < 0 ==> t2 % d == t2 + d);
}

/// `first_hit` finds a slot that fires, and only slots from `from` on.
pub proof fn lemma_first_hit_fires(ps: Seq<Preset>, prev: u32, now: u32, from: int)
    ensures
        match first_hit(ps, prev, now, from) {
            Some(i) => from <= i < ps.len() && 0 <= i && fires(ps[i], prev, now) && forall|j: int|
                from <= j < i ==> !fires(#[trigger] ps[j], prev, now),
            None => 0 <= from ==> forall|j: int| from <= j < ps.len() ==> !fires(#[trigger] ps[j], prev, now),
        },
    decreases ps.len() - from,
{
    if from < 0 || from >= ps.len() {
    } else if fires(ps[from], prev, now) {
    } else {
        lemma_first_hit_fires(ps, prev, now, from + 1);
    }
}

/// Well-formedness linking the core to the shared state: a ringing or snoozed
/// core knows which slot fired, and that slot exists.
pub open spec fn core_wf(c: AlarmCore, s: SharedView) -> bool {
    &&& (c.phase == Phase::Ringing || c.phase == Phase::Snoozed) ==> c.fired_idx is Some
    &&& c.fired_idx matches Some(i) ==> i < s.presets.len()
}

/// The starting core is well formed against any shared state.
pub proof fn lemma_initial_core_wf(snooze_secs: u32, now_ms: u64, s: SharedView)
    ensures
        core_wf(initial_core(snooze_secs, now_ms), s),
{
}

/// Every command keeps the core well formed and keeps the number of slots.
pub proof fn lemma_command_preserves_wf(c: AlarmCore, s: SharedView, cmd: Command, now_ms: u64)
    requires
        core_wf(c, s),
    ensures
        core_wf(command_next(c, s, cmd, now_ms).0, command_next(c, s, cmd, now_ms).1),
        command_next(c, s, cmd, now_ms).1.presets.len() == s.presets.len(),
{
}

/// Every tick keeps the core well formed and keeps the number of slots.
pub proof fn lemma_tick_preserves_wf(c: AlarmCore, s: SharedView, now: Option<u32>, now_ms: u64)
    requires
        core_wf(c, s),
    ensures
        core_wf(tick_next(c, s, now, now_ms).0, tick_next(c, s, now, now_ms).1),
        tick_next(c, s, now, now_ms).1.presets == s.presets,
{
    if let Some(secs) = now {
        lemma_first_hit_fires(s.presets, prev_or(c.prev_secs, secs), secs, 0);
    }
}

/// Dismiss is one-shot: dismissing a ringing or snoozed alarm (outside the
/// grace window) silences it and disables exactly the slot that fired.
pub proof fn lemma_dismiss_disables_fired_slot(c: AlarmCore, s: SharedView, now_ms: u64)
    requires
        core_wf(c, s),
        c.phase == Phase::Ringing || c.phase == Phase::Snoozed,
        !in_grace(c, now_ms),
    ensures
        ({
            let (c2, s2) = command_next(c, s, Command::Dismiss, now_ms);
            let i = c.fired_idx->0 as int;
            &&& c2.phase == Phase::Idle
            &&& c2.fired_idx is None
            &&& !s2.presets[i].enabled
            &&& s2.presets[i].secs == s.presets[i].secs
            &&& forall|j: int| 0 <= j < s.presets.len() && j != i ==> s2.presets[j] == s.presets[j]
        }),
{
}

/// The fire-time guard: during the grace window every button or snooze or
/// dismiss request leaves the core and the shared state as they were.
pub proof fn lemma_grace_ignores_input(c: AlarmCore, s: SharedView, cmd: Command, now_ms: u64)
    requires
        in_grace(c, now_ms),
        cmd == Command::Snooze || cmd == Command::ButtonShort || cmd == Command::Dismiss || cmd
            == Command::ButtonLong,
    ensures
        command_next(c, s, cmd, now_ms) == (c, s),
{
}

/// Firing is by edge crossing: from a quiet phase with a valid clock, the
/// tick rings exactly when some enabled slot's time was crossed since the
/// previous tick, and then remembers the first such slot; otherwise the
/// phase is Armed exactly when some slot is enabled.
pub proof fn lemma_tick_fires_on_crossing(c: AlarmCore, s: SharedView, secs: u32, now_ms: u64)
    requires
        c.phase == Phase::Syncing || c.phase == Phase::Idle || c.phase == Phase::Armed,
        s.presets.len() <= usize::MAX,
    ensures
        ({
            let c2 = tick_next(c, s, Some(secs), now_ms).0;
            let prev = prev_or(c.prev_secs, secs);
            &&& (c2.phase == Phase::Ringing) == (exists|i: int|
                0 <= i < s.presets.len() && fires(#[trigger] s.presets[i], prev, secs))
            &&& c2.phase == Phase::Ringing ==> (c2.fired_idx matches Some(i) && i < s.presets.len()
                && fires(s.presets[i as int], prev, secs) && c2.ring_start_ms == now_ms)
            &&& c2.phase != Phase::Ringing ==> (c2.phase == Phase::Armed) == any_enabled(s.presets)
            &&& c2.prev_secs == Some(secs)
        }),
{
    let prev = prev_or(c.prev_secs, secs);
    lemma_first_hit_fires(s.presets, prev, secs, 0);
    if let Some(i) = first_hit(s.presets, prev, secs, 0) {
        assert(fires(s.presets[i], prev, secs));
    }
}

/// A clock that has not moved fires nothing.
pub proof fn lemma_still_clock_never_fires(ps: Seq<Preset>, secs: u32)
    ensures
        first_hit(ps, secs, secs, 0) is None,
{
    lemma_first_hit_fires(ps, secs, secs, 0);
    if let Some(i) = first_hit(ps, secs, secs, 0) {
        assert(fires(ps[i], secs, secs));
    }
}

/// Snooze re-rings after the interval: snoozing at `t` and ticking later with
/// a valid clock gives Ringing once `snooze_secs` seconds have passed, and
/// keeps the alarm snoozed before that.
pub proof fn lemma_snooze_rings_again(
    c: AlarmCore,
    s: SharedView,
    t: u64,
    later: u64,
    secs: u32,
)
    requires
        c.phase == Phase::Ringing,
        !in_grace(c, t),
        snooze_fits(c, t),
    ensures
        ({
            let (c1, s1) = command_next(c, s, Command::Snooze, t);
            let c2 = tick_next(c1, s1, Some(secs), later).0;
            &&& c1.phase == Phase::Snoozed
            &&& c2.phase == (if later >= t + c.snooze_secs * 1000 {
                Phase::Ringing
            } else {
                Phase::Snoozed
            })
        }),
{
}

/// While the clock is unset the core waits in Syncing, whatever its phase.
pub proof fn lemma_unset_clock_syncs(c: AlarmCore, s: SharedView, now_ms: u64)
    ensures
        tick_next(c, s, None, now_ms).0.phase == Phase::Syncing,
        tick_next(c, s, None, now_ms).1.now_secs == 0,
{
}

/// Idle ticks are not material changes: once a quiet core has published its
/// phase, a further tick in which no enabled slot is crossed leaves the
/// version unchanged.
pub proof fn lemma_quiet_ticks_keep_version(
    c: AlarmCore,
    s: SharedView,
    a: u32,
    t1: u64,
    b: u32,
    t2: u64,
)
    requires
        c.phase == Phase::Syncing || c.phase == Phase::Idle || c.phase == Phase::Armed,
        first_hit(s.presets, prev_or(c.prev_secs, a), a, 0) is None,
        first_hit(s.presets, a, b, 0) is None,
    ensures
        ({
            let (c1, s1) = tick_next(c, s, Some(a), t1);
            let (c2, s2) = tick_next(c1, s1, Some(b), t2);
            &&& s2.version == s1.version
            &&& s2.phase == s1.phase
        }),
{
}

/// A whole run of the alarm worker: its rounds in order, each a batch of
/// commands, a clock reading and a millisecond time.
pub open spec fn worker_run(
    c: AlarmCore,
    s: SharedView,
    rounds: Seq<(Seq<(Command, u64)>, Option<u32>, u64)>,
) -> (AlarmCore, SharedView)
    decreases rounds.len(),
{
    if rounds.len() == 0 {
        (c, s)
    } else {
        let (c1, s1) = worker_run(c, s, rounds.drop_last());
        let r = rounds.last();
        worker_round(c1, s1, r.0, r.1, r.2)
    }
}

pub(crate) proof fn lemma_commands_keep_shape(c: AlarmCore, s: SharedView, cmds: Seq<(Command, u64)>)
    ensures
        apply_commands(c, s, cmds).1.presets.len() == s.presets.len(),
        apply_commands(c, s, cmds).1.snooze_secs == s.snooze_secs,
        apply_commands(c, s, cmds).1.version == s.version,
        apply_commands(c, s, cmds).0.snooze_secs == c.snooze_secs,
        apply_commands(c, s, cmds).0.published_phase == c.published_phase,
        core_wf(c, s) ==> core_wf(apply_commands(c, s, cmds).0, apply_commands(c, s, cmds).1),
    decreases cmds.len(),
{
    if cmds.len() > 0 {
        lemma_commands_keep_shape(c, s, cmds.drop_last());
        let (c1, s1) = apply_commands(c, s, cmds.drop_last());
        if core_wf(c, s) {
            lemma_command_preserves_wf(c1, s1, cmds.last().0, cmds.last().1);
        }
    }
}

/// The slot table keeps its shape over a whole run: whatever commands the
/// bus delivers and whatever the clock reads, the number of slots, the
/// snooze length and the core's well-formedness never change. Commands
/// only rewrite the time or enable flag of an existing slot.
pub proof fn lemma_run_keeps_slots(
    c: AlarmCore,
    s: SharedView,
    rounds: Seq<(Seq<(Command, u64)>, Option<u32>, u64)>,
)
    ensures
        worker_run(c, s, rounds).1.presets.len() == s.presets.len(),
        worker_run(c, s, rounds).1.snooze_secs == s.snooze_secs,
        worker_run(c, s, rounds).0.snooze_secs == c.snooze_secs,
        core_wf(c, s) ==> core_wf(worker_run(c, s, rounds).0, worker_run(c, s, rounds).1),
    decreases rounds.len(),
{
    if rounds.len() > 0 {
        lemma_run_keeps_slots(c, s, rounds.drop_last());
        let (c1, s1) = worker_run(c, s, rounds.drop_last());
        let r = rounds.last();
        lemma_commands_keep_shape(c1, s1, r.0);
        let (c2, s2) = apply_commands(c1, s1, r.0);
        if core_wf(c, s) {
            lemma_tick_preserves_wf(c2, s2, r.1, r.2);
        }
    }
}

/// Whether command `cmd`, applied at `now_ms`, writes the settings: it sets
/// an existing slot's time or enable flag, dismisses an alarm whose slot
/// exists (disabling it), or sets or flips the display.
pub open spec fn writes_settings(c: AlarmCore, s: SharedView, cmd: Command, now_ms: u64) -> bool {
    match cmd {
        Command::SetPresetEnabled { idx, enabled } => idx < s.presets.len(),
        Command::SetPresetTime { idx, secs } => idx < s.presets.len(),
        Command::Dismiss | Command::ButtonLong => {
            &&& (c.phase == Phase::Ringing || c.phase == Phase::Snoozed)
            &&& !in_grace(c, now_ms)
            &&& c.fired_idx matches Some(i) && i < s.presets.len()
        },
        Command::SetDisplay { on } => true,
        Command::ToggleDisplay => true,
        Command::Snooze | Command::ButtonShort => false,
    }
}

/// Whether some command of a batch writes the settings, judged in the state
/// the earlier commands of the batch left.
pub open spec fn batch_writes(c: AlarmCore, s: SharedView, cmds: Seq<(Command, u64)>) -> bool {
    exists|k: int|
        0 <= k < cmds.len() && #[trigger] writes_settings(
            apply_commands(c, s, cmds.take(k)).0,
            apply_commands(c, s, cmds.take(k)).1,
            cmds[k].0,
            cmds[k].1,
        )
}

proof fn lemma_batch_flag(c: AlarmCore, s: SharedView, cmds: Seq<(Command, u64)>)
    ensures
        apply_commands(c, s, cmds).0.settings_changed == (c.settings_changed || batch_writes(
            c,
            s,
            cmds,
        )),
    decreases cmds.len(),
{
    if cmds.len() > 0 {
        let n = cmds.len() - 1;
        let init = cmds.drop_last();
        lemma_batch_flag(c, s, init);
        assert(cmds.take(n) =~= init);
        assert forall|k: int| 0 <= k < n implies #[trigger] cmds.take(k) == init.take(k) && cmds[k]
            == init[k] by {
            assert(cmds.take(k) =~= init.take(k));
        }
        if batch_writes(c, s, cmds) {
            let k = choose|k: int|
                0 <= k < cmds.len() && #[trigger] writes_settings(
                    apply_commands(c, s, cmds.take(k)).0,
                    apply_commands(c, s, cmds.take(k)).1,
                    cmds[k].0,
                    cmds[k].1,
                );
            if k < n {
                assert(writes_settings(
                    apply_commands(c, s, init.take(k)).0,
                    apply_commands(c, s, init.take(k)).1,
                    init[k].0,
                    init[k].1,
                ));
            }
        }
        if batch_writes(c, s, init) {
            let k = choose|k: int|
                0 <= k < init.len() && #[trigger] writes_settings(
                    apply_commands(c, s, init.take(k)).0,
                    apply_commands(c, s, init.take(k)).1,
                    init[k].0,
                    init[k].1,
                );
            assert(writes_settings(
                apply_commands(c, s, cmds.take(k)).0,
                apply_commands(c, s, cmds.take(k)).1,
                cmds[k].0,
                cmds[k].1,
            ));
        }
        let (c1, s1) = apply_commands(c, s, init);
        if writes_settings(c1, s1, cmds[n].0, cmds[n].1) {
            assert(writes_settings(
                apply_commands(c, s, cmds.take(n)).0,
                apply_commands(c, s, cmds.take(n)).1,
                cmds[n].0,
                cmds[n].1,
            ));
        }
    }
}

/// When the version is bumped: over one round of the worker (the drained
/// commands, then a tick), the published version advances by one (wrapping)
/// exactly when the phase differs from the one published last round (or
/// none was) or some command of the batch wrote the settings (or a write
/// was still pending, which no round leaves behind); otherwise it stays,
/// whatever the clock did. The round leaves nothing pending for the next
/// one.
pub proof fn lemma_round_version(
    c: AlarmCore,
    s: SharedView,
    cmds: Seq<(Command, u64)>,
    now: Option<u32>,
    now_ms: u64,
)
    ensures
        ({
            let (c2, s2) = worker_round(c, s, cmds, now, now_ms);
            &&& s2.version == bumped(
                s.version,
                c.published_phase != Some(c2.phase) || c.settings_changed || batch_writes(
                    c,
                    s,
                    cmds,
                ),
            )
            &&& s2.phase == c2.phase
            &&& c2.published_phase == Some(c2.phase)
            &&& !c2.settings_changed
        }),
{
    lemma_batch_flag(c, s, cmds);
    lemma_commands_keep_shape(c, s, cmds);
}

/// Slot and display edits do what they ask and nothing else: enabling or
/// disabling slot `idx` sets exactly that slot's flag and keeps its time;
/// setting its time stores the time of day (modulo 24 h) and keeps its
/// flag; every other slot, the phase and the core's alarm state stay; an
/// index past the table changes nothing; the display commands set or flip
/// the display and leave the slots alone.
pub proof fn lemma_slot_edits(c: AlarmCore, s: SharedView, idx: usize, e: bool, secs: u32, on: bool, t: u64)
    ensures
        ({
            let (c1, s1) = command_next(c, s, Command::SetPresetEnabled { idx, enabled: e }, t);
            &&& s1.presets.len() == s.presets.len()
            &&& idx < s.presets.len() ==> s1.presets[idx as int] == (Preset {
                secs: s.presets[idx as int].secs,
                enabled: e,
            })
            &&& forall|j: int| 0 <= j < s.presets.len() && j != idx ==> s1.presets[j] == s.presets[j]
            &&& c1.phase == c.phase && c1.fired_idx == c.fired_idx
            &&& s1.display_on == s.display_on
            &&& idx >= s.presets.len() ==> (c1, s1) == (c, s)
        }),
        ({
            let (c1, s1) = command_next(c, s, Command::SetPresetTime { idx, secs }, t);
            &&& s1.presets.len() == s.presets.len()
            &&& idx < s.presets.len() ==> s1.presets[idx as int] == (Preset {
                secs: secs % 86400,
                enabled: s.presets[idx as int].enabled,
            })
            &&& forall|j: int| 0 <= j < s.presets.len() && j != idx ==> s1.presets[j] == s.presets[j]
            &&& c1.phase == c.phase && c1.fired_idx == c.fired_idx
            &&& idx >= s.presets.len() ==> (c1, s1) == (c, s)
        }),
        ({
            let (c1, s1) = command_next(c, s, Command::SetDisplay { on }, t);
            &&& s1.display_on == on && s1.presets == s.presets && c1.phase == c.phase
        }),
        ({
            let (c1, s1) = command_next(c, s, Command::ToggleDisplay, t);
            &&& s1.display_on == !s.display_on && s1.presets == s.presets && c1.phase == c.phase
        }),
{
}

/// Snooze silences a ringing alarm until `snooze_secs` later: outside the
/// grace window a ringing core becomes Snoozed with its end that far after
/// the request; in any other case a snooze request or short press changes
/// nothing.
pub proof fn lemma_snooze_command(c: AlarmCore, s: SharedView, short: bool, t: u64)
    requires
        snooze_fits(c, t),
    ensures
        ({
            let cmd = if short {
                Command::ButtonShort
            } else {
                Command::Snooze
            };
            let (c1, s1) = command_next(c, s, cmd, t);
            &&& s1 == s
            &&& (c.phase == Phase::Ringing && !in_grace(c, t)) ==> c1.phase == Phase::Snoozed
                && c1.snooze_end_ms == t + c.snooze_secs * 1000 && c1.fired_idx == c.fired_idx
            &&& !(c.phase == Phase::Ringing && !in_grace(c, t)) ==> c1 == c
        }),
{
}

/// A long press dismisses like Dismiss: outside the grace window a ringing or
/// snoozed alarm goes quiet and its slot is disabled, every other slot kept.
pub proof fn lemma_long_press_dismisses(c: AlarmCore, s: SharedView, now_ms: u64)
    requires
        core_wf(c, s),
        c.phase == Phase::Ringing || c.phase == Phase::Snoozed,
        !in_grace(c, now_ms),
    ensures
        ({
            let (c2, s2) = command_next(c, s, Command::ButtonLong, now_ms);
            let i = c.fired_idx->0 as int;
            &&& c2.phase == Phase::Idle
            &&& c2.fired_idx is None
            &&& s2.presets.len() == s.presets.len()
            &&& !s2.presets[i].enabled
            &&& s2.presets[i].secs == s.presets[i].secs
            &&& forall|j: int| 0 <= j < s.presets.len() && j != i ==> s2.presets[j] == s.presets[j]
        }),
{
}

/// Dismissing or long-pressing when nothing rings or is snoozed changes
/// nothing.
pub proof fn lemma_quiet_dismiss_ignored(c: AlarmCore, s: SharedView, long: bool, t: u64)
    requires
        c.phase != Phase::Ringing && c.phase != Phase::Snoozed,
    ensures
        command_next(c, s, if long { Command::ButtonLong } else { Command::Dismiss }, t) == (c, s),
{
}

} // verus!
