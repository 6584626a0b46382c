//! Alarm core: the single source of truth for the alarm state machine.
//!
//! The worker that owns the core drains the command bus, feeds each command to
//! [`AlarmCore::apply_command`], then calls [`AlarmCore::tick`] with the local
//! wall-clock time (or `None` while the clock is not yet set) and publishes.
//! Timing inside the core uses a monotonic millisecond counter supplied by the
//! caller, read fresh for every call.
//!
//! There is no explicit arm/disarm: the clock is [`Phase::Armed`] whenever any
//! slot is enabled, else [`Phase::Idle`]. Firing is by edge crossing: when the
//! local time crosses an enabled slot's time it rings. Dismiss disables the
//! slot that fired, so alarms are one-shot until re-enabled.

use vstd::prelude::*;

use crate::firmware::alarm_laws::{batch_writes, lemma_commands_keep_shape, lemma_round_version};
use crate::firmware::state::{Command, CommandBus, Phase, Preset, Shared, SharedView, DAY_SECS};

verus! {

/// Ignore button input for this long after ringing starts (fire-time guard).
pub const GRACE_MS: u64 = 1500;

/// Unix time below this (about 2023-11) means the clock has not been set yet.
pub const VALID_AFTER: i64 = 1_700_000_000;

/// Whether `target` lies in the half-open interval `(prev, now]`, taken around
/// midnight when `now < prev`.
pub open spec fn crossed_spec(prev: u32, now: u32, target: u32) -> bool {
    if now >= prev {
        prev < target && target <= now
    } else {
        target > prev || target <= now
    }
}

/// Did `target` fall within the half-open interval `(prev, now]` (mod 24 h)?
pub fn crossed(prev: u32, now: u32, target: u32) -> (r: bool)
    ensures
        r == crossed_spec(prev, now, target),
{
    if now >= prev {
        prev < target && target <= now
    } else {
        target > prev || target <= now
    }
}

/// Local seconds-since-midnight of a broken-down local time, or `None` while
/// the Unix time shows the clock has not been set.
pub open spec fn clock_reading_spec(unix: i64, hour: i32, min: i32, sec: i32) -> Option<u32> {
    if unix < VALID_AFTER {
        None
    } else {
        Some((hour * 3600 + min * 60 + sec) as u32)
    }
}

/// Turns the system clock reading (Unix seconds plus its local broken-down
/// hour, minute and second) into the core's notion of "now".
pub fn clock_reading(unix: i64, hour: i32, min: i32, sec: i32) -> (r: Option<u32>)
    requires
        0 <= hour < 24,
        0 <= min < 60,
        0 <= sec <= 60,
    ensures
        r == clock_reading_spec(unix, hour, min, sec),
{
    if unix < VALID_AFTER {
        None
    } else {
        Some((hour as u32) * 3600 + (min as u32) * 60 + sec as u32)
    }
}

/// The alarm core's private state between ticks.
#[derive(Debug, Clone, Copy)]
pub struct AlarmCore {
    pub phase: Phase,
    /// Local time seen at the previous valid tick.
    pub prev_secs: Option<u32>,
    /// When a snoozed alarm rings again (monotonic ms).
    pub snooze_end_ms: u64,
    /// When the current ringing started (monotonic ms).
    pub ring_start_ms: u64,
    /// Which slot is ringing or snoozed, so Dismiss can disable it.
    pub fired_idx: Option<usize>,
    /// Last phase published to the shared state.
    pub published_phase: Option<Phase>,
    /// Snooze length, read from the settings when the core starts.
    pub snooze_secs: u32,
    /// Whether a command changed the settings since the last publish.
    pub settings_changed: bool,
}

/// The core as it starts: syncing, nothing fired, nothing published.
pub open spec fn initial_core(snooze_secs: u32, now_ms: u64) -> AlarmCore {
    AlarmCore {
        phase: Phase::Syncing,
        prev_secs: None,
        snooze_end_ms: now_ms,
        ring_start_ms: now_ms,
        fired_idx: None,
        published_phase: None,
        snooze_secs,
        settings_changed: false,
    }
}

/// Milliseconds from `since` to `now_ms`, zero if the clock reads earlier.
pub open spec fn elapsed_ms(now_ms: u64, since: u64) -> int {
    if now_ms >= since {
        now_ms - since
    } else {
        0
    }
}

/// Button input is ignored during the first moments of ringing.
pub open spec fn in_grace(c: AlarmCore, now_ms: u64) -> bool {
    c.phase == Phase::Ringing && elapsed_ms(now_ms, c.ring_start_ms) < GRACE_MS
}

/// Whether `now_ms` plus the snooze length is representable.
pub open spec fn snooze_fits(c: AlarmCore, now_ms: u64) -> bool {
    now_ms + c.snooze_secs * 1000 <= u64::MAX
}

/// The slot table with slot `idx`'s enable flag set to `e`.
pub open spec fn with_enabled(ps: Seq<Preset>, idx: int, e: bool) -> Seq<Preset> {
    ps.update(idx, Preset { secs: ps[idx].secs, enabled: e })
}

/// The slot table with slot `idx`'s time set to `secs` (taken modulo a day).
pub open spec fn with_time(ps: Seq<Preset>, idx: int, secs: u32) -> Seq<Preset> {
    ps.update(idx, Preset { secs: secs % DAY_SECS, enabled: ps[idx].enabled })
}

/// Effect of one command on the core and the shared state.
pub open spec fn command_next(c: AlarmCore, s: SharedView, cmd: Command, now_ms: u64) -> (
    AlarmCore,
    SharedView,
) {
    match cmd {
        Command::Snooze | Command::ButtonShort => {
            if c.phase == Phase::Ringing && !in_grace(c, now_ms) {
                (
                    AlarmCore {
                        phase: Phase::Snoozed,
                        snooze_end_ms: (now_ms + c.snooze_secs * 1000) as u64,
                        ..c
                    },
                    s,
                )
            } else {
                (c, s)
            }
        },
        Command::Dismiss | Command::ButtonLong => {
            if (c.phase == Phase::Ringing || c.phase == Phase::Snoozed) && !in_grace(c, now_ms) {
                match c.fired_idx {
                    Some(i) => {
                        if i < s.presets.len() {
                            (
                                AlarmCore {
                                    phase: Phase::Idle,
                                    fired_idx: None,
                                    settings_changed: true,
                                    ..c
                                },
                                SharedView {
                                    presets: with_enabled(s.presets, i as int, false),
                                    ..s
                                },
                            )
                        } else {
                            (AlarmCore { phase: Phase::Idle, fired_idx: None, ..c }, s)
                        }
                    },
                    None => (AlarmCore { phase: Phase::Idle, ..c }, s),
                }
            } else {
                (c, s)
            }
        },
        Command::SetPresetEnabled { idx, enabled } => {
            if idx < s.presets.len() {
                (
                    AlarmCore { settings_changed: true, ..c },
                    SharedView { presets: with_enabled(s.presets, idx as int, enabled), ..s },
                )
            } else {
                (c, s)
            }
        },
        Command::SetPresetTime { idx, secs } => {
            if idx < s.presets.len() {
                (
                    AlarmCore { settings_changed: true, ..c },
                    SharedView { presets: with_time(s.presets, idx as int, secs), ..s },
                )
            } else {
                (c, s)
            }
        },
        Command::SetDisplay { on } => (
            AlarmCore { settings_changed: true, ..c },
            SharedView { display_on: on, ..s },
        ),
        Command::ToggleDisplay => (
            AlarmCore { settings_changed: true, ..c },
            SharedView { display_on: !s.display_on, ..s },
        ),
    }
}

/// Whether slot `p` fires when the clock moves from `prev` to `now`.
pub open spec fn fires(p: Preset, prev: u32, now: u32) -> bool {
    p.enabled && crossed_spec(prev, now, p.secs)
}

/// The first slot at or after `from` that fires when the clock moves from
/// `prev` to `now`.
pub open spec fn first_hit(ps: Seq<Preset>, prev: u32, now: u32, from: int) -> Option<int>
    decreases ps.len() - from,
{
    if from < 0 || from >= ps.len() {
        None
    } else if fires(ps[from], prev, now) {
        Some(from)
    } else {
        first_hit(ps, prev, now, from + 1)
    }
}

/// Whether any slot is enabled.
pub open spec fn any_enabled(ps: Seq<Preset>) -> bool {
    exists|i: int| 0 <= i < ps.len() && #[trigger] ps[i].enabled
}

/// The previous valid tick's time, or `now` on the first valid tick.
pub open spec fn prev_or(prev: Option<u32>, now: u32) -> u32 {
    match prev {
        Some(p) => p,
        None => now,
    }
}

/// Time-driven transition of the core for one tick.
pub open spec fn time_next(c: AlarmCore, ps: Seq<Preset>, now: Option<u32>, now_ms: u64) -> AlarmCore {
    match now {
        None => AlarmCore { phase: Phase::Syncing, ..c },
        Some(secs) => {
            let c2 = match c.phase {
                Phase::Syncing | Phase::Idle | Phase::Armed => {
                    match first_hit(ps, prev_or(c.prev_secs, secs), secs, 0) {
                        Some(i) => AlarmCore {
                            phase: Phase::Ringing,
                            ring_start_ms: now_ms,
                            fired_idx: Some(i as usize),
                            ..c
                        },
                        None => AlarmCore {
                            phase: if any_enabled(ps) {
                                Phase::Armed
                            } else {
                                Phase::Idle
                            },
                            ..c
                        },
                    }
                },
                Phase::Snoozed => {
                    if now_ms >= c.snooze_end_ms {
                        AlarmCore { phase: Phase::Ringing, ring_start_ms: now_ms, ..c }
                    } else {
                        c
                    }
                },
                Phase::Ringing => c,
            };
            AlarmCore { prev_secs: Some(secs), ..c2 }
        },
    }
}

/// The version after one publish.
pub open spec fn bumped(v: u64, bump: bool) -> u64 {
    if !bump {
        v
    } else if v == u64::MAX {
        0
    } else {
        (v + 1) as u64
    }
}

/// One tick: time-driven transitions, then publishing to the shared state.
/// The version is bumped only when the phase differs from the last published
/// one or a command changed the settings.
pub open spec fn tick_next(c: AlarmCore, s: SharedView, now: Option<u32>, now_ms: u64) -> (
    AlarmCore,
    SharedView,
) {
    let c2 = time_next(c, s.presets, now, now_ms);
    let bump = c2.published_phase != Some(c2.phase) || c2.settings_changed;
    (
        AlarmCore { published_phase: Some(c2.phase), settings_changed: false, ..c2 },
        SharedView {
            phase: c2.phase,
            now_secs: match now {
                Some(x) => x,
                None => 0,
            },
            version: bumped(s.version, bump),
            ..s
        },
    )
}

/// The commands of one batch drained from the bus, each with the millisecond
/// clock at which it is applied, applied in order.
pub open spec fn apply_commands(c: AlarmCore, s: SharedView, cmds: Seq<(Command, u64)>) -> (
    AlarmCore,
    SharedView,
)
    decreases cmds.len(),
{
    if cmds.len() == 0 {
        (c, s)
    } else {
        let (c1, s1) = apply_commands(c, s, cmds.drop_last());
        command_next(c1, s1, cmds.last().0, cmds.last().1)
    }
}

/// One round of the alarm worker: the drained commands, then a tick with
/// the local time `now` at millisecond `now_ms`.
pub open spec fn worker_round(
    c: AlarmCore,
    s: SharedView,
    cmds: Seq<(Command, u64)>,
    now: Option<u32>,
    now_ms: u64,
) -> (AlarmCore, SharedView) {
    let (c1, s1) = apply_commands(c, s, cmds);
    tick_next(c1, s1, now, now_ms)
}

/// A batch of commands, each applied at the millisecond time `t`.
pub open spec fn at_time(cmds: Seq<Command>, t: u64) -> Seq<(Command, u64)> {
    cmds.map_values(|c: Command| (c, t))
}

/// The first slot that fires when the clock moves from `prev` to `now`.
fn find_hit(ps: &Vec<Preset>, prev: u32, now: u32) -> (r: Option<usize>)
    ensures
        match r {
            Some(i) => first_hit(ps@, prev, now, 0) == Some(i as int),
            None => first_hit(ps@, prev, now, 0) is None,
        },
{
    let mut i: usize = 0;
    while i < ps.len()
        invariant
            i <= ps@.len(),
            first_hit(ps@, prev, now, 0) == first_hit(ps@, prev, now, i as int),
        decreases ps@.len() - i,
    {
        let p = ps[i];
        if p.enabled && crossed(prev, now, p.secs) {
            return Some(i);
        }
        i = i + 1;
    }
    None
}

/// Whether any slot is enabled.
fn has_enabled(ps: &Vec<Preset>) -> (r: bool)
    ensures
        r == any_enabled(ps@),
{
    let mut i: usize = 0;
    while i < ps.len()
        invariant
            i <= ps@.len(),
            forall|j: int| 0 <= j < i ==> !(#[trigger] ps@[j]).enabled,
        decreases ps@.len() - i,
    {
        if ps[i].enabled {
            assert(ps@[i as int].enabled);
            return true;
        }
        i = i + 1;
    }
    false
}

impl AlarmCore {
    /// A core starting now, syncing, with the snooze length from `shared`.
    pub fn new(shared: &Shared, now_ms: u64) -> (c: Self)
        ensures
            c == initial_core(shared.settings.snooze_secs, now_ms),
    {
        AlarmCore {
            phase: Phase::Syncing,
            prev_secs: None,
            snooze_end_ms: now_ms,
            ring_start_ms: now_ms,
            fired_idx: None,
            published_phase: None,
            snooze_secs: shared.settings.snooze_secs,
            settings_changed: false,
        }
    }

    /// Applies one command from the bus at monotonic time `now_ms`.
    pub fn apply_command(&mut self, shared: &mut Shared, cmd: Command, now_ms: u64)
        requires
            (cmd == Command::Snooze || cmd == Command::ButtonShort) && old(self).phase
                == Phase::Ringing ==> snooze_fits(*old(self), now_ms),
        ensures
            *final(self) == command_next(*old(self), old(shared)@, cmd, now_ms).0,
            final(shared)@ == command_next(*old(self), old(shared)@, cmd, now_ms).1,
    {
        let elapsed = if now_ms >= self.ring_start_ms {
            now_ms - self.ring_start_ms
        } else {
            0
        };
        let in_grace = self.phase == Phase::Ringing && elapsed < GRACE_MS;
        match cmd {
            Command::Snooze | Command::ButtonShort => {
                if self.phase == Phase::Ringing && !in_grace {
                    self.phase = Phase::Snoozed;
                    self.snooze_end_ms = now_ms + (self.snooze_secs as u64) * 1000;
                }
            },
            Command::Dismiss | Command::ButtonLong => {
                if (self.phase == Phase::Ringing || self.phase == Phase::Snoozed) && !in_grace {
                    if let Some(idx) = self.fired_idx {
                        self.fired_idx = None;
                        if idx < shared.settings.presets.len() {
                            let p = shared.settings.presets[idx];
                            shared.settings.presets.set(idx, Preset { secs: p.secs, enabled: false });
                            self.settings_changed = true;
                        }
                    }
                    self.phase = Phase::Idle;
                }
            },
            Command::SetPresetEnabled { idx, enabled } => {
                if idx < shared.settings.presets.len() {
                    let p = shared.settings.presets[idx];
                    shared.settings.presets.set(idx, Preset { secs: p.secs, enabled });
                    self.settings_changed = true;
                }
            },
            Command::SetPresetTime { idx, secs } => {
                let secs = secs % DAY_SECS;
                if idx < shared.settings.presets.len() {
                    let p = shared.settings.presets[idx];
                    shared.settings.presets.set(idx, Preset { secs, enabled: p.enabled });
                    self.settings_changed = true;
                }
            },
            Command::SetDisplay { on } => {
                shared.display_on = on;
                self.settings_changed = true;
            },
            Command::ToggleDisplay => {
                shared.display_on = !shared.display_on;
                self.settings_changed = true;
            },
        }
        assert(shared@ =~= command_next(*old(self), old(shared)@, cmd, now_ms).1);
    }

    /// One tick of the core: time-driven transitions for the local time `now`
    /// (`None` while the clock is not set), then publishing to `shared`.
    pub fn tick(&mut self, shared: &mut Shared, now: Option<u32>, now_ms: u64)
        ensures
            *final(self) == tick_next(*old(self), old(shared)@, now, now_ms).0,
            final(shared)@ == tick_next(*old(self), old(shared)@, now, now_ms).1,
    {
        match now {
            None => {
                self.phase = Phase::Syncing;
            },
            Some(secs) => {
                let any = has_enabled(&shared.settings.presets);
                match self.phase {
                    Phase::Syncing | Phase::Idle | Phase::Armed => {
                        let prev = match self.prev_secs {
                            Some(p) => p,
                            None => secs,
                        };
                        match find_hit(&shared.settings.presets, prev, secs) {
                            Some(idx) => {
                                self.phase = Phase::Ringing;
                                self.ring_start_ms = now_ms;
                                self.fired_idx = Some(idx);
                            },
                            None => {
                                self.phase = if any {
                                    Phase::Armed
                                } else {
                                    Phase::Idle
                                };
                            },
                        }
                    },
                    Phase::Snoozed => {
                        if now_ms >= self.snooze_end_ms {
                            self.phase = Phase::Ringing;
                            self.ring_start_ms = now_ms;
                        }
                    },
                    Phase::Ringing => {},
                }
                self.prev_secs = Some(secs);
            },
        }
        let phase = self.phase;
        shared.phase = phase;
        shared.now_secs = match now {
            Some(x) => x,
            None => 0,
        };
        if self.published_phase != Some(phase) || self.settings_changed {
            shared.version = shared.version.wrapping_add(1);
        }
        self.published_phase = Some(phase);
        self.settings_changed = false;
        assert(shared@ =~= tick_next(*old(self), old(shared)@, now, now_ms).1);
    }
    /// One round of the alarm worker: takes every command pending on the
    /// bus, applies them oldest first at `now_ms`, then ticks with the local
    /// time `now`. The slot table keeps its shape, and the version advances
    /// exactly when the published phase changes or the settings were
    /// written.
    pub fn step(&mut self, shared: &mut Shared, bus: &mut CommandBus, now: Option<u32>, now_ms: u64)
        requires
            now_ms + old(self).snooze_secs * 1000 <= u64::MAX,
        ensures
            (*final(self), final(shared)@) == worker_round(
                *old(self),
                old(shared)@,
                at_time(old(bus)@, now_ms),
                now,
                now_ms,
            ),
            final(bus)@ == Seq::<Command>::empty(),
            final(shared)@.presets.len() == old(shared)@.presets.len(),
            final(shared)@.snooze_secs == old(shared)@.snooze_secs,
            final(self).snooze_secs == old(self).snooze_secs,
            final(shared)@.version == bumped(
                old(shared)@.version,
                old(self).published_phase != Some(final(self).phase) || old(self).settings_changed
                    || batch_writes(*old(self), old(shared)@, at_time(old(bus)@, now_ms)),
            ),
            final(shared)@.phase == final(self).phase,
            !final(self).settings_changed,
    {
        let cmds = bus.drain();
        let ghost c0 = *self;
        let ghost s0 = shared@;
        let ghost batch = at_time(cmds@, now_ms);
        let mut i: usize = 0;
        while i < cmds.len()
            invariant
                i <= cmds@.len(),
                batch == at_time(cmds@, now_ms),
                (*self, shared@) == apply_commands(c0, s0, batch.take(i as int)),
                self.snooze_secs == c0.snooze_secs,
                now_ms + c0.snooze_secs * 1000 <= u64::MAX,
            decreases cmds@.len() - i,
        {
            let cmd = cmds[i];
            self.apply_command(shared, cmd, now_ms);
            proof {
                assert(batch.take(i + 1).drop_last() =~= batch.take(i as int));
                assert(batch.take(i + 1).last() == (cmd, now_ms));
            }
            i = i + 1;
        }
        proof {
            assert(batch.take(cmds@.len() as int) =~= batch);
            lemma_commands_keep_shape(c0, s0, batch);
            lemma_round_version(c0, s0, batch, now, now_ms);
        }
        self.tick(shared, now, now_ms);
    }
}

} // verus!
