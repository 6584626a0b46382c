//! Alarm core of the labelled-preset design, with explicit arming.
//!
//! The owner of the core drains the command bus, feeds each command to
//! [`AlarmCore::apply_command`], then calls [`AlarmCore::tick`] with the local
//! wall-clock time (`None` until the clock is set) and publishes. Arm and
//! Disarm record the user's intent even while the clock is syncing, so the
//! request is applied when time becomes known; a fresh core wants to be armed.
//! While armed, the alarm rings when the local time crosses an enabled preset.

use vstd::prelude::*;

use crate::firmware::alarm::{crossed_spec, elapsed_ms, GRACE_MS};
use crate::state::{Command, CommandBus, Phase, Preset, Shared, SharedView};

verus! {

/// Seconds in a day; preset times are kept below this.
pub const DAY_SECS: u32 = 86400;

/// Did `target` fall within the half-open interval `(prev, now]` (mod 24 h)?
pub fn crossed(prev: u32, now: u32, target: u32) -> (r: bool)
    ensures
        r == crossed_spec(prev, now, target),
{
    if now >= prev {
        prev < target && target <= now
    } else {
        target > prev || target <= now
    }
}

/// The alarm core's private state between ticks.
#[derive(Debug, Clone, Copy)]
pub struct AlarmCore {
    pub phase: Phase,
    /// Local time seen at the previous valid tick.
    pub prev_secs: Option<u32>,
    /// When a snoozed alarm rings again (monotonic ms).
    pub snooze_end_ms: u64,
    /// When the current ringing started (monotonic ms).
    pub ring_start_ms: u64,
    /// Whether the user wants the alarm armed; applied when the clock syncs.
    pub desired_armed: bool,
    /// Last phase published to the shared state.
    pub published_phase: Option<Phase>,
    /// Snooze length, read from the settings when the core starts.
    pub snooze_secs: u32,
    /// Whether a command changed the settings since the last publish.
    pub settings_changed: bool,
}

/// The core as it starts: syncing, wanting to be armed, nothing published.
pub open spec fn initial_core(snooze_secs: u32, now_ms: u64) -> AlarmCore {
    AlarmCore {
        phase: Phase::Syncing,
        prev_secs: None,
        snooze_end_ms: now_ms,
        ring_start_ms: now_ms,
        desired_armed: true,
        published_phase: None,
        snooze_secs,
        settings_changed: false,
    }
}

/// Button input is ignored during the first moments of ringing.
pub open spec fn in_grace(c: AlarmCore, now_ms: u64) -> bool {
    c.phase == Phase::Ringing && elapsed_ms(now_ms, c.ring_start_ms) < GRACE_MS
}

/// Whether `now_ms` plus the snooze length is representable.
pub open spec fn snooze_fits(c: AlarmCore, now_ms: u64) -> bool {
    now_ms + c.snooze_secs * 1000 <= u64::MAX
}

/// The core after moving to `phase` with the arming intent `armed`.
pub open spec fn arm_to(c: AlarmCore, armed: bool, phase: Phase) -> AlarmCore {
    AlarmCore { desired_armed: armed, phase, ..c }
}

/// Effect of one command on the core and the shared state.
pub open spec fn command_next(c: AlarmCore, s: SharedView, cmd: Command, now_ms: u64) -> (
    AlarmCore,
    SharedView,
) {
    let ringing_or_snoozed = c.phase == Phase::Ringing || c.phase == Phase::Snoozed;
    match cmd {
        Command::Snooze | Command::ButtonShort => {
            if c.phase == Phase::Ringing && !in_grace(c, now_ms) {
                (
                    AlarmCore {
                        phase: Phase::Snoozed,
                        snooze_end_ms: (now_ms + c.snooze_secs * 1000) as u64,
                        ..c
                    },
                    s,
                )
            } else {
                (c, s)
            }
        },
        Command::Dismiss => {
            if ringing_or_snoozed {
                (arm_to(c, true, Phase::Armed), s)
            } else {
                (c, s)
            }
        },
        Command::ButtonLong => {
            if ringing_or_snoozed {
                if !in_grace(c, now_ms) {
                    (arm_to(c, true, Phase::Armed), s)
                } else {
                    (c, s)
                }
            } else if c.phase == Phase::Idle {
                (arm_to(c, true, Phase::Armed), s)
            } else if c.phase == Phase::Armed {
                (arm_to(c, false, Phase::Idle), s)
            } else {
                (c, s)
            }
        },
        Command::Arm => {
            if c.phase != Phase::Syncing {
                (arm_to(c, true, Phase::Armed), s)
            } else {
                (AlarmCore { desired_armed: true, ..c }, s)
            }
        },
        Command::Disarm => {
            if c.phase != Phase::Syncing {
                (arm_to(c, false, Phase::Idle), s)
            } else {
                (AlarmCore { desired_armed: false, ..c }, s)
            }
        },
        Command::SetPresetEnabled { idx, enabled } => {
            if idx < s.presets.len() {
                (
                    AlarmCore { settings_changed: true, ..c },
                    SharedView {
                        presets: s.presets.update(
                            idx as int,
                            Preset { enabled, ..s.presets[idx as int] },
                        ),
                        ..s
                    },
                )
            } else {
                (c, s)
            }
        },
        Command::SetPresetTime { idx, secs } => {
            if idx < s.presets.len() {
                (
                    AlarmCore { settings_changed: true, ..c },
                    SharedView {
                        presets: s.presets.update(
                            idx as int,
                            Preset { secs: secs % DAY_SECS, ..s.presets[idx as int] },
                        ),
                        ..s
                    },
                )
            } else {
                (c, s)
            }
        },
    }
}

/// Whether preset `p` fires when the clock moves from `prev` to `now`.
pub open spec fn fires(p: Preset, prev: u32, now: u32) -> bool {
    p.enabled && crossed_spec(prev, now, p.secs)
}

/// Whether any preset fires when the clock moves from `prev` to `now`.
pub open spec fn any_fires(ps: Seq<Preset>, prev: u32, now: u32) -> bool {
    exists|i: int| 0 <= i < ps.len() && fires(#[trigger] ps[i], prev, now)
}

/// The previous valid tick's time, or `now` on the first valid tick.
pub open spec fn prev_or(prev: Option<u32>, now: u32) -> u32 {
    match prev {
        Some(p) => p,
        None => now,
    }
}

/// Time-driven transition of the core for one tick.
pub open spec fn time_next(c: AlarmCore, ps: Seq<Preset>, now: Option<u32>, now_ms: u64) -> AlarmCore {
    match now {
        None => AlarmCore { phase: Phase::Syncing, ..c },
        Some(secs) => {
            let phase1 = if c.phase == Phase::Syncing {
                if c.desired_armed {
                    Phase::Armed
                } else {
                    Phase::Idle
                }
            } else {
                c.phase
            };
            let c1 = AlarmCore { phase: phase1, ..c };
            let c2 = if phase1 == Phase::Armed {
                if any_fires(ps, prev_or(c.prev_secs, secs), secs) {
                    AlarmCore { phase: Phase::Ringing, ring_start_ms: now_ms, ..c1 }
                } else {
                    c1
                }
            } else if phase1 == Phase::Snoozed && now_ms >= c.snooze_end_ms {
                AlarmCore { phase: Phase::Ringing, ring_start_ms: now_ms, ..c1 }
            } else {
                c1
            };
            AlarmCore { prev_secs: Some(secs), ..c2 }
        },
    }
}

/// The version after one publish.
pub open spec fn bumped(v: u64, bump: bool) -> u64 {
    if !bump {
        v
    } else if v == u64::MAX {
        0
    } else {
        (v + 1) as u64
    }
}

/// One tick: time-driven transitions, then publishing to the shared state.
pub open spec fn tick_next(c: AlarmCore, s: SharedView, now: Option<u32>, now_ms: u64) -> (
    AlarmCore,
    SharedView,
) {
    let c2 = time_next(c, s.presets, now, now_ms);
    let bump = c2.published_phase != Some(c2.phase) || c2.settings_changed;
    (
        AlarmCore { published_phase: Some(c2.phase), settings_changed: false, ..c2 },
        SharedView {
            phase: c2.phase,
            now_secs: match now {
                Some(x) => x,
                None => 0,
            },
            version: bumped(s.version, bump),
            ..s
        },
    )
}

/// Whether any preset fires when the clock moves from `prev` to `now`.
fn check_hit(ps: &Vec<Preset>, prev: u32, now: u32) -> (r: bool)
    ensures
        r == any_fires(ps@, prev, now),
{
    let mut i: usize = 0;
    while i < ps.len()
        invariant
            i <= ps@.len(),
            forall|j: int| 0 <= j < i ==> !fires(#[trigger] ps@[j], prev, now),
        decreases ps@.len() - i,
    {
        if ps[i].enabled && crossed(prev, now, ps[i].secs) {
            assert(fires(ps@[i as int], prev, now));
            return true;
        }
        i = i + 1;
    }
    false
}

/// The commands of one batch drained from the bus, each with the millisecond
/// clock at which it is applied, applied in order.
pub open spec fn apply_commands(c: AlarmCore, s: SharedView, cmds: Seq<(Command, u64)>) -> (
    AlarmCore,
    SharedView,
)
    decreases cmds.len(),
{
    if cmds.len() == 0 {
        (c, s)
    } else {
        let (c1, s1) = apply_commands(c, s, cmds.drop_last());
        command_next(c1, s1, cmds.last().0, cmds.last().1)
    }
}

/// One round of the alarm worker: the drained commands, then a tick with
/// the local time `now` at millisecond `now_ms`.
pub open spec fn worker_round(
    c: AlarmCore,
    s: SharedView,
    cmds: Seq<(Command, u64)>,
    now: Option<u32>,
    now_ms: u64,
) -> (AlarmCore, SharedView) {
    let (c1, s1) = apply_commands(c, s, cmds);
    tick_next(c1, s1, now, now_ms)
}

/// A batch of commands, each applied at the millisecond time `t`.
pub open spec fn at_time(cmds: Seq<Command>, t: u64) -> Seq<(Command, u64)> {
    cmds.map_values(|c: Command| (c, t))
}

proof fn lemma_commands_keep_shape(c: AlarmCore, s: SharedView, cmds: Seq<(Command, u64)>)
    ensures
        apply_commands(c, s, cmds).1.presets.len() == s.presets.len(),
        apply_commands(c, s, cmds).1.snooze_secs == s.snooze_secs,
        apply_commands(c, s, cmds).0.snooze_secs == c.snooze_secs,
    decreases cmds.len(),
{
    if cmds.len() > 0 {
        lemma_commands_keep_shape(c, s, cmds.drop_last());
    }
}

impl AlarmCore {
    /// A core starting now, syncing, with the snooze length from `shared`.
    pub fn new(shared: &Shared, now_ms: u64) -> (c: Self)
        ensures
            c == initial_core(shared.settings.snooze_secs, now_ms),
    {
        AlarmCore {
            phase: Phase::Syncing,
            prev_secs: None,
            snooze_end_ms: now_ms,
            ring_start_ms: now_ms,
            desired_armed: true,
            published_phase: None,
            snooze_secs: shared.settings.snooze_secs,
            settings_changed: false,
        }
    }

    /// Applies one command from the bus at monotonic time `now_ms`.
    pub fn apply_command(&mut self, shared: &mut Shared, cmd: Command, now_ms: u64)
        requires
            (cmd == Command::Snooze || cmd == Command::ButtonShort) && old(self).phase
                == Phase::Ringing ==> snooze_fits(*old(self), now_ms),
        ensures
            *final(self) == command_next(*old(self), old(shared)@, cmd, now_ms).0,
            final(shared)@ == command_next(*old(self), old(shared)@, cmd, now_ms).1,
    {
        let elapsed = if now_ms >= self.ring_start_ms {
            now_ms - self.ring_start_ms
        } else {
            0
        };
        let in_grace = self.phase == Phase::Ringing && elapsed < GRACE_MS;
        let ringing_or_snoozed = self.phase == Phase::Ringing || self.phase == Phase::Snoozed;
        match cmd {
            Command::Snooze | Command::ButtonShort => {
                if self.phase == Phase::Ringing && !in_grace {
                    self.phase = Phase::Snoozed;
                    self.snooze_end_ms = now_ms + (self.snooze_secs as u64) * 1000;
                }
            },
            Command::Dismiss => {
                if ringing_or_snoozed {
                    self.desired_armed = true;
                    self.phase = Phase::Armed;
                }
            },
            Command::ButtonLong => {
                if ringing_or_snoozed {
                    if !in_grace {
                        self.desired_armed = true;
                        self.phase = Phase::Armed;
                    }
                } else if self.phase == Phase::Idle {
                    self.desired_armed = true;
                    self.phase = Phase::Armed;
                } else if self.phase == Phase::Armed {
                    self.desired_armed = false;
                    self.phase = Phase::Idle;
                }
            },
            Command::Arm => {
                self.desired_armed = true;
                if self.phase != Phase::Syncing {
                    self.phase = Phase::Armed;
                }
            },
            Command::Disarm => {
                self.desired_armed = false;
                if self.phase != Phase::Syncing {
                    self.phase = Phase::Idle;
                }
            },
            Command::SetPresetEnabled { idx, enabled } => {
                if idx < shared.settings.presets.len() {
                    let label = shared.settings.presets[idx].label.clone();
                    let secs = shared.settings.presets[idx].secs;
                    shared.settings.presets.set(idx, Preset { label, secs, enabled });
                    self.settings_changed = true;
                }
            },
            Command::SetPresetTime { idx, secs } => {
                let secs = secs % DAY_SECS;
                if idx < shared.settings.presets.len() {
                    let label = shared.settings.presets[idx].label.clone();
                    let enabled = shared.settings.presets[idx].enabled;
                    shared.settings.presets.set(idx, Preset { label, secs, enabled });
                    self.settings_changed = true;
                }
            },
        }
        assert(shared@ =~= command_next(*old(self), old(shared)@, cmd, now_ms).1);
    }

    /// One tick of the core: time-driven transitions for the local time `now`
    /// (`None` while the clock is not set), then publishing to `shared`.
    pub fn tick(&mut self, shared: &mut Shared, now: Option<u32>, now_ms: u64)
        ensures
            *final(self) == tick_next(*old(self), old(shared)@, now, now_ms).0,
            final(shared)@ == tick_next(*old(self), old(shared)@, now, now_ms).1,
    {
        match now {
            None => {
                self.phase = Phase::Syncing;
            },
            Some(secs) => {
                if self.phase == Phase::Syncing {
                    self.phase = if self.desired_armed {
                        Phase::Armed
                    } else {
                        Phase::Idle
                    };
                }
                if self.phase == Phase::Armed {
                    let prev = match self.prev_secs {
                        Some(p) => p,
                        None => secs,
                    };
                    if check_hit(&shared.settings.presets, prev, secs) {
                        self.phase = Phase::Ringing;
                        self.ring_start_ms = now_ms;
                    }
                } else if self.phase == Phase::Snoozed && now_ms >= self.snooze_end_ms {
                    self.phase = Phase::Ringing;
                    self.ring_start_ms = now_ms;
                }
                self.prev_secs = Some(secs);
            },
        }
        let phase = self.phase;
        shared.phase = phase;
        shared.now_secs = match now {
            Some(x) => x,
            None => 0,
        };
        if self.published_phase != Some(phase) || self.settings_changed {
            shared.version = shared.version.wrapping_add(1);
        }
        self.published_phase = Some(phase);
        self.settings_changed = false;
        assert(shared@ =~= tick_next(*old(self), old(shared)@, now, now_ms).1);
    }
    /// One round of the alarm worker: takes every command pending on the
    /// bus, applies them oldest first at `now_ms`, then ticks with the local
    /// time `now`. No preset is added or removed and the snooze length stays.
    pub fn step(&mut self, shared: &mut Shared, bus: &mut CommandBus, now: Option<u32>, now_ms: u64)
        requires
            now_ms + old(self).snooze_secs * 1000 <= u64::MAX,
        ensures
            (*final(self), final(shared)@) == worker_round(
                *old(self),
                old(shared)@,
                at_time(old(bus)@, now_ms),
                now,
                now_ms,
            ),
            final(bus)@ == Seq::<Command>::empty(),
            final(shared)@.presets.len() == old(shared)@.presets.len(),
            final(shared)@.snooze_secs == old(shared)@.snooze_secs,
            final(self).snooze_secs == old(self).snooze_secs,
    {
        let cmds = bus.drain();
        let ghost c0 = *self;
        let ghost s0 = shared@;
        let ghost batch = at_time(cmds@, now_ms);
        let mut i: usize = 0;
        while i < cmds.len()
            invariant
                i <= cmds@.len(),
                batch == at_time(cmds@, now_ms),
                (*self, shared@) == apply_commands(c0, s0, batch.take(i as int)),
                self.snooze_secs == c0.snooze_secs,
                now_ms + c0.snooze_secs * 1000 <= u64::MAX,
            decreases cmds@.len() - i,
        {
            let cmd = cmds[i];
            self.apply_command(shared, cmd, now_ms);
            proof {
                assert(batch.take(i + 1).drop_last() =~= batch.take(i as int));
                assert(batch.take(i + 1).last() == (cmd, now_ms));
            }
            i = i + 1;
        }
        proof {
            assert(batch.take(cmds@.len() as int) =~= batch);
            lemma_commands_keep_shape(c0, s0, batch);
        }
        self.tick(shared, now, now_ms);
    }
}

} // verus!
