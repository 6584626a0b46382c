//! Shared device state and the transport-agnostic command bus.
//!
//! The alarm core ([`crate::firmware::alarm`]) is the single source of truth
//! and the sole writer of [`Shared`]. Every input transport (button, REST,
//! MQTT) pushes the same [`Command`]s onto the [`CommandBus`]; the core drains
//! them, runs the state machine and publishes the result for readers.

use std::collections::VecDeque;
use vstd::prelude::*;

use crate::text::{hms, hms_string};

verus! {

/// Runtime phase of the alarm state machine.
#[derive(Debug, Clone, Copy, PartialEq, Eq, Structural)]
pub enum Phase {
    /// Waiting for the clock to sync before any alarm can be trusted.
    Syncing,
    /// No alarm enabled; quiet.
    Idle,
    /// At least one alarm enabled; watching for its time.
    Armed,
    /// Alarm firing.
    Ringing,
    /// Snoozed; re-rings after the snooze interval.
    Snoozed,
}

/// Number of alarm slots in the fixed pool.
pub const NUM_PRESETS: usize = 8;

/// Seconds in a day; preset times are kept below this.
pub const DAY_SECS: u32 = 86400;

/// One alarm slot. Its index in [`Settings::presets`] is its stable id.
#[derive(Debug, Clone, Copy, PartialEq, Eq, Structural)]
pub struct Preset {
    /// Fire time, seconds since midnight.
    pub secs: u32,
    pub enabled: bool,
}

impl Preset {
    pub fn new(secs: u32, enabled: bool) -> (p: Self)
        ensures
            p == (Preset { secs, enabled }),
    {
        Preset { secs, enabled }
    }
}

/// User-configurable settings.
#[derive(Debug, Clone)]
pub struct Settings {
    /// Fixed pool of alarm slots (mutated by all front-ends; never diverge).
    pub presets: Vec<Preset>,
    /// Snooze length, seconds.
    pub snooze_secs: u32,
}

/// The factory slot table: slot 0 on at 07:00, the other seven off at midnight.
pub open spec fn default_presets() -> Seq<Preset> {
    Seq::new(NUM_PRESETS as nat, |i: int| if i == 0 {
        Preset { secs: 25200, enabled: true }
    } else {
        Preset { secs: 0, enabled: false }
    })
}

impl Default for Settings {
    fn default() -> (s: Self)
        ensures
            s.presets@ == default_presets(),
            s.snooze_secs == 10,
    {
        let mut presets: Vec<Preset> = Vec::new();
        let mut i: usize = 0;
        while i < NUM_PRESETS
            invariant
                i <= NUM_PRESETS,
                presets@ == default_presets().take(i as int),
            decreases NUM_PRESETS - i,
        {
            if i == 0 {
                presets.push(Preset::new(7 * 3600, true));
            } else {
                presets.push(Preset::new(0, false));
            }
            assert(default_presets().take(i + 1) =~= default_presets().take(i as int).push(
                default_presets()[i as int],
            ));
            i = i + 1;
        }
        assert(default_presets().take(NUM_PRESETS as int) =~= default_presets());
        Settings { presets, snooze_secs: 10 }
    }
}

/// Abstract contents of a [`Shared`] record.
#[verifier::ext_equal]
pub struct SharedView {
    pub phase: Phase,
    pub presets: Seq<Preset>,
    pub snooze_secs: u32,
    pub display_on: bool,
    pub now_secs: u32,
    pub version: u64,
}

/// The single shared state object; the alarm core is its sole writer.
#[derive(Debug, Clone)]
pub struct Shared {
    pub phase: Phase,
    pub settings: Settings,
    /// Master switch for all light-emitting components.
    pub display_on: bool,
    /// Time of day (seconds since midnight) as the core currently sees it.
    pub now_secs: u32,
    /// Bumped on every material change, not on the per-second tick.
    pub version: u64,
}

impl View for Shared {
    type V = SharedView;

    open spec fn view(&self) -> SharedView {
        SharedView {
            phase: self.phase,
            presets: self.settings.presets@,
            snooze_secs: self.settings.snooze_secs,
            display_on: self.display_on,
            now_secs: self.now_secs,
            version: self.version,
        }
    }
}

/// The state a fresh device starts from.
pub open spec fn initial_shared() -> SharedView {
    SharedView {
        phase: Phase::Idle,
        presets: default_presets(),
        snooze_secs: 10,
        display_on: true,
        now_secs: 0,
        version: 0,
    }
}

impl Default for Shared {
    fn default() -> (s: Self)
        ensures
            s@ == initial_shared(),
    {
        Shared {
            phase: Phase::Idle,
            settings: Settings::default(),
            display_on: true,
            now_secs: 0,
            version: 0,
        }
    }
}

/// A fresh shared state (the factory settings, idle, display on).
pub fn new_shared() -> (s: Shared)
    ensures
        s@ == initial_shared(),
{
    Shared::default()
}

/// Returns whether `shared.version` differs from the one recorded in `last`,
/// and records the current version in `last`.
pub fn version_advanced(shared: &Shared, last: &mut Option<u64>) -> (advanced: bool)
    ensures
        advanced == (*old(last) != Some(shared.version)),
        *final(last) == Some(shared.version),
{
    let version = shared.version;
    if *last != Some(version) {
        *last = Some(version);
        true
    } else {
        false
    }
}

/// Commands submitted into the alarm core by any input transport.
#[derive(Debug, Clone, Copy, PartialEq, Eq, Structural)]
pub enum Command {
    /// Quick button press (snooze while ringing).
    ButtonShort,
    /// Sustained button hold (dismiss while ringing/snoozed).
    ButtonLong,
    Snooze,
    Dismiss,
    SetPresetEnabled { idx: usize, enabled: bool },
    SetPresetTime { idx: usize, secs: u32 },
    /// Turn all light-emitting components on/off.
    SetDisplay { on: bool },
    /// Flip the display on/off.
    ToggleDisplay,
}

/// FIFO of pending commands.
pub struct CommandBus {
    queue: VecDeque<Command>,
}

impl View for CommandBus {
    type V = Seq<Command>;

    closed spec fn view(&self) -> Seq<Command> {
        self.queue@
    }
}

/// An empty command bus.
pub fn new_bus() -> (bus: CommandBus)
    ensures
        bus@ == Seq::<Command>::empty(),
{
    CommandBus { queue: VecDeque::new() }
}

/// Pushes a command onto the bus.
pub fn submit(bus: &mut CommandBus, cmd: Command)
    ensures
        final(bus)@ == old(bus)@.push(cmd),
{
    bus.queue.push_back(cmd);
}

impl CommandBus {
    /// Takes every pending command, oldest first, leaving the bus empty.
    pub fn drain(&mut self) -> (cmds: Vec<Command>)
        ensures
            cmds@ == old(self)@,
            final(self)@ == Seq::<Command>::empty(),
    {
        let mut cmds: Vec<Command> = Vec::new();
        let ghost all = self@;
        while self.queue.len() > 0
            invariant
                cmds@ + self@ == all,
            decreases self@.len(),
        {
            match self.queue.pop_front() {
                Some(c) => {
                    cmds.push(c);
                    assert(cmds@ + self@ =~= all);
                },
                None => {},
            }
        }
        assert(self@ =~= Seq::<Command>::empty());
        assert(cmds@ + self@ =~= cmds@);
        cmds
    }
}

/// Formats seconds-since-midnight as `HH:MM:SS`.
pub fn fmt_hms(secs: u32) -> (s: String)
    ensures
        s@ == hms(secs as nat),
{
    hms_string(secs)
}

/// Lowercase phase name for JSON and logs.
pub open spec fn phase_name(p: Phase) -> Seq<char> {
    match p {
        Phase::Syncing => "syncing"@,
        Phase::Idle => "idle"@,
        Phase::Armed => "armed"@,
        Phase::Ringing => "ringing"@,
        Phase::Snoozed => "snoozed"@,
    }
}

/// Lowercase phase name for JSON and logs.
pub fn phase_str(p: Phase) -> (s: &'static str)
    ensures
        s@ == phase_name(p),
{
    match p {
        Phase::Syncing => "syncing",
        Phase::Idle => "idle",
        Phase::Armed => "armed",
        Phase::Ringing => "ringing",
        Phase::Snoozed => "snoozed",
    }
}

} // verus!
