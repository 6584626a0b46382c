//! Shared device state and the transport-agnostic command bus of the
//! labelled-preset core ([`crate::alarm`]), which the MQTT and REST front-ends
//! ([`crate::mqtt`], [`crate::net`]) drive.
//!
//! The alarm core is the single source of truth and the sole writer of
//! [`Shared`]. Every input transport pushes the same [`Command`]s onto the
//! [`CommandBus`]; the core drains them, runs the state machine, and publishes
//! the result for readers.

use std::collections::VecDeque;
use vstd::prelude::*;

use crate::text::{hms, hms_string};

verus! {

/// Runtime phase of the alarm state machine.
#[derive(Debug, Clone, Copy, PartialEq, Eq, Structural)]
pub enum Phase {
    /// Waiting for the clock to sync before any alarm can be trusted.
    Syncing,
    /// Disarmed and quiet.
    Idle,
    /// Armed, watching enabled presets.
    Armed,
    /// Alarm firing.
    Ringing,
    /// Snoozed; re-rings after the snooze interval.
    Snoozed,
}

/// One alarm preset.
#[derive(Debug, Clone)]
pub struct Preset {
    pub label: String,
    /// Fire time, seconds since midnight.
    pub secs: u32,
    pub enabled: bool,
}

impl Preset {
    pub fn new(label: &str, secs: u32, enabled: bool) -> (p: Self)
        ensures
            p.label@ == label@,
            p.secs == secs,
            p.enabled == enabled,
    {
        Preset { label: label.to_owned(), secs, enabled }
    }
}

/// User-configurable settings.
#[derive(Debug, Clone)]
pub struct Settings {
    /// Alarm presets (mutated by all front-ends; never diverge).
    pub presets: Vec<Preset>,
    /// Snooze length, seconds.
    pub snooze_secs: u32,
}

/// The factory presets: "Wake" at 07:00 on, "Weekend" at 09:00 and "Nap" at
/// 13:00 off.
pub open spec fn is_default_presets(ps: Seq<Preset>) -> bool {
    &&& ps.len() == 3
    &&& ps[0].label@ == "Wake"@ && ps[0].secs == 25200 && ps[0].enabled
    &&& ps[1].label@ == "Weekend"@ && ps[1].secs == 32400 && !ps[1].enabled
    &&& ps[2].label@ == "Nap"@ && ps[2].secs == 46800 && !ps[2].enabled
}

impl Default for Settings {
    fn default() -> (s: Self)
        ensures
            is_default_presets(s.presets@),
            s.snooze_secs == 10,
    {
        let mut presets: Vec<Preset> = Vec::new();
        presets.push(Preset::new("Wake", 7 * 3600, true));
        presets.push(Preset::new("Weekend", 9 * 3600, false));
        presets.push(Preset::new("Nap", 13 * 3600, false));
        Settings { presets, snooze_secs: 10 }
    }
}

/// Abstract contents of a [`Shared`] record.
#[verifier::ext_equal]
pub struct SharedView {
    pub phase: Phase,
    pub presets: Seq<Preset>,
    pub snooze_secs: u32,
    pub now_secs: u32,
    pub version: u64,
}

/// The single shared state object; the alarm core is its sole writer.
#[derive(Debug, Clone)]
pub struct Shared {
    pub phase: Phase,
    pub settings: Settings,
    /// Time of day (seconds since midnight) as the core currently sees it.
    pub now_secs: u32,
    /// Bumped on every material change (phase or settings).
    pub version: u64,
}

impl View for Shared {
    type V = SharedView;

    open spec fn view(&self) -> SharedView {
        SharedView {
            phase: self.phase,
            presets: self.settings.presets@,
            snooze_secs: self.settings.snooze_secs,
            now_secs: self.now_secs,
            version: self.version,
        }
    }
}

impl Default for Shared {
    fn default() -> (s: Self)
        ensures
            s.phase == Phase::Idle,
            is_default_presets(s.settings.presets@),
            s.settings.snooze_secs == 10,
            s.now_secs == 0,
            s.version == 0,
    {
        Shared { phase: Phase::Idle, settings: Settings::default(), now_secs: 0, version: 0 }
    }
}

/// A fresh shared state: idle, factory presets.
pub fn new_shared() -> (s: Shared)
    ensures
        s.phase == Phase::Idle,
        is_default_presets(s.settings.presets@),
        s.settings.snooze_secs == 10,
        s.now_secs == 0,
        s.version == 0,
{
    Shared::default()
}

/// Commands submitted into the alarm core by any input transport.
#[derive(Debug, Clone, Copy, PartialEq, Eq, Structural)]
pub enum Command {
    /// Quick button press.
    ButtonShort,
    /// Sustained button hold.
    ButtonLong,
    Arm,
    Disarm,
    Snooze,
    Dismiss,
    SetPresetEnabled { idx: usize, enabled: bool },
    SetPresetTime { idx: usize, secs: u32 },
}

/// FIFO of pending commands.
pub struct CommandBus {
    queue: VecDeque<Command>,
}

impl View for CommandBus {
    type V = Seq<Command>;

    closed spec fn view(&self) -> Seq<Command> {
        self.queue@
    }
}

/// An empty command bus.
pub fn new_bus() -> (bus: CommandBus)
    ensures
        bus@ == Seq::<Command>::empty(),
{
    CommandBus { queue: VecDeque::new() }
}

/// Pushes a command onto the bus.
pub fn submit(bus: &mut CommandBus, cmd: Command)
    ensures
        final(bus)@ == old(bus)@.push(cmd),
{
    bus.queue.push_back(cmd);
}

impl CommandBus {
    /// Takes every pending command, oldest first, leaving the bus empty.
    pub fn drain(&mut self) -> (cmds: Vec<Command>)
        ensures
            cmds@ == old(self)@,
            final(self)@ == Seq::<Command>::empty(),
    {
        let mut cmds: Vec<Command> = Vec::new();
        let ghost all = self@;
        while self.queue.len() > 0
            invariant
                cmds@ + self@ == all,
            decreases self@.len(),
        {
            match self.queue.pop_front() {
                Some(c) => {
                    cmds.push(c);
                    assert(cmds@ + self@ =~= all);
                },
                None => {},
            }
        }
        assert(self@ =~= Seq::<Command>::empty());
        assert(cmds@ + self@ =~= cmds@);
        cmds
    }
}

/// Formats seconds-since-midnight as `HH:MM:SS`.
pub fn fmt_hms(secs: u32) -> (s: String)
    ensures
        s@ == hms(secs as nat),
{
    hms_string(secs)
}

/// Lowercase phase name for JSON and logs.
pub open spec fn phase_name(p: Phase) -> Seq<char> {
    match p {
        Phase::Syncing => "syncing"@,
        Phase::Idle => "idle"@,
        Phase::Armed => "armed"@,
        Phase::Ringing => "ringing"@,
        Phase::Snoozed => "snoozed"@,
    }
}

/// Lowercase phase name for JSON and logs.
pub fn phase_str(p: Phase) -> (s: &'static str)
    ensures
        s@ == phase_name(p),
{
    match p {
        Phase::Syncing => "syncing",
        Phase::Idle => "idle",
        Phase::Armed => "armed",
        Phase::Ringing => "ringing",
        Phase::Snoozed => "snoozed",
    }
}

} // verus!
