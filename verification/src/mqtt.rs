//! MQTT and Home Assistant integration: topic names, the mapping between
//! command topics and [`Command`]s, the Home Assistant discovery entities,
//! and the publish decisions of the MQTT worker.
//!
//! The worker owns the MQTT client. It routes every received message with
//! [`route`], and on every poll asks [`mqtt_step`] what to announce and
//! publish; discovery configs are built from [`discovery_entities`].

use vstd::prelude::*;
use vstd::string::StringSliceAdditionalSpecFns;

use crate::state::{phase_name, phase_str, submit, Command, CommandBus, Phase, Preset};
use crate::text::{
    ascii, bytes_eq, digit_bytes, lemma_ascii_concat, lemma_parse_decimal, bytes_eq_ignore_case, decimal, eq_ignore_case, has_at, lemma_ascii_literal,
    parse_usize, parse_usize_spec, push_decimal,
};

verus! {

/// Topic prefix of every device topic.
pub const BASE: &'static str = "smart-alarm-clock";
/// Home Assistant's default discovery prefix.
pub const DISC: &'static str = "homeassistant";
/// Availability (last-will) topic.
pub const AVAIL: &'static str = "smart-alarm-clock/availability";

/// Broker connection settings (from storage or the web UI).
#[derive(Debug, Clone)]
pub struct MqttCfg {
    pub host: String,
    pub port: u16,
    pub user: String,
    pub pass: String,
}

/// `mqtt://<host>:<port>`.
pub fn broker_url(cfg: &MqttCfg) -> (url: String)
    ensures
        url@ == "mqtt://"@ + cfg.host@ + ":"@ + decimal(cfg.port as nat),
{
    let mut url = String::new();
    url.append("mqtt://");
    url.append(cfg.host.as_str());
    url.append(":");
    push_decimal(&mut url, cfg.port as u64);
    url
}

/// A login field as the client takes it: an empty user name or password
/// means none is sent.
pub fn credential(s: &String) -> (r: Option<&str>)
    ensures
        match r {
            Some(x) => s@.len() > 0 && x@ == s@,
            None => s@.len() == 0,
        },
{
    let x = s.as_str();
    if x.is_empty() {
        None
    } else {
        Some(x)
    }
}

/// Whether the Armed switch shows on in this phase.
pub open spec fn armed_like(p: Phase) -> bool {
    p == Phase::Armed || p == Phase::Ringing || p == Phase::Snoozed
}

/// "ON" while the alarm is armed, ringing or snoozed, else "OFF".
pub fn arm_str(p: Phase) -> (s: &'static str)
    ensures
        s@ == (if armed_like(p) {
            "ON"@
        } else {
            "OFF"@
        }),
{
    match p {
        Phase::Armed | Phase::Ringing | Phase::Snoozed => "ON",
        Phase::Idle | Phase::Syncing => "OFF",
    }
}

/// The switch payload for an enable flag.
pub open spec fn on_off_spec(on: bool) -> Seq<u8> {
    if on {
        ascii("ON"@)
    } else {
        ascii("OFF"@)
    }
}

/// `b"ON"` or `b"OFF"`.
pub fn on_off(on: bool) -> (b: &'static [u8])
    ensures
        b@ == on_off_spec(on),
{
    if on {
        proof {
            reveal_strlit("ON");
            lemma_ascii_literal("ON");
        }
        "ON".as_bytes()
    } else {
        proof {
            reveal_strlit("OFF");
            lemma_ascii_literal("OFF");
        }
        "OFF".as_bytes()
    }
}

/// Whether a command payload means "on": `on` or `true` in any ASCII case,
/// or `1`. Anything else, including bytes that are not UTF-8, means "off".
pub open spec fn payload_on(d: Seq<u8>) -> bool {
    eq_ignore_case(d, ascii("on"@)) || d == ascii("1"@) || eq_ignore_case(d, ascii("true"@))
}

fn is_on(d: &[u8]) -> (r: bool)
    ensures
        r == payload_on(d@),
{
    proof {
        reveal_strlit("on");
        reveal_strlit("1");
        reveal_strlit("true");
        lemma_ascii_literal("on");
        lemma_ascii_literal("1");
        lemma_ascii_literal("true");
    }
    bytes_eq_ignore_case(d, "on".as_bytes()) || bytes_eq(d, "1".as_bytes())
        || bytes_eq_ignore_case(d, "true".as_bytes())
}

/// The command a message on topic `t` (as bytes) with payload `d` stands
/// for: under `smart-alarm-clock/`, `preset/<n>/enable/set` enables or
/// disables preset `n`, `arm/set` arms or disarms, `snooze/set` and
/// `dismiss/set` snooze and dismiss. Other topics carry no command.
pub open spec fn route_spec(t: Seq<u8>, d: Seq<u8>) -> Option<Command> {
    let base = ascii("smart-alarm-clock/"@);
    if !(t.len() >= base.len() && t.subrange(0, base.len() as int) == base) {
        None
    } else {
        let rest = t.subrange(base.len() as int, t.len() as int);
        let pre = ascii("preset/"@);
        let suf = ascii("/enable/set"@);
        if rest.len() >= pre.len() && rest.subrange(0, pre.len() as int) == pre {
            let p = rest.subrange(pre.len() as int, rest.len() as int);
            if p.len() >= suf.len() && p.subrange(p.len() - suf.len(), p.len() as int) == suf {
                match parse_usize_spec(p.subrange(0, p.len() - suf.len())) {
                    Some(idx) => Some(Command::SetPresetEnabled { idx, enabled: payload_on(d) }),
                    None => None,
                }
            } else {
                None
            }
        } else if rest == ascii("arm/set"@) {
            Some(
                if payload_on(d) {
                    Command::Arm
                } else {
                    Command::Disarm
                },
            )
        } else if rest == ascii("snooze/set"@) {
            Some(Command::Snooze)
        } else if rest == ascii("dismiss/set"@) {
            Some(Command::Dismiss)
        } else {
            None
        }
    }
}

/// The command carried by an incoming message, if any.
pub fn route_command(topic: &str, data: &[u8]) -> (cmd: Option<Command>)
    ensures
        cmd == route_spec(topic.spec_bytes(), data@),
{
    let t = topic.as_bytes();
    proof {
        reveal_strlit("smart-alarm-clock/");
        reveal_strlit("preset/");
        reveal_strlit("/enable/set");
        reveal_strlit("arm/set");
        reveal_strlit("snooze/set");
        reveal_strlit("dismiss/set");
        lemma_ascii_literal("smart-alarm-clock/");
        lemma_ascii_literal("preset/");
        lemma_ascii_literal("/enable/set");
        lemma_ascii_literal("arm/set");
        lemma_ascii_literal("snooze/set");
        lemma_ascii_literal("dismiss/set");
    }
    let base = "smart-alarm-clock/".as_bytes();
    if !has_at(t, 0, base) {
        return None;
    }
    let rest = &t[base.len()..t.len()];
    let pre = "preset/".as_bytes();
    if has_at(rest, 0, pre) {
        let p = &rest[pre.len()..rest.len()];
        let suf = "/enable/set".as_bytes();
        if p.len() >= suf.len() && has_at(p, p.len() - suf.len(), suf) {
            let num = &p[0..p.len() - suf.len()];
            match parse_usize(num) {
                Some(idx) => {
                    let on = is_on(data);
                    return Some(Command::SetPresetEnabled { idx, enabled: on });
                },
                None => {
                    return None;
                },
            }
        }
        return None;
    }
    if bytes_eq(rest, "arm/set".as_bytes()) {
        if is_on(data) {
            Some(Command::Arm)
        } else {
            Some(Command::Disarm)
        }
    } else if bytes_eq(rest, "snooze/set".as_bytes()) {
        Some(Command::Snooze)
    } else if bytes_eq(rest, "dismiss/set".as_bytes()) {
        Some(Command::Dismiss)
    } else {
        None
    }
}

/// Routes an incoming command message onto the shared command bus.
pub fn route(topic: &str, data: &[u8], bus: &mut CommandBus)
    ensures
        final(bus)@ == match route_spec(topic.spec_bytes(), data@) {
            Some(c) => old(bus)@.push(c),
            None => old(bus)@,
        },
{
    match route_command(topic, data) {
        Some(c) => submit(bus, c),
        None => {},
    }
}

/// The device topic `smart-alarm-clock/<suffix>`.
pub open spec fn device_topic(suffix: Seq<char>) -> Seq<char> {
    "smart-alarm-clock/"@ + suffix
}

/// Builds the device topic `smart-alarm-clock/<suffix>`.
pub fn topic(suffix: &str) -> (t: String)
    ensures
        t@ == device_topic(suffix@),
{
    let mut t = String::new();
    t.append("smart-alarm-clock/");
    t.append(suffix);
    t
}

/// State topic of preset `i`'s enable switch.
pub open spec fn preset_state_topic_spec(i: nat) -> Seq<char> {
    "smart-alarm-clock/preset/"@ + decimal(i) + "/enable"@
}

/// Command topic of preset `i`'s enable switch.
pub open spec fn preset_command_topic_spec(i: nat) -> Seq<char> {
    preset_state_topic_spec(i) + "/set"@
}

/// `smart-alarm-clock/preset/<i>/enable`.
pub fn preset_state_topic(i: usize) -> (t: String)
    ensures
        t@ == preset_state_topic_spec(i as nat),
{
    let mut t = String::new();
    t.append("smart-alarm-clock/preset/");
    push_decimal(&mut t, i as u64);
    t.append("/enable");
    t
}

/// `smart-alarm-clock/preset/<i>/enable/set`.
pub fn preset_command_topic(i: usize) -> (t: String)
    ensures
        t@ == preset_command_topic_spec(i as nat),
{
    let mut t = preset_state_topic(i);
    t.append("/set");
    t
}

/// Discovery config topic of an entity.
pub open spec fn discovery_topic_spec(component: Seq<char>, object: Seq<char>) -> Seq<char> {
    "homeassistant/"@ + component + "/smart-alarm-clock/"@ + object + "/config"@
}

/// `homeassistant/<component>/smart-alarm-clock/<object>/config`.
pub fn discovery_topic(component: &str, object: &str) -> (t: String)
    ensures
        t@ == discovery_topic_spec(component@, object@),
{
    let mut t = String::new();
    t.append("homeassistant/");
    t.append(component);
    t.append("/smart-alarm-clock/");
    t.append(object);
    t.append("/config");
    t
}

/// Text `prefix` followed by the decimal rendering of `i`.
fn numbered(prefix: &str, i: usize) -> (t: String)
    ensures
        t@ == prefix@ + decimal(i as nat),
{
    let mut t = String::new();
    t.append(prefix);
    push_decimal(&mut t, i as u64);
    t
}

/// One Home Assistant entity announced by MQTT discovery. Every entity also
/// carries the availability topic and the device description.
pub struct Entity {
    /// `sensor`, `switch` or `button`.
    pub component: &'static str,
    /// Object id within the device.
    pub object: String,
    pub name: String,
    pub unique_id: String,
    pub command_topic: Option<String>,
    pub state_topic: Option<String>,
    /// Whether the entity declares `ON`/`OFF` payloads (switches).
    pub switch_payloads: bool,
}

/// The text an optional string holds.
pub open spec fn opt_text(o: Option<String>) -> Option<Seq<char>> {
    match o {
        Some(s) => Some(s@),
        None => None,
    }
}

/// Whether entity `e` has exactly these fields.
pub open spec fn entity_is(
    e: Entity,
    component: Seq<char>,
    object: Seq<char>,
    name: Seq<char>,
    unique_id: Seq<char>,
    command: Option<Seq<char>>,
    state: Option<Seq<char>>,
    switch_payloads: bool,
) -> bool {
    &&& e.component@ == component
    &&& e.object@ == object
    &&& e.name@ == name
    &&& e.unique_id@ == unique_id
    &&& opt_text(e.command_topic) == command
    &&& opt_text(e.state_topic) == state
    &&& e.switch_payloads == switch_payloads
}

/// The discovery entity for preset `i`'s enable switch.
pub open spec fn preset_entity_is(e: Entity, i: nat, p: Preset) -> bool {
    entity_is(
        e,
        "switch"@,
        "preset"@ + decimal(i),
        "Alarm: "@ + p.label@,
        "sac_preset"@ + decimal(i),
        Some(preset_command_topic_spec(i)),
        Some(preset_state_topic_spec(i)),
        true,
    )
}

fn text(s: &str) -> (t: String)
    ensures
        t@ == s@,
{
    let mut t = String::new();
    t.append(s);
    t
}

/// The entities announced on (re)connect: the Phase sensor, the Armed
/// switch, the Snooze and Dismiss buttons, and one enable switch per preset.
pub fn discovery_entities(presets: &Vec<Preset>) -> (es: Vec<Entity>)
    ensures
        es@.len() == 4 + presets@.len(),
        entity_is(es@[0], "sensor"@, "phase"@, "Phase"@, "sac_phase"@, None, Some(device_topic("phase"@)), false),
        entity_is(es@[1], "switch"@, "arm"@, "Armed"@, "sac_arm"@, Some(device_topic("arm/set"@)), Some(device_topic("arm"@)), true),
        entity_is(es@[2], "button"@, "snooze"@, "Snooze"@, "sac_snooze"@, Some(device_topic("snooze/set"@)), None, false),
        entity_is(es@[3], "button"@, "dismiss"@, "Dismiss"@, "sac_dismiss"@, Some(device_topic("dismiss/set"@)), None, false),
        forall|i: int| 0 <= i < presets@.len() ==> #[trigger] preset_entity_is(es@[4 + i], i as nat, presets@[i]),
{
    let mut es: Vec<Entity> = Vec::new();
    es.push(Entity {
        component: "sensor",
        object: text("phase"),
        name: text("Phase"),
        unique_id: text("sac_phase"),
        command_topic: None,
        state_topic: Some(topic("phase")),
        switch_payloads: false,
    });
    es.push(Entity {
        component: "switch",
        object: text("arm"),
        name: text("Armed"),
        unique_id: text("sac_arm"),
        command_topic: Some(topic("arm/set")),
        state_topic: Some(topic("arm")),
        switch_payloads: true,
    });
    es.push(Entity {
        component: "button",
        object: text("snooze"),
        name: text("Snooze"),
        unique_id: text("sac_snooze"),
        command_topic: Some(topic("snooze/set")),
        state_topic: None,
        switch_payloads: false,
    });
    es.push(Entity {
        component: "button",
        object: text("dismiss"),
        name: text("Dismiss"),
        unique_id: text("sac_dismiss"),
        command_topic: Some(topic("dismiss/set")),
        state_topic: None,
        switch_payloads: false,
    });
    let mut i: usize = 0;
    while i < presets.len()
        invariant
            i <= presets@.len(),
            es@.len() == 4 + i,
            entity_is(es@[0], "sensor"@, "phase"@, "Phase"@, "sac_phase"@, None, Some(device_topic("phase"@)), false),
            entity_is(es@[1], "switch"@, "arm"@, "Armed"@, "sac_arm"@, Some(device_topic("arm/set"@)), Some(device_topic("arm"@)), true),
            entity_is(es@[2], "button"@, "snooze"@, "Snooze"@, "sac_snooze"@, Some(device_topic("snooze/set"@)), None, false),
            entity_is(es@[3], "button"@, "dismiss"@, "Dismiss"@, "sac_dismiss"@, Some(device_topic("dismiss/set"@)), None, false),
            forall|j: int| 0 <= j < i ==> #[trigger] preset_entity_is(es@[4 + j], j as nat, presets@[j]),
        decreases presets@.len() - i,
    {
        let mut name = text("Alarm: ");
        name.append(presets[i].label.as_str());
        let e = Entity {
            component: "switch",
            object: numbered("preset", i),
            name,
            unique_id: numbered("sac_preset", i),
            command_topic: Some(preset_command_topic(i)),
            state_topic: Some(preset_state_topic(i)),
            switch_payloads: true,
        };
        es.push(e);
        proof {
            assert forall|j: int| 0 <= j < i + 1 implies #[trigger] preset_entity_is(
                es@[4 + j],
                j as nat,
                presets@[j],
            ) by {}
        }
        i = i + 1;
    }
    es
}

/// What the MQTT worker remembers between polls.
pub struct MqttMemo {
    /// Whether the client was connected at the previous poll.
    pub was_connected: bool,
    /// Shared-state version last published.
    pub last_version: Option<u64>,
    /// Phase last published.
    pub last_phase: Option<Phase>,
    /// Preset enable flags last published.
    pub last_enabled: Vec<bool>,
}

/// Abstract contents of an [`MqttMemo`].
#[verifier::ext_equal]
pub struct MqttMemoView {
    pub was_connected: bool,
    pub last_version: Option<u64>,
    pub last_phase: Option<Phase>,
    pub last_enabled: Seq<bool>,
}

impl View for MqttMemo {
    type V = MqttMemoView;

    open spec fn view(&self) -> MqttMemoView {
        MqttMemoView {
            was_connected: self.was_connected,
            last_version: self.last_version,
            last_phase: self.last_phase,
            last_enabled: self.last_enabled@,
        }
    }
}

/// The memo of a worker that has published nothing yet.
pub fn new_memo() -> (m: MqttMemo)
    ensures
        m@ == (MqttMemoView {
            was_connected: false,
            last_version: None,
            last_phase: None,
            last_enabled: Seq::empty(),
        }),
{
    MqttMemo { was_connected: false, last_version: None, last_phase: None, last_enabled: Vec::new() }
}

/// One retained message to publish.
pub struct Publish {
    pub topic: String,
    pub payload: &'static [u8],
}

/// A publish as (topic text, payload bytes).
pub open spec fn publish_view(p: Publish) -> (Seq<char>, Seq<u8>) {
    (p.topic@, p.payload@)
}

/// The state messages for a phase: the phase name and the Armed switch.
pub open spec fn phase_publishes(phase: Phase) -> Seq<(Seq<char>, Seq<u8>)> {
    seq![
        (device_topic("phase"@), ascii(phase_name(phase))),
        (device_topic("arm"@), ascii(if armed_like(phase) { "ON"@ } else { "OFF"@ })),
    ]
}

/// The state messages for the preset enable switches.
pub open spec fn enable_publishes(enabled: Seq<bool>) -> Seq<(Seq<char>, Seq<u8>)> {
    Seq::new(enabled.len(), |i: int| (preset_state_topic_spec(i as nat), on_off_spec(enabled[i])))
}

/// One poll of the MQTT worker: on a fresh connection announce (subscribe,
/// availability, discovery) and forget what was published; while connected,
/// when the shared version moved, publish the phase if it changed and all
/// preset switches if any changed. Returns the new memo, whether to
/// announce, and the messages in order.
pub open spec fn mqtt_step_spec(
    m: MqttMemoView,
    connected: bool,
    version: u64,
    phase: Phase,
    enabled: Seq<bool>,
) -> (MqttMemoView, bool, Seq<(Seq<char>, Seq<u8>)>) {
    let announce = connected && !m.was_connected;
    let m1 = if announce {
        MqttMemoView { last_version: None, last_phase: None, last_enabled: Seq::empty(), ..m }
    } else {
        m
    };
    let m2 = MqttMemoView { was_connected: connected, ..m1 };
    if connected && m2.last_version != Some(version) {
        let pp = if m2.last_phase != Some(phase) {
            phase_publishes(phase)
        } else {
            Seq::empty()
        };
        let ep = if m2.last_enabled != enabled {
            enable_publishes(enabled)
        } else {
            Seq::empty()
        };
        (
            MqttMemoView {
                last_version: Some(version),
                last_phase: Some(phase),
                last_enabled: enabled,
                ..m2
            },
            announce,
            pp + ep,
        )
    } else {
        (m2, announce, Seq::empty())
    }
}

/// The worker's decision for one poll.
pub struct MqttPlan {
    /// Subscribe, mark the device online and publish discovery first.
    pub announce: bool,
    /// Retained state messages to publish, in order.
    pub publishes: Vec<Publish>,
}

fn bools_eq(a: &Vec<bool>, b: &Vec<bool>) -> (r: bool)
    ensures
        r == (a@ == b@),
{
    if a.len() != b.len() {
        return false;
    }
    let mut i: usize = 0;
    while i < a.len()
        invariant
            a@.len() == b@.len(),
            i <= a@.len(),
            forall|j: int| 0 <= j < i ==> a@[j] == b@[j],
        decreases a@.len() - i,
    {
        if a[i] != b[i] {
            return false;
        }
        i = i + 1;
    }
    assert(a@ =~= b@);
    true
}

fn copy_bools(a: &Vec<bool>) -> (r: Vec<bool>)
    ensures
        r@ == a@,
{
    let mut r: Vec<bool> = Vec::new();
    let mut i: usize = 0;
    while i < a.len()
        invariant
            i <= a@.len(),
            r@ == a@.take(i as int),
        decreases a@.len() - i,
    {
        r.push(a[i]);
        assert(a@.take(i + 1) =~= a@.take(i as int).push(a@[i as int]));
        i = i + 1;
    }
    assert(a@.take(a@.len() as int) =~= a@);
    r
}

fn phase_bytes(phase: Phase) -> (b: &'static [u8])
    ensures
        b@ == ascii(phase_name(phase)),
{
    let s = phase_str(phase);
    proof {
        reveal_strlit("syncing");
        reveal_strlit("idle");
        reveal_strlit("armed");
        reveal_strlit("ringing");
        reveal_strlit("snoozed");
        lemma_ascii_literal(s);
    }
    s.as_bytes()
}

fn arm_bytes(phase: Phase) -> (b: &'static [u8])
    ensures
        b@ == ascii(if armed_like(phase) { "ON"@ } else { "OFF"@ }),
{
    let s = arm_str(phase);
    proof {
        reveal_strlit("ON");
        reveal_strlit("OFF");
        lemma_ascii_literal(s);
    }
    s.as_bytes()
}

/// Decides what the MQTT worker does on one poll, given whether the client
/// is connected and a snapshot of the shared version, phase and preset
/// enable flags.
pub fn mqtt_step(memo: &mut MqttMemo, connected: bool, version: u64, phase: Phase, enabled: &Vec<bool>) -> (plan: MqttPlan)
    ensures
        final(memo)@ == mqtt_step_spec(old(memo)@, connected, version, phase, enabled@).0,
        plan.announce == mqtt_step_spec(old(memo)@, connected, version, phase, enabled@).1,
        plan.publishes@.map_values(|p: Publish| publish_view(p)) == mqtt_step_spec(
            old(memo)@,
            connected,
            version,
            phase,
            enabled@,
        ).2,
{
    let ghost m0 = memo@;
    let announce = connected && !memo.was_connected;
    if announce {
        memo.last_version = None;
        memo.last_phase = None;
        memo.last_enabled = Vec::new();
    }
    memo.was_connected = connected;
    let mut publishes: Vec<Publish> = Vec::new();
    if connected && memo.last_version != Some(version) {
        if memo.last_phase != Some(phase) {
            publishes.push(Publish { topic: topic("phase"), payload: phase_bytes(phase) });
            publishes.push(Publish { topic: topic("arm"), payload: arm_bytes(phase) });
            memo.last_phase = Some(phase);
        }
        let ghost pp = publishes@.map_values(|p: Publish| publish_view(p));
        if !bools_eq(&memo.last_enabled, enabled) {
            let mut i: usize = 0;
            while i < enabled.len()
                invariant
                    i <= enabled@.len(),
                    publishes@.len() == pp.len() + i,
                    publishes@.map_values(|p: Publish| publish_view(p)) == pp + enable_publishes(enabled@).take(i as int),
                decreases enabled@.len() - i,
            {
                let p = Publish { topic: preset_state_topic(i), payload: on_off(enabled[i]) };
                let ghost before = publishes@;
                publishes.push(p);
                proof {
                    assert(publishes@ == before.push(p));
                    assert(enable_publishes(enabled@).take(i + 1) =~= enable_publishes(enabled@).take(i as int).push(
                        enable_publishes(enabled@)[i as int]));
                    assert(publishes@.map_values(|p: Publish| publish_view(p)) =~= before.map_values(|p: Publish| publish_view(p)).push(publish_view(p)));
                }
                i = i + 1;
            }
            proof {
                assert(enable_publishes(enabled@).take(enabled@.len() as int) =~= enable_publishes(enabled@));
            }
            memo.last_enabled = copy_bools(enabled);
        } else {
            assert(pp + Seq::<(Seq<char>, Seq<u8>)>::empty() =~= pp);
        }
        memo.last_version = Some(version);
        memo.last_phase = Some(phase);
    }
    proof {
        let spec = mqtt_step_spec(m0, connected, version, phase, enabled@);
        assert(memo@ =~= spec.0);
        assert(publishes@.map_values(|p: Publish| publish_view(p)) =~= spec.2);
    }
    MqttPlan { announce, publishes }
}

/// Full parity between the published state and the commands: the payload
/// published for preset `i`'s switch, sent back on that switch's command
/// topic, sets preset `i` to the same enable flag.
pub proof fn lemma_switch_payload_routes_back(i: nat, e: bool)
    requires
        i <= usize::MAX,
    ensures
        route_spec(ascii(preset_command_topic_spec(i)), on_off_spec(e)) == Some(
            Command::SetPresetEnabled { idx: i as usize, enabled: e },
        ),
{
    reveal_strlit("smart-alarm-clock/preset/");
    reveal_strlit("smart-alarm-clock/");
    reveal_strlit("preset/");
    reveal_strlit("/enable");
    reveal_strlit("/set");
    reveal_strlit("/enable/set");
    reveal_strlit("ON");
    reveal_strlit("OFF");
    reveal_strlit("on");
    reveal_strlit("1");
    reveal_strlit("true");
    let a = "smart-alarm-clock/preset/"@;
    let n = decimal(i);
    let b = "/enable"@;
    let c = "/set"@;
    lemma_ascii_concat(a, n);
    lemma_ascii_concat(a + n, b);
    lemma_ascii_concat(a + n + b, c);
    let t = ascii(preset_command_topic_spec(i));
    assert(t == ascii(a) + digit_bytes(i) + ascii(b) + ascii(c));
    let base = ascii("smart-alarm-clock/"@);
    assert(t.subrange(0, base.len() as int) =~= base);
    let rest = t.subrange(base.len() as int, t.len() as int);
    let pre = ascii("preset/"@);
    assert(rest.subrange(0, pre.len() as int) =~= pre);
    let p = rest.subrange(pre.len() as int, rest.len() as int);
    let suf = ascii("/enable/set"@);
    assert(p =~= digit_bytes(i) + suf);
    assert(p.subrange(p.len() - suf.len(), p.len() as int) =~= suf);
    assert(p.subrange(0, p.len() - suf.len()) =~= digit_bytes(i));
    lemma_parse_decimal(i, usize::MAX as nat);
    assert(payload_on(on_off_spec(e)) == e) by {
        if !e {
            assert(on_off_spec(e)[0] == 79u8);
        } else {
            assert(eq_ignore_case(on_off_spec(e), ascii("on"@)));
        }
    }
}

/// The Armed switch's state payload, sent back on its command topic, asks
/// for the same arming: `ON` arms, `OFF` disarms.
pub proof fn lemma_arm_payload_routes_back(p: Phase)
    ensures
        route_spec(
            ascii(device_topic("arm/set"@)),
            ascii(
                if armed_like(p) {
                    "ON"@
                } else {
                    "OFF"@
                },
            ),
        ) == Some(
            if armed_like(p) {
                Command::Arm
            } else {
                Command::Disarm
            },
        ),
{
    reveal_strlit("smart-alarm-clock/");
    reveal_strlit("arm/set");
    reveal_strlit("preset/");
    reveal_strlit("ON");
    reveal_strlit("OFF");
    reveal_strlit("on");
    reveal_strlit("1");
    reveal_strlit("true");
    lemma_ascii_concat("smart-alarm-clock/"@, "arm/set"@);
    let t = ascii(device_topic("arm/set"@));
    let base = ascii("smart-alarm-clock/"@);
    assert(t.subrange(0, base.len() as int) =~= base);
    let rest = t.subrange(base.len() as int, t.len() as int);
    assert(rest =~= ascii("arm/set"@));
    assert(rest.subrange(0, 7) != ascii("preset/"@)) by {
        assert(rest.subrange(0, 7)[0] != ascii("preset/"@)[0]);
    }
    let d = ascii(
        if armed_like(p) {
            "ON"@
        } else {
            "OFF"@
        },
    );
    assert(payload_on(d) == armed_like(p)) by {
        if !armed_like(p) {
            assert(d[0] == 79u8);
        } else {
            assert(eq_ignore_case(d, ascii("on"@)));
        }
    }
}

/// A fresh connection republishes everything: the client announces, and the
/// phase, the Armed switch and every preset switch are published.
pub proof fn lemma_reconnect_republishes(
    m: MqttMemoView,
    version: u64,
    phase: Phase,
    enabled: Seq<bool>,
)
    requires
        !m.was_connected,
    ensures
        ({
            let (m2, announce, pubs) = mqtt_step_spec(m, true, version, phase, enabled);
            &&& announce
            &&& pubs == phase_publishes(phase) + enable_publishes(enabled)
            &&& m2.was_connected
        }),
{
    if enabled.len() == 0 {
        assert(enable_publishes(enabled) =~= Seq::<(Seq<char>, Seq<u8>)>::empty());
        assert(enabled =~= Seq::<bool>::empty());
    }
}

/// Polls that see no new version publish nothing, and polls while
/// disconnected publish nothing and announce nothing.
pub proof fn lemma_quiet_polls_publish_nothing(
    m: MqttMemoView,
    connected: bool,
    version: u64,
    phase: Phase,
    enabled: Seq<bool>,
)
    requires
        !connected || (m.was_connected && m.last_version == Some(version)),
    ensures
        !mqtt_step_spec(m, connected, version, phase, enabled).1,
        mqtt_step_spec(m, connected, version, phase, enabled).2 == Seq::<(Seq<char>, Seq<u8>)>::empty(),
{
}

} // verus!
