//! The logic behind the network worker's WiFi setup and REST API: request
//! validation, the commands the endpoints submit, the error bodies, the
//! stored-settings rules, and the state snapshot served as JSON.
//!
//! The worker owns the WiFi driver, the HTTP server and the settings store;
//! it hands each request's fields to these functions and sends back what
//! they return (serialized as JSON where the API speaks JSON).

use vstd::prelude::*;
use vstd::utf8::encode_utf8;

use crate::mqtt::{opt_text, MqttCfg};
use crate::state::{fmt_hms, phase_name, phase_str, Command, Preset, Shared};
use crate::text::{decimal, hms, lemma_decimal_ascii, lemma_parse_decimal, parse_unsigned, parse_unsigned_spec};

verus! {

/// Name of the open setup access point.
pub const AP_SSID: &'static str = "smart-alarm-clock";
/// WiFi channel of the setup access point.
pub const AP_CHANNEL: u8 = 1;
/// Largest request body accepted (bytes).
pub const MAX_BODY: usize = 256;
/// Body of a successful API call.
pub const OK_BODY: &'static str = "{\"ok\":true}";

/// Broker port used when none is stored or requested.
pub fn default_mqtt_port() -> (p: u16)
    ensures
        p == 1883,
{
    1883
}

/// How many body bytes to read for a request announcing `content_len`
/// (absent counts as 0): `None` for an empty or oversized body. The length
/// is narrowed to `usize` first, as `as usize` does.
pub open spec fn body_len_spec(content_len: Option<u64>) -> Option<usize> {
    let len = match content_len {
        Some(n) => n as usize,
        None => 0usize,
    };
    if len == 0 || len > MAX_BODY {
        None
    } else {
        Some(len)
    }
}

/// Decides how much of a request body to read.
pub fn body_len(content_len: Option<u64>) -> (r: Option<usize>)
    ensures
        r == body_len_spec(content_len),
{
    let len = match content_len {
        Some(n) => n as usize,
        None => 0,
    };
    if len == 0 || len > MAX_BODY {
        None
    } else {
        Some(len)
    }
}

/// Whether two strings hold the same text.
pub fn same_text(a: &str, b: &str) -> (r: bool)
    ensures
        r == (a@ == b@),
{
    let x = a.as_bytes();
    let y = b.as_bytes();
    proof {
        vstd::utf8::encode_utf8_decode_utf8(a@);
        vstd::utf8::encode_utf8_decode_utf8(b@);
    }
    crate::text::bytes_eq(x, y)
}

/// The command `POST /api/command` submits for `{"cmd": name}`.
pub open spec fn command_for_name(name: Seq<char>) -> Option<Command> {
    if name == "arm"@ {
        Some(Command::Arm)
    } else if name == "disarm"@ {
        Some(Command::Disarm)
    } else if name == "snooze"@ {
        Some(Command::Snooze)
    } else if name == "dismiss"@ {
        Some(Command::Dismiss)
    } else {
        None
    }
}

/// Maps a command name from the API to a command (`None`: unknown cmd).
pub fn command_from_name(name: &str) -> (cmd: Option<Command>)
    ensures
        cmd == command_for_name(name@),
{
    if same_text(name, "arm") {
        Some(Command::Arm)
    } else if same_text(name, "disarm") {
        Some(Command::Disarm)
    } else if same_text(name, "snooze") {
        Some(Command::Snooze)
    } else if same_text(name, "dismiss") {
        Some(Command::Dismiss)
    } else {
        None
    }
}

/// The command `POST /api/preset/time` submits for `{idx, hour, minute}`.
pub fn preset_time_command(idx: usize, hour: u8, minute: u8) -> (cmd: Command)
    ensures
        cmd == (Command::SetPresetTime { idx, secs: (hour * 3600 + minute * 60) as u32 }),
{
    let secs = (hour as u32) * 3600 + (minute as u32) * 60;
    Command::SetPresetTime { idx, secs }
}

/// The command `POST /api/preset/enabled` submits for `{idx, enabled}`.
pub fn preset_enabled_command(idx: usize, enabled: bool) -> (cmd: Command)
    ensures
        cmd == (Command::SetPresetEnabled { idx, enabled }),
{
    Command::SetPresetEnabled { idx, enabled }
}

/// The body of a 400 response: `{"error":"<msg>"}`.
pub fn error_body(msg: &str) -> (b: String)
    ensures
        b@ == "{\"error\":\""@ + msg@ + "\"}"@,
{
    let mut b = String::new();
    b.append("{\"error\":\"");
    b.append(msg);
    b.append("\"}");
    b
}

/// A WiFi setup request is accepted only with a network name.
pub fn wifi_request_ok(ssid: &str) -> (ok: bool)
    ensures
        ok == (ssid@.len() > 0),
{
    !ssid.is_empty()
}

/// A broker setup request is accepted only with a host.
pub fn mqtt_request_ok(host: &str) -> (ok: bool)
    ensures
        ok == (host@.len() > 0),
{
    !host.is_empty()
}

/// Joining a network with an empty password uses no authentication;
/// otherwise WPA2-Personal.
pub fn sta_needs_password(pass: &str) -> (wpa2: bool)
    ensures
        wpa2 == (pass@.len() > 0),
{
    !pass.is_empty()
}

/// Stored station credentials: present only with a non-empty network name;
/// a missing password is empty.
pub fn stored_creds(ssid: Option<String>, pass: Option<String>) -> (r: Option<(String, String)>)
    ensures
        match r {
            Some((s, p)) => ssid matches Some(x) && x@.len() > 0 && s@ == x@ && p@ == (match pass {
                Some(y) => y@,
                None => Seq::empty(),
            }),
            None => ssid is None || ssid->0@.len() == 0,
        },
{
    match ssid {
        None => None,
        Some(s) => {
            if s.as_str().is_empty() {
                None
            } else {
                let p = match pass {
                    Some(p) => p,
                    None => String::new(),
                };
                Some((s, p))
            }
        },
    }
}

/// The port read back from stored text: the text read as a `u16`, 1883 when
/// missing or unreadable.
pub open spec fn stored_port(port: Option<Seq<char>>) -> nat {
    match port {
        Some(p) => match parse_unsigned_spec(encode_utf8(p), 65535) {
            Some(v) => v,
            None => 1883,
        },
        None => 1883,
    }
}

/// A stored text field; a missing one is empty.
pub open spec fn stored_text(x: Option<Seq<char>>) -> Seq<char> {
    match x {
        Some(t) => t,
        None => Seq::empty(),
    }
}

/// The broker settings read back from the stored host, port, user and
/// password texts, as `(host, port, user, pass)`: present only with a
/// non-empty host.
pub open spec fn stored_mqtt_spec(
    host: Option<Seq<char>>,
    port: Option<Seq<char>>,
    user: Option<Seq<char>>,
    pass: Option<Seq<char>>,
) -> Option<(Seq<char>, nat, Seq<char>, Seq<char>)> {
    match host {
        Some(h) => if h.len() > 0 {
            Some((h, stored_port(port), stored_text(user), stored_text(pass)))
        } else {
            None
        },
        None => None,
    }
}

/// Broker settings as the tuple [`stored_mqtt_spec`] speaks of.
pub open spec fn cfg_view(c: Option<MqttCfg>) -> Option<(Seq<char>, nat, Seq<char>, Seq<char>)> {
    match c {
        Some(c) => Some((c.host@, c.port as nat, c.user@, c.pass@)),
        None => None,
    }
}

/// Stored broker settings: present only with a non-empty host; the port is
/// the stored text read as a `u16` (1883 when missing or unreadable), and a
/// missing user or password is empty.
pub fn stored_mqtt(host: Option<String>, port: Option<String>, user: Option<String>, pass: Option<String>) -> (r: Option<MqttCfg>)
    ensures
        cfg_view(r) == stored_mqtt_spec(opt_text(host), opt_text(port), opt_text(user), opt_text(pass)),
{
    let h = match host {
        None => {
            return None;
        },
        Some(h) => h,
    };
    if h.as_str().is_empty() {
        return None;
    }
    let port = match port {
        Some(p) => match parse_unsigned(p.as_str().as_bytes(), 65535) {
            Some(v) => v as u16,
            None => default_mqtt_port(),
        },
        None => default_mqtt_port(),
    };
    let user = match user {
        Some(u) => u,
        None => String::new(),
    };
    let pass = match pass {
        Some(x) => x,
        None => String::new(),
    };
    Some(MqttCfg { host: h, port, user, pass })
}

/// Settings saved with the port written as its decimal text read back as
/// they were saved: the host (when non-empty), the same port, user and
/// password.
pub proof fn lemma_stored_mqtt_round_trip(host: Seq<char>, port: u16, user: Seq<char>, pass: Seq<char>)
    requires
        host.len() > 0,
    ensures
        stored_mqtt_spec(Some(host), Some(decimal(port as nat)), Some(user), Some(pass)) == Some(
            (host, port as nat, user, pass),
        ),
{
    lemma_decimal_ascii(port as nat);
    lemma_parse_decimal(port as nat, 65535);
}

/// One preset as the API reports it.
pub struct PresetRow {
    pub idx: usize,
    pub label: String,
    /// Fire time as `HH:MM:SS`.
    pub time: String,
    pub enabled: bool,
}

/// Row `r` reports preset `p` at index `i`.
pub open spec fn row_reports(r: PresetRow, i: int, p: Preset) -> bool {
    &&& r.idx == i
    &&& r.label@ == p.label@
    &&& r.time@ == hms(p.secs as nat)
    &&& r.enabled == p.enabled
}

/// The presets as the API reports them, in slot order.
pub fn preset_values(presets: &Vec<Preset>) -> (rows: Vec<PresetRow>)
    ensures
        rows@.len() == presets@.len(),
        forall|i: int| 0 <= i < presets@.len() ==> #[trigger] row_reports(rows@[i], i, presets@[i]),
{
    let mut rows: Vec<PresetRow> = Vec::new();
    let mut i: usize = 0;
    while i < presets.len()
        invariant
            i <= presets@.len(),
            rows@.len() == i,
            forall|j: int| 0 <= j < i ==> #[trigger] row_reports(rows@[j], j, presets@[j]),
        decreases presets@.len() - i,
    {
        let p = &presets[i];
        rows.push(PresetRow { idx: i, label: p.label.clone(), time: fmt_hms(p.secs), enabled: p.enabled });
        proof {
            assert forall|j: int| 0 <= j < i + 1 implies #[trigger] row_reports(rows@[j], j, presets@[j]) by {}
        }
        i = i + 1;
    }
    rows
}

/// The state snapshot `GET /api/state` serves.
pub struct StateReport {
    pub phase: &'static str,
    /// Current time of day as `HH:MM:SS`.
    pub now: String,
    pub snooze_secs: u32,
    pub presets: Vec<PresetRow>,
}

/// Snapshots the shared state for the API.
pub fn state_report(shared: &Shared) -> (r: StateReport)
    ensures
        r.phase@ == phase_name(shared.phase),
        r.now@ == hms(shared.now_secs as nat),
        r.snooze_secs == shared.settings.snooze_secs,
        r.presets@.len() == shared.settings.presets@.len(),
        forall|i: int|
            0 <= i < shared.settings.presets@.len() ==> #[trigger] row_reports(
                r.presets@[i],
                i,
                shared.settings.presets@[i],
            ),
{
    StateReport {
        phase: phase_str(shared.phase),
        now: fmt_hms(shared.now_secs),
        snooze_secs: shared.settings.snooze_secs,
        presets: preset_values(&shared.settings.presets),
    }
}

} // verus!
