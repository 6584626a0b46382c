use smart_alarm_clock::mqtt::{
    arm_str, broker_url, credential, discovery_entities, discovery_topic, mqtt_step, new_memo,
    on_off, preset_command_topic, preset_state_topic, route, route_command, topic, MqttCfg,
};
use smart_alarm_clock::net::{
    body_len, command_from_name, default_mqtt_port, error_body, mqtt_request_ok,
    preset_enabled_command, preset_time_command, preset_values, sta_needs_password, state_report,
    stored_creds, stored_mqtt, wifi_request_ok,
};
use smart_alarm_clock::state::{new_bus, new_shared, Command, Phase};
use smart_alarm_clock::text::decimal_string;

#[test]
fn switch_payloads() {
    assert_eq!(arm_str(Phase::Armed), "ON");
    assert_eq!(arm_str(Phase::Ringing), "ON");
    assert_eq!(arm_str(Phase::Snoozed), "ON");
    assert_eq!(arm_str(Phase::Idle), "OFF");
    assert_eq!(arm_str(Phase::Syncing), "OFF");
    assert_eq!(on_off(true), b"ON");
    assert_eq!(on_off(false), b"OFF");
}

#[test]
fn routes_commands() {
    assert_eq!(route_command("smart-alarm-clock/arm/set", b"ON"), Some(Command::Arm));
    assert_eq!(route_command("smart-alarm-clock/arm/set", b"1"), Some(Command::Arm));
    assert_eq!(route_command("smart-alarm-clock/arm/set", b"True"), Some(Command::Arm));
    assert_eq!(route_command("smart-alarm-clock/arm/set", b"off"), Some(Command::Disarm));
    assert_eq!(route_command("smart-alarm-clock/arm/set", &[0xFF, 0xFE]), Some(Command::Disarm));
    assert_eq!(route_command("smart-alarm-clock/snooze/set", b""), Some(Command::Snooze));
    assert_eq!(route_command("smart-alarm-clock/dismiss/set", b"x"), Some(Command::Dismiss));
    assert_eq!(
        route_command("smart-alarm-clock/preset/3/enable/set", b"on"),
        Some(Command::SetPresetEnabled { idx: 3, enabled: true })
    );
    assert_eq!(
        route_command("smart-alarm-clock/preset/+12/enable/set", b"OFF"),
        Some(Command::SetPresetEnabled { idx: 12, enabled: false })
    );
    assert_eq!(route_command("smart-alarm-clock/preset/x/enable/set", b"on"), None);
    assert_eq!(route_command("smart-alarm-clock/preset//enable/set", b"on"), None);
    assert_eq!(route_command("smart-alarm-clock/preset/3/enable", b"on"), None);
    assert_eq!(route_command("smart-alarm-clock/arm", b"ON"), None);
    assert_eq!(route_command("other/arm/set", b"ON"), None);
}

#[test]
fn route_submits_to_bus() {
    let mut bus = new_bus();
    route("smart-alarm-clock/snooze/set", b"", &mut bus);
    route("nothing/here", b"", &mut bus);
    route("smart-alarm-clock/arm/set", b"OFF", &mut bus);
    assert_eq!(bus.drain(), vec![Command::Snooze, Command::Disarm]);
}

#[test]
fn topics() {
    assert_eq!(topic("phase"), "smart-alarm-clock/phase");
    assert_eq!(preset_state_topic(3), "smart-alarm-clock/preset/3/enable");
    assert_eq!(preset_command_topic(10), "smart-alarm-clock/preset/10/enable/set");
    assert_eq!(
        discovery_topic("switch", "preset3"),
        "homeassistant/switch/smart-alarm-clock/preset3/config"
    );
}

#[test]
fn published_switch_state_routes_back() {
    for i in [0usize, 7, 42] {
        for e in [true, false] {
            let t = preset_command_topic(i);
            assert_eq!(route_command(&t, on_off(e)), Some(Command::SetPresetEnabled { idx: i, enabled: e }));
        }
    }
    for p in [Phase::Idle, Phase::Armed, Phase::Ringing, Phase::Snoozed, Phase::Syncing] {
        let want = if arm_str(p) == "ON" { Command::Arm } else { Command::Disarm };
        assert_eq!(route_command(&topic("arm/set"), arm_str(p).as_bytes()), Some(want));
    }
}

#[test]
fn discovery() {
    let s = new_shared();
    let es = discovery_entities(&s.settings.presets);
    assert_eq!(es.len(), 7);
    assert_eq!(es[0].component, "sensor");
    assert_eq!(es[0].state_topic.as_deref(), Some("smart-alarm-clock/phase"));
    assert_eq!(es[1].command_topic.as_deref(), Some("smart-alarm-clock/arm/set"));
    assert_eq!(es[3].unique_id, "sac_dismiss");
    assert_eq!(es[4].name, "Alarm: Wake");
    assert_eq!(es[6].object, "preset2");
    assert_eq!(es[6].unique_id, "sac_preset2");
    assert_eq!(es[6].command_topic.as_deref(), Some("smart-alarm-clock/preset/2/enable/set"));
    assert!(es[6].switch_payloads);
}

#[test]
fn publish_plan() {
    let mut memo = new_memo();
    let plan = mqtt_step(&mut memo, false, 1, Phase::Armed, &vec![true]);
    assert!(!plan.announce && plan.publishes.is_empty());

    let plan = mqtt_step(&mut memo, true, 1, Phase::Armed, &vec![true, false]);
    assert!(plan.announce);
    let got: Vec<(String, Vec<u8>)> = plan.publishes.iter().map(|p| (p.topic.clone(), p.payload.to_vec())).collect();
    assert_eq!(
        got,
        vec![
            ("smart-alarm-clock/phase".to_string(), b"armed".to_vec()),
            ("smart-alarm-clock/arm".to_string(), b"ON".to_vec()),
            ("smart-alarm-clock/preset/0/enable".to_string(), b"ON".to_vec()),
            ("smart-alarm-clock/preset/1/enable".to_string(), b"OFF".to_vec()),
        ]
    );

    let plan = mqtt_step(&mut memo, true, 1, Phase::Armed, &vec![true, false]);
    assert!(!plan.announce && plan.publishes.is_empty());

    let plan = mqtt_step(&mut memo, true, 2, Phase::Armed, &vec![true, true]);
    assert_eq!(plan.publishes.len(), 2);
    assert_eq!(plan.publishes[1].payload, b"ON");

    let plan = mqtt_step(&mut memo, true, 3, Phase::Ringing, &vec![true, true]);
    assert_eq!(plan.publishes.len(), 2);
    assert_eq!(plan.publishes[0].payload, b"ringing");

    // Reconnect: everything again.
    mqtt_step(&mut memo, false, 3, Phase::Ringing, &vec![true, true]);
    let plan = mqtt_step(&mut memo, true, 3, Phase::Ringing, &vec![true, true]);
    assert!(plan.announce);
    assert_eq!(plan.publishes.len(), 4);
}

#[test]
fn broker_settings() {
    let cfg = MqttCfg { host: "192.168.0.10".to_string(), port: 1883, user: String::new(), pass: "pw".to_string() };
    assert_eq!(broker_url(&cfg), "mqtt://192.168.0.10:1883");
    assert_eq!(credential(&cfg.user), None);
    assert_eq!(credential(&cfg.pass), Some("pw"));
}

#[test]
fn api_commands() {
    assert_eq!(command_from_name("arm"), Some(Command::Arm));
    assert_eq!(command_from_name("disarm"), Some(Command::Disarm));
    assert_eq!(command_from_name("snooze"), Some(Command::Snooze));
    assert_eq!(command_from_name("dismiss"), Some(Command::Dismiss));
    assert_eq!(command_from_name("ARM"), None);
    assert_eq!(command_from_name(""), None);
    assert_eq!(preset_time_command(0, 7, 30), Command::SetPresetTime { idx: 0, secs: 27_000 });
    assert_eq!(preset_time_command(1, 255, 255), Command::SetPresetTime { idx: 1, secs: 933_300 });
    assert_eq!(preset_enabled_command(1, true), Command::SetPresetEnabled { idx: 1, enabled: true });
}

#[test]
fn api_bodies() {
    assert_eq!(error_body("bad body"), "{\"error\":\"bad body\"}");
    assert_eq!(body_len(None), None);
    assert_eq!(body_len(Some(0)), None);
    assert_eq!(body_len(Some(10)), Some(10));
    assert_eq!(body_len(Some(256)), Some(256));
    assert_eq!(body_len(Some(257)), None);
    assert_eq!(default_mqtt_port(), 1883);
    assert!(wifi_request_ok("home"));
    assert!(!wifi_request_ok(""));
    assert!(mqtt_request_ok("broker"));
    assert!(!mqtt_request_ok(""));
    assert!(!sta_needs_password(""));
    assert!(sta_needs_password("secret"));
}

#[test]
fn stored_settings() {
    assert_eq!(stored_creds(None, Some("p".into())), None);
    assert_eq!(stored_creds(Some(String::new()), None), None);
    assert_eq!(stored_creds(Some("net".into()), None), Some(("net".to_string(), String::new())));
    let c = stored_mqtt(Some("h".into()), Some("1884".into()), None, Some("x".into())).unwrap();
    assert_eq!((c.host.as_str(), c.port, c.user.as_str(), c.pass.as_str()), ("h", 1884, "", "x"));
    assert_eq!(stored_mqtt(Some("h".into()), Some("70000".into()), None, None).unwrap().port, 1883);
    assert_eq!(stored_mqtt(Some("h".into()), Some("abc".into()), None, None).unwrap().port, 1883);
    assert_eq!(stored_mqtt(Some("h".into()), None, None, None).unwrap().port, 1883);
    assert!(stored_mqtt(Some(String::new()), None, None, None).is_none());
    assert!(stored_mqtt(None, None, None, None).is_none());
}

#[test]
fn stored_mqtt_round_trip() {
    for port in [0u16, 1, 1883, 8883, 65535] {
        let c = stored_mqtt(
            Some("broker.lan".into()),
            Some(decimal_string(port as u64)),
            Some("user".into()),
            Some("pw".into()),
        )
        .unwrap();
        assert_eq!((c.host.as_str(), c.port, c.user.as_str(), c.pass.as_str()), ("broker.lan", port, "user", "pw"));
    }
}

#[test]
fn state_snapshot() {
    let mut s = new_shared();
    s.now_secs = 45_296;
    s.phase = Phase::Armed;
    let r = state_report(&s);
    assert_eq!(r.phase, "armed");
    assert_eq!(r.now, "12:34:56");
    assert_eq!(r.snooze_secs, 10);
    assert_eq!(r.presets.len(), 3);
    assert_eq!(r.presets[0].idx, 0);
    assert_eq!(r.presets[0].label, "Wake");
    assert_eq!(r.presets[0].time, "07:00:00");
    assert!(r.presets[0].enabled);
    let rows = preset_values(&s.settings.presets);
    assert_eq!(rows[2].time, "13:00:00");
    assert!(!rows[2].enabled);
}
