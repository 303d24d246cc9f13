use butterfly::json::JsonValue;
use butterfly::protocol::ap::{
    config_connecting_line, config_internal_error_line, config_request, process_ap_line, process_ap_message, ApLine,
};
use butterfly::protocol::line::{line_text, take_line_byte};
use butterfly::protocol::sta::{pair_reply_exchange, PeerExchange, StaContext, StaEffect, StaReply, StaState, StaStep};
use butterfly::wifi::WifiCommand;

fn s(v: &str) -> JsonValue {
    JsonValue::Str(v.to_string())
}

fn obj(members: Vec<(&str, JsonValue)>) -> JsonValue {
    JsonValue::Object(members.into_iter().map(|(k, v)| (k.to_string(), v)).collect())
}

fn cmd(name: &str, mut rest: Vec<(&str, JsonValue)>) -> Option<JsonValue> {
    let mut members = vec![("cmd", s(name))];
    members.append(&mut rest);
    Some(obj(members))
}

fn ctx(peer: Option<&str>) -> StaContext {
    StaContext {
        device_id: "aa:bb:cc:dd:ee:01".to_string(),
        has_servo: true,
        has_servo2: true,
        servo_angle: 100,
        peer_addr: peer.map(|p| p.to_string()),
    }
}

fn reply_of(step: StaStep) -> (Vec<StaEffect>, StaReply) {
    match step {
        StaStep::Respond { effects, reply } => (effects, reply),
        _ => panic!("expected a direct answer"),
    }
}

fn error_code(r: &StaReply) -> String {
    match r {
        StaReply::Error { code, .. } => code.clone(),
        _ => panic!("expected an error"),
    }
}

#[test]
fn ap_identify_and_errors() {
    let (line, stop) = process_ap_message(&cmd("identify", vec![]), "aa:bb", "1.0.0");
    assert_eq!(line, r#"{"deviceId":"aa:bb","fw":"1.0.0"}"#);
    assert!(!stop);
    let (line, _) = process_ap_message(&None, "aa:bb", "1.0.0");
    assert_eq!(line, r#"{"status":"error","reason":"invalid json"}"#);
    let (line, _) = process_ap_message(&cmd("reboot", vec![]), "aa:bb", "1.0.0");
    assert_eq!(line, r#"{"status":"error","reason":"unknown cmd"}"#);
    let (line, _) = process_ap_message(&Some(obj(vec![])), "aa:bb", "1.0.0");
    assert_eq!(line, r#"{"status":"error","reason":"unknown cmd"}"#);
    assert_eq!(config_connecting_line(), r#"{"status":"connecting"}"#);
    assert_eq!(config_internal_error_line(), r#"{"status":"error","reason":"internal"}"#);
}

#[test]
fn ap_config_request_fields() {
    let v = obj(vec![
        ("cmd", s("config")),
        ("ssid", s("Home")),
        ("pwd", s("secret")),
        ("sec", JsonValue::UInt(4)),
        ("phone", s("tok-123")),
    ]);
    let r = config_request(&v);
    assert_eq!(r.bind_token, Some("tok-123".to_string()));
    match r.command {
        WifiCommand::Connect { ssid, password, username, auth } => {
            assert_eq!(ssid, "Home");
            assert_eq!(password, Some("secret".to_string()));
            assert_eq!(username, None);
            assert_eq!(auth, "wpa3");
        }
        other => panic!("unexpected {:?}", other),
    }
    // defaults: empty SSID, no password, sec 3 (wpa2); sec wraps modulo 256
    let r = config_request(&obj(vec![("cmd", s("config")), ("sec", JsonValue::UInt(256))]));
    assert_eq!(r.bind_token, None);
    match r.command {
        WifiCommand::Connect { ssid, password, auth, .. } => {
            assert_eq!(ssid, "");
            assert_eq!(password, None);
            assert_eq!(auth, "open");
        }
        other => panic!("unexpected {:?}", other),
    }
    let r = config_request(&obj(vec![("cmd", s("config"))]));
    match r.command {
        WifiCommand::Connect { auth, .. } => assert_eq!(auth, "wpa2"),
        other => panic!("unexpected {:?}", other),
    }
}

#[test]
fn line_framing() {
    let mut line = Vec::new();
    let mut done = false;
    for &b in b"{\"a\":1}\r\nrest" {
        if take_line_byte(&mut line, b) {
            done = true;
            break;
        }
    }
    assert!(done);
    assert_eq!(line, b"{\"a\":1}".to_vec());
    assert_eq!(line_text(b"  hello \t"), "  hello \t");
    assert_eq!(line_text(&[0x66, 0xFF]), "f\u{FFFD}");
}

#[test]
fn sta_invalid_and_unknown() {
    let mut st = StaState::new();
    let (e, r) = reply_of(st.process_sta_command(&None, &ctx(None)));
    assert!(e.is_empty());
    assert_eq!(error_code(&r), "invalid_json");
    let (_, r) = reply_of(st.process_sta_command(&cmd("dance", vec![]), &ctx(None)));
    assert_eq!(error_code(&r), "unknown_cmd");
    let (_, r) = reply_of(st.process_sta_command(&Some(obj(vec![])), &ctx(None)));
    assert_eq!(error_code(&r), "unknown_cmd");
}

#[test]
fn sta_bind_then_unbind() {
    let mut st = StaState::new();
    st.set_bind_token(Some("tok".to_string()));
    let (e, r) = reply_of(st.process_sta_command(&cmd("bind", vec![("phone", s("phone-7"))]), &ctx(None)));
    assert!(matches!(r, StaReply::Success));
    assert_eq!(e.len(), 1);
    assert!(matches!(&e[0], StaEffect::SaveBinding { bound: true, phone_id: Some(p) } if p == "phone-7"));
    assert_eq!(st.binding(), (true, Some("phone-7".to_string())));
    assert_eq!(st.bind_token(), None);
    let (e, _) = reply_of(st.process_sta_command(&cmd("unbind", vec![]), &ctx(None)));
    assert!(matches!(&e[0], StaEffect::SaveBinding { bound: false, phone_id: None }));
    assert_eq!(st.binding(), (false, None));
}

#[test]
fn sta_pair_request_queue_then_accept() {
    let mut st = StaState::new();
    let (_, r) = reply_of(st.process_sta_command(
        &cmd("pair_request", vec![("from_device_id", s("dev-A"))]),
        &ctx(Some("192.168.1.20:50000")),
    ));
    assert!(matches!(r, StaReply::PendingQueued));
    assert_eq!(st.pending_count(), 1);
    let (_, r) = reply_of(st.process_sta_command(&cmd("get_pending_pair_requests", vec![]), &ctx(None)));
    match r {
        StaReply::PendingList(list) => {
            assert_eq!(list, vec![("dev-A".to_string(), "192.168.1.20".to_string())]);
        }
        _ => panic!("expected the pending list"),
    }
    let (e, r) = reply_of(st.process_sta_command(
        &cmd("accept_pair", vec![("from_device_id", s("dev-A"))]),
        &ctx(None),
    ));
    assert!(matches!(r, StaReply::Success));
    assert_eq!(e.len(), 2);
    assert!(matches!(&e[0], StaEffect::SavePair { paired_with: Some(p), peer_ip: Some(ip) }
        if p == "dev-A" && ip == "192.168.1.20"));
    assert!(matches!(&e[1], StaEffect::NotifyPairAccepted { ip } if ip == "192.168.1.20"));
    assert_eq!(st.pairing(), (Some("dev-A".to_string()), Some("192.168.1.20".to_string())));
    assert_eq!(st.pending_count(), 0);
    // a second accept finds nothing
    let (_, r) = reply_of(st.process_sta_command(
        &cmd("accept_pair", vec![("from_device_id", s("dev-A"))]),
        &ctx(None),
    ));
    assert_eq!(error_code(&r), "pending_not_found");
}

#[test]
fn sta_pair_request_without_address_or_ids() {
    let mut st = StaState::new();
    let _ = st.process_sta_command(&cmd("pair_request", vec![("from_device_id", s("dev-B"))]), &ctx(None));
    let (_, r) = reply_of(st.process_sta_command(&cmd("get_pending_pair_requests", vec![]), &ctx(None)));
    match r {
        StaReply::PendingList(list) => assert_eq!(list, vec![("dev-B".to_string(), "0.0.0.0".to_string())]),
        _ => panic!("expected the pending list"),
    }
    let (_, r) = reply_of(st.process_sta_command(&cmd("pair_request", vec![]), &ctx(None)));
    assert_eq!(error_code(&r), "missing_target_ip_or_from_device_id");
}

#[test]
fn sta_queue_keeps_one_request_per_device_and_at_most_64() {
    let mut st = StaState::new();
    for i in 0..70 {
        let id = format!("dev-{}", i);
        let _ = st.process_sta_command(&cmd("pair_request", vec![("from_device_id", s(&id))]), &ctx(None));
    }
    assert_eq!(st.pending_count(), 64);
    // re-requesting moves the device to the end, without a duplicate
    let _ = st.process_sta_command(&cmd("pair_request", vec![("from_device_id", s("dev-10"))]), &ctx(None));
    assert_eq!(st.pending_count(), 64);
    let (_, r) = reply_of(st.process_sta_command(&cmd("get_pending_pair_requests", vec![]), &ctx(None)));
    match r {
        StaReply::PendingList(list) => {
            assert_eq!(list.first().unwrap().0, "dev-6");
            assert_eq!(list.last().unwrap().0, "dev-10");
            assert_eq!(list.iter().filter(|(id, _)| id == "dev-10").count(), 1);
        }
        _ => panic!("expected the pending list"),
    }
}

#[test]
fn sta_reject_drops_request() {
    let mut st = StaState::new();
    let _ = st.process_sta_command(&cmd("pair_request", vec![("from_device_id", s("x"))]), &ctx(None));
    let _ = st.process_sta_command(&cmd("pair_request", vec![("from_device_id", s("y"))]), &ctx(None));
    let (_, r) = reply_of(st.process_sta_command(&cmd("reject_pair", vec![("from_device_id", s("x"))]), &ctx(None)));
    assert!(matches!(r, StaReply::Success));
    assert_eq!(st.pending_count(), 1);
    let (_, r) = reply_of(st.process_sta_command(&cmd("accept_pair", vec![("from_device_id", s("x"))]), &ctx(None)));
    assert_eq!(error_code(&r), "pending_not_found");
}

#[test]
fn sta_pair_status_and_unpair() {
    let mut st = StaState::new();
    st.restore(false, None, Some("peer-1".to_string()), Some("10.0.0.9".to_string()));
    let (_, r) = reply_of(st.process_sta_command(&cmd("get_pair_status", vec![]), &ctx(None)));
    match r {
        StaReply::PairStatus { paired_with, peer_ip, triggered_count } => {
            assert_eq!(paired_with, "peer-1");
            assert_eq!(peer_ip, "10.0.0.9");
            assert_eq!(triggered_count, 0);
        }
        _ => panic!("expected pair status"),
    }
    let (e, r) = reply_of(st.process_sta_command(&cmd("unpair", vec![]), &ctx(None)));
    assert!(matches!(r, StaReply::Success));
    assert!(matches!(&e[0], StaEffect::SavePair { paired_with: None, peer_ip: None }));
    assert!(matches!(&e[1], StaEffect::NotifyUnpair { ip } if ip == "10.0.0.9"));
    assert_eq!(st.pairing(), (None, None));
    let (_, r) = reply_of(st.process_sta_command(&cmd("get_pair_status", vec![]), &ctx(None)));
    assert!(matches!(r, StaReply::PairStatus { paired_with, .. } if paired_with.is_empty()));
}

#[test]
fn sta_pair_accepted_and_unpair_notify() {
    let mut st = StaState::new();
    let (e, _) = reply_of(st.process_sta_command(
        &cmd("pair_accepted", vec![("device_id", s("peer-2"))]),
        &ctx(Some("10.1.1.1:12345")),
    ));
    assert!(matches!(&e[0], StaEffect::SavePair { paired_with: Some(p), peer_ip: Some(ip) }
        if p == "peer-2" && ip == "10.1.1.1"));
    let _ = st.process_sta_command(
        &cmd("pair_accepted", vec![("device_id", s("peer-2")), ("peer_ip", s("10.1.1.2"))]),
        &ctx(Some("10.1.1.1:12345")),
    );
    assert_eq!(st.pairing(), (Some("peer-2".to_string()), Some("10.1.1.2".to_string())));
    let (_, r) = reply_of(st.process_sta_command(&cmd("pair_accepted", vec![]), &ctx(None)));
    assert_eq!(error_code(&r), "missing_device_id");
    let (_, r) = reply_of(st.process_sta_command(&cmd("unpair_notify", vec![]), &ctx(None)));
    assert_eq!(error_code(&r), "missing_device_id");
    let (e, _) = reply_of(st.process_sta_command(&cmd("unpair_notify", vec![("device_id", s("peer-2"))]), &ctx(None)));
    assert_eq!(e.len(), 1);
    assert_eq!(st.pairing(), (None, None));
}

#[test]
fn sta_servo_commands() {
    let mut st = StaState::new();
    match st.process_sta_command(&cmd("move_servo", vec![("angle", JsonValue::UInt(400))]), &ctx(None)) {
        StaStep::MoveServo { servo2, angle } => {
            assert!(!servo2);
            assert_eq!(angle, 300);
        }
        _ => panic!("expected a servo move"),
    }
    match st.process_sta_command(
        &cmd("move_servo", vec![("servo", JsonValue::UInt(1)), ("angle", JsonValue::UInt(200))]),
        &ctx(None),
    ) {
        StaStep::MoveServo { servo2, angle } => {
            assert!(servo2);
            assert_eq!(angle, 180);
        }
        _ => panic!("expected a servo move"),
    }
    match st.process_sta_command(&cmd("move_servo", vec![]), &ctx(None)) {
        StaStep::MoveServo { servo2: false, angle: 90 } => {}
        _ => panic!("expected the default move"),
    }
    let mut no_servo = ctx(None);
    no_servo.has_servo = false;
    let (_, r) = reply_of(st.process_sta_command(&cmd("demo_servo", vec![]), &no_servo));
    assert_eq!(error_code(&r), "servo_unavailable");
    assert!(matches!(st.process_sta_command(&cmd("demo_servo", vec![]), &ctx(None)), StaStep::DemoServo));
}

#[test]
fn sta_sync_start_and_stop() {
    let mut st = StaState::new();
    match st.process_sta_command(&cmd("sync_start", vec![("req_id", JsonValue::UInt(7))]), &ctx(None)) {
        StaStep::SpawnSync { effects, req_id } => {
            assert_eq!(req_id, Some(7));
            assert!(matches!(effects.as_slice(), [StaEffect::SetServo2(90)]));
        }
        _ => panic!("expected the sync task to start"),
    }
    assert!(st.is_sync_running());
    let r = st.finish_sync_start(true, Some(7));
    assert!(matches!(r, StaReply::Ack { ack: "sync_start", req_id: Some(7) }));
    // already running: only acknowledged
    let (_, r) = reply_of(st.process_sta_command(&cmd("sync_start", vec![("req", JsonValue::UInt(8))]), &ctx(None)));
    assert!(matches!(r, StaReply::Ack { ack: "sync_start", req_id: Some(8) }));
    let (e, r) = reply_of(st.process_sta_command(&cmd("sync_stop", vec![("req_id", JsonValue::UInt(9))]), &ctx(None)));
    assert!(matches!(r, StaReply::Ack { ack: "sync_stop", req_id: Some(9) }));
    // servo 1 rests at the nearer end (angle 100 is nearer 130), servo 2 stops
    assert!(matches!(e.as_slice(), [StaEffect::SetServo(130), StaEffect::SetServo2(90)]));
    assert!(!st.is_sync_running());
    // a failed spawn clears the flag again
    let _ = st.process_sta_command(&cmd("sync_start", vec![]), &ctx(None));
    let r = st.finish_sync_start(false, None);
    assert_eq!(error_code(&r), "sync_spawn_failed");
    assert!(!st.is_sync_running());
}

#[test]
fn sta_wifi_list_update() {
    let mut st = StaState::new();
    let nets = JsonValue::Array(vec![
        obj(vec![("ssid", s("Home")), ("pwd", s("pw")), ("sec", JsonValue::UInt(4))]),
        obj(vec![("pwd", s("nossid"))]),
        s("junk"),
        obj(vec![("ssid", s("Open"))]),
    ]);
    let (_, r) = reply_of(st.process_sta_command(&cmd("update_wifi_list", vec![("networks", nets)]), &ctx(None)));
    assert!(matches!(r, StaReply::Success));
    assert_eq!(st.wifi_networks(), 2);
    let (_, r) = reply_of(st.process_sta_command(&cmd("update_wifi_list", vec![]), &ctx(None)));
    assert_eq!(error_code(&r), "missing_networks");
}

#[test]
fn sta_outgoing_pair_request() {
    let mut st = StaState::new();
    match st.process_sta_command(
        &cmd("pair_request", vec![("target_ip", s("10.0.0.5")), ("target_device_id", s("dev-T"))]),
        &ctx(None),
    ) {
        StaStep::AskPeer { target_ip, target_device_id } => {
            assert_eq!(target_ip, "10.0.0.5");
            assert_eq!(target_device_id, "dev-T");
        }
        _ => panic!("expected to ask the target"),
    }
    let (e, r) = st.finish_pair_request("10.0.0.5", "dev-T", &PeerExchange::ConnectFailed);
    assert!(e.is_empty());
    assert_eq!(error_code(&r), "connect_target_failed");
    let pending = obj(vec![("status", s("ok")), ("message", s("pending"))]);
    let (_, r) = st.finish_pair_request("10.0.0.5", "dev-T", &PeerExchange::Reply(pending));
    assert!(matches!(r, StaReply::Pending));
    assert_eq!(st.pairing(), (None, Some("10.0.0.5".to_string())));
    let accepted = obj(vec![("status", s("ok")), ("message", s("pair_accepted")), ("peer_ip", s(""))]);
    let (e, r) = st.finish_pair_request("10.0.0.5", "dev-T", &PeerExchange::Reply(accepted));
    assert!(matches!(&r, StaReply::PairAccepted { peer_ip } if peer_ip == "10.0.0.5"));
    assert_eq!(e.len(), 1);
    assert!(matches!(&e[0], StaEffect::SavePair { paired_with: Some(p), peer_ip: Some(ip) }
        if p == "dev-T" && ip == "10.0.0.5"));
    assert_eq!(st.pairing(), (Some("dev-T".to_string()), Some("10.0.0.5".to_string())));
    let refused = obj(vec![("status", s("error")), ("message", s("busy"))]);
    let (_, r) = st.finish_pair_request("10.0.0.5", "dev-T", &PeerExchange::Reply(refused));
    match r {
        StaReply::Error { code, message } => {
            assert_eq!(code, "target_error");
            assert_eq!(message, "busy");
        }
        _ => panic!("expected an error"),
    }
    let odd = obj(vec![("status", s("ok"))]);
    let (_, r) = st.finish_pair_request("10.0.0.5", "dev-T", &PeerExchange::Reply(odd));
    assert_eq!(error_code(&r), "unexpected_target_response");
}

#[test]
fn sta_exchange_failures_and_servo_errors() {
    let mut st = StaState::new();
    let (_, r) = st.finish_pair_request("bad ip", "dev-T", &PeerExchange::InvalidAddress);
    assert_eq!(error_code(&r), "invalid_target_addr");
    let (_, r) = st.finish_pair_request("10.0.0.5", "dev-T", &PeerExchange::EmptyReply);
    assert_eq!(error_code(&r), "empty_target_response");
    let (_, r) = st.finish_pair_request("10.0.0.5", "dev-T", &PeerExchange::InvalidReply);
    assert_eq!(error_code(&r), "invalid_target_response");
    let coded = obj(vec![("status", s("error")), ("code", s("busy")), ("reason", s("try later"))]);
    match st.finish_pair_request("10.0.0.5", "dev-T", &PeerExchange::Reply(coded)) {
        (_, StaReply::Error { code, message }) => {
            assert_eq!(code, "busy");
            assert_eq!(message, "try later");
        }
        _ => panic!("expected an error"),
    }
    assert_eq!(st.pairing(), (None, None));
    match butterfly::protocol::sta::servo_reply(Err("Failed to set servo duty".to_string())) {
        StaReply::Error { code, message } => {
            assert_eq!(code, "servo_error");
            assert_eq!(message, "Failed to set servo duty");
        }
        _ => panic!("expected an error"),
    }
    assert!(matches!(butterfly::protocol::sta::servo_reply(Ok(())), StaReply::Success));
    assert_eq!(butterfly::protocol::sta::host_of("192.168.4.2:5000"), "192.168.4.2");
    assert_eq!(butterfly::protocol::sta::host_of("nocolon"), "nocolon");
}

#[test]
fn ap_lines_are_parsed() {
    match process_ap_line(r#"{"cmd":"identify"}"#, "aa:bb", "1.0.0") {
        ApLine::Answer(a) => assert_eq!(a, r#"{"deviceId":"aa:bb","fw":"1.0.0"}"#),
        _ => panic!("expected an answer"),
    }
    match process_ap_line("not json", "aa:bb", "1.0.0") {
        ApLine::Answer(a) => assert_eq!(a, r#"{"status":"error","reason":"invalid json"}"#),
        _ => panic!("expected an answer"),
    }
    match process_ap_line(r#"{"cmd":"config","ssid":"Home","pwd":"pw","sec":2,"phone":"t"}"#, "aa:bb", "1.0.0") {
        ApLine::Config(req) => {
            assert_eq!(req.bind_token, Some("t".to_string()));
            match req.command {
                WifiCommand::Connect { ssid, password, auth, .. } => {
                    assert_eq!(ssid, "Home");
                    assert_eq!(password, Some("pw".to_string()));
                    assert_eq!(auth, "wpa");
                }
                other => panic!("unexpected {:?}", other),
            }
        }
        _ => panic!("expected a config request"),
    }
}

#[test]
fn sta_lines_are_parsed() {
    let mut st = StaState::new();
    let (_, r) = reply_of(st.process_sta_line(r#"{"cmd":"bind","phone":"p-1"}"#, &ctx(None)));
    assert!(matches!(r, StaReply::Success));
    assert_eq!(st.binding(), (true, Some("p-1".to_string())));
    let (_, r) = reply_of(st.process_sta_line("{oops", &ctx(None)));
    assert_eq!(error_code(&r), "invalid_json");
    match st.process_sta_line(r#"{"cmd":"move_servo","angle":-3}"#, &ctx(None)) {
        StaStep::MoveServo { servo2: false, angle: 90 } => {}
        _ => panic!("a negative angle is no u64: the default applies"),
    }
}

#[test]
fn target_answer_lines() {
    assert!(matches!(pair_reply_exchange(b""), PeerExchange::EmptyReply));
    assert!(matches!(pair_reply_exchange(b"nope"), PeerExchange::InvalidReply));
    match pair_reply_exchange(br#"{"status":"ok","message":"pending"}"#) {
        PeerExchange::Reply(v) => {
            assert_eq!(butterfly::json::get_str(&v, "message"), Some("pending"));
        }
        _ => panic!("expected a reply"),
    }
}
