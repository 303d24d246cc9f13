use butterfly::behavior::{
    in_trigger_zone, rest_angle_for, sync_period_ms, tof_period_ms, udp_announcement, Announcement, RotationWindow,
    SenderPlan, SyncSender, TestModeAction, TestModeState, TestModeTick,
};
use butterfly::json::JsonValue;
use butterfly::protocol::sta::{StaContext, StaState};

fn s(v: &str) -> JsonValue {
    JsonValue::Str(v.to_string())
}

fn obj(members: Vec<(&str, JsonValue)>) -> JsonValue {
    JsonValue::Object(members.into_iter().map(|(k, v)| (k.to_string(), v)).collect())
}

#[test]
fn trigger_zone_bounds() {
    assert!(!in_trigger_zone(0));
    assert!(!in_trigger_zone(19));
    assert!(in_trigger_zone(20));
    assert!(in_trigger_zone(109));
    assert!(!in_trigger_zone(110));
}

#[test]
fn flap_period_by_distance() {
    assert_eq!(tof_period_ms(20), 300);
    assert_eq!(tof_period_ms(60), 300);
    assert_eq!(tof_period_ms(61), 334);
    assert_eq!(tof_period_ms(85), 1150);
    assert_eq!(tof_period_ms(109), 1966);
    assert_eq!(tof_period_ms(110), 2000);
    assert_eq!(sync_period_ms(), 1150);
}

#[test]
fn closer_is_never_slower() {
    let mut last = 0;
    for d in 20..=110u16 {
        let p = tof_period_ms(d);
        assert!(p >= last);
        last = p;
    }
}

#[test]
fn rest_angle_nearest_end() {
    assert_eq!(rest_angle_for(25), 25);
    assert_eq!(rest_angle_for(76), 25);
    assert_eq!(rest_angle_for(77), 130);
    assert_eq!(rest_angle_for(130), 130);
}

#[test]
fn test_mode_sequence() {
    let mut st = TestModeState::new();
    // nothing near: park at the default once, then hold
    assert_eq!(st.step(false, true, 500, true), TestModeTick { action: TestModeAction::ParkDefault, remote: None });
    assert_eq!(st.step(false, true, 0, true), TestModeTick { action: TestModeAction::Hold, remote: None });
    // someone approaches: flap, and ask the paired peer once
    assert_eq!(
        st.step(false, true, 50, true),
        TestModeTick { action: TestModeAction::Flap { period_ms: 300 }, remote: Some(true) }
    );
    assert_eq!(
        st.step(false, true, 85, true),
        TestModeTick { action: TestModeAction::Flap { period_ms: 1150 }, remote: None }
    );
    // they leave: rest at the nearer end and ask the peer to stop
    assert_eq!(st.step(false, true, 200, true), TestModeTick { action: TestModeAction::ParkNearest, remote: Some(false) });
    assert_eq!(st.step(false, true, 200, true), TestModeTick { action: TestModeAction::Hold, remote: None });
}

#[test]
fn test_mode_yields_to_remote_sync_and_switch() {
    let mut st = TestModeState::new();
    let _ = st.step(false, true, 50, false);
    assert!(st.was_triggered);
    assert_eq!(st.step(true, true, 50, true), TestModeTick { action: TestModeAction::Skip, remote: Some(false) });
    assert!(!st.was_triggered);
    assert_eq!(st.step(false, false, 50, true), TestModeTick { action: TestModeAction::Skip, remote: None });
    // unpaired flapping never involves the peer
    assert_eq!(st.step(false, true, 50, false).remote, None);
    assert_eq!(st.step(false, true, 500, false), TestModeTick { action: TestModeAction::ParkNearest, remote: None });
}

#[test]
fn rotation_window_every_ten_seconds() {
    let mut state = StaState::new();
    let mut w = RotationWindow::new();
    // the first trigger needs 10 s since time 0
    assert_eq!(w.tick(5_000, &mut state), (false, false));
    assert_eq!(w.tick(10_000, &mut state), (false, true));
    assert_eq!(w.until_ms, Some(10_400));
    assert_eq!(w.tick(10_200, &mut state), (false, false));
    assert_eq!(w.tick(10_400, &mut state), (true, false));
    assert_eq!(w.until_ms, None);
    assert_eq!(w.tick(19_999, &mut state), (false, false));
    assert_eq!(w.tick(20_000, &mut state), (false, true));
    // triggered twice: the count shows in the pair status
    let ctx = StaContext {
        device_id: "me".to_string(),
        has_servo: false,
        has_servo2: false,
        servo_angle: 90,
        peer_addr: None,
    };
    match state.process_sta_command(&Some(obj(vec![("cmd", s("get_pair_status"))])), &ctx) {
        butterfly::protocol::sta::StaStep::Respond {
            reply: butterfly::protocol::sta::StaReply::PairStatus { triggered_count, .. },
            ..
        } => assert_eq!(triggered_count, 2),
        _ => panic!("expected pair status"),
    }
}

#[test]
fn sync_sender_until_acknowledged() {
    let mut tx = SyncSender::new();
    let peer = Some("peer".to_string());
    let ip = Some("10.0.0.2".to_string());
    // not paired: nothing to do
    assert!(matches!(tx.plan(true, &None, &ip), SenderPlan::Disconnect));
    // paired: connect first
    match tx.plan(true, &peer, &ip) {
        SenderPlan::Connect { ip } => assert_eq!(ip, "10.0.0.2"),
        _ => panic!("expected to connect"),
    }
    tx.connected(true);
    assert!(matches!(tx.plan(true, &peer, &ip), SenderPlan::Send));
    let line = tx.request_line(true);
    assert_eq!(line, r#"{"cmd":"sync_start","req_id":1}"#);
    // a reply for another request does not count, and drops the connection
    let wrong = obj(vec![("status", s("ok")), ("ack", s("sync_start")), ("req_id", JsonValue::UInt(5))]);
    assert!(!tx.on_reply(true, true, &Some(wrong)));
    assert!(matches!(tx.plan(true, &peer, &ip), SenderPlan::Connect { .. }));
    tx.connected(true);
    let line = tx.request_line(true);
    assert_eq!(line, r#"{"cmd":"sync_start","req_id":2}"#);
    let ack = obj(vec![("status", s("ok")), ("ack", s("sync_start")), ("req_id", JsonValue::UInt(2))]);
    assert!(tx.on_reply(true, true, &Some(ack)));
    assert!(matches!(tx.plan(true, &peer, &ip), SenderPlan::Idle));
    // the wish changes: the stop request follows on the same connection
    assert!(matches!(tx.plan(false, &peer, &ip), SenderPlan::Send));
    assert_eq!(tx.request_line(false), r#"{"cmd":"sync_stop","req_id":3}"#);
    assert!(!tx.on_reply(false, false, &None));
    assert!(matches!(tx.plan(false, &peer, &ip), SenderPlan::Connect { .. }));
}

#[test]
fn announcements() {
    let mut state = StaState::new();
    assert!(matches!(udp_announcement(&state), Announcement::Hello));
    state.restore(true, Some("phone".to_string()), None, None);
    assert!(matches!(udp_announcement(&state), Announcement::Heartbeat));
    state.set_bind_token(Some("tok".to_string()));
    match udp_announcement(&state) {
        Announcement::Binding { token } => assert_eq!(token, "tok"),
        _ => panic!("expected the binding announcement"),
    }
}

#[test]
fn sync_sender_reads_answer_lines() {
    let mut tx = SyncSender::new();
    let peer = Some("peer".to_string());
    let ip = Some("10.0.0.2".to_string());
    assert!(matches!(tx.plan(true, &peer, &ip), SenderPlan::Connect { .. }));
    tx.connected(true);
    let _ = tx.request_line(true);
    assert!(!tx.on_reply_line(true, true, b"   "));
    tx.connected(true);
    let _ = tx.request_line(true);
    assert!(tx.on_reply_line(true, true, br#" {"status":"ok","ack":"sync_start","req_id":2} "#));
    assert!(matches!(tx.plan(true, &peer, &ip), SenderPlan::Idle));
}
