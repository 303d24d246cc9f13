use butterfly::text::escape_json;
use butterfly::web::{
    checked_connect_command,
    connect_body_is_parsable, connect_command, distance_json, extract_is_defined, extract_json_string,
    fallback_redirect_url, hardware_status_json, ipv4_to_string, parse_angle, parse_connect_body, requested_angle,
    servo_angle_json, servo_set_reply, stop_ap_reply, test_mode_json, test_mode_requested, wifi_connect_reply,
    wifi_scan_json, wifi_scan_reply, wifi_status_reply, CaptivePortal, HardwareStatus,
};
use std::cell::Cell;
use butterfly::wifi::{ApEntry, StaInfo, WifiCommand, WifiResponse};

#[test]
fn angle_from_servo_body() {
    assert_eq!(parse_angle(r#"{"angle": 120}"#), Some(120));
    assert_eq!(parse_angle(r#"{"angle":0}"#), Some(0));
    assert_eq!(parse_angle(r#"{"angle":"45"}"#), Some(45));
    assert_eq!(parse_angle(r#"{"speed":3}"#), None);
    assert_eq!(parse_angle(r#"{"angle"}"#), None);
    assert_eq!(parse_angle(r#"{"angle":"abc"}"#), None);
    // digits beyond u16 do not parse
    assert_eq!(parse_angle(r#"{"angle":70000}"#), None);
    assert_eq!(parse_angle(r#"{"angle":65535}"#), Some(65535));
    // the first run of digits after the colon counts, whatever precedes it
    assert_eq!(parse_angle(r#"{"angle":-5}"#), Some(5));
    assert_eq!(parse_angle(r#"{"angle":12x34}"#), Some(12));
}

#[test]
fn requested_angle_falls_back_to_current() {
    assert_eq!(requested_angle(r#"{"angle":30}"#, 90), 30);
    assert_eq!(requested_angle("{}", 90), 90);
}

#[test]
fn escape_json_escapes_quotes_and_controls() {
    assert_eq!(escape_json("a\"b\\c\nd\re\tf"), "a\\\"b\\\\c\\nd\\re\\tf");
    assert_eq!(escape_json("plain é"), "plain é");
    assert_eq!(escape_json(""), "");
}

#[test]
fn connect_body_members() {
    let body = r#"{ "ssid": "Home Net", "password": "p\"w", "auth": "wpa3" }"#;
    assert!(connect_body_is_parsable(body));
    let (ssid, password, username, auth) = parse_connect_body(body);
    // whitespace is removed everywhere, also inside values
    assert_eq!(ssid, "HomeNet");
    assert_eq!(password, Some("p\"w".to_string()));
    assert_eq!(username, None);
    assert_eq!(auth, "wpa3");
}

#[test]
fn connect_body_defaults() {
    let (ssid, password, username, auth) = parse_connect_body("{}");
    assert_eq!(ssid, "");
    assert_eq!(password, None);
    assert_eq!(username, None);
    assert_eq!(auth, "wpa2");
    let (_, _, username, _) = parse_connect_body(r#"{"username":"eve"}"#);
    assert_eq!(username, Some("eve".to_string()));
}

#[test]
fn extract_handles_escapes_and_missing_quote() {
    assert_eq!(extract_json_string(r#"{"ssid":"a\\b"}"#, "ssid"), Some("a\\b".to_string()));
    assert_eq!(extract_json_string(r#"{"ssid":"abc"#, "ssid"), Some(String::new()));
    assert_eq!(extract_json_string(r#"{"ssid":5}"#, "ssid"), None);
}

#[test]
fn extract_refuses_to_split_a_character() {
    // the closing quote's character index falls inside the two-byte 'é'
    assert!(!extract_is_defined(r#"{"ssid":"é"}"#, "ssid"));
    assert!(!connect_body_is_parsable(r#"{"ssid":"é"}"#));
    assert!(extract_is_defined(r#"{"ssid":"ab"}"#, "ssid"));
    assert!(extract_is_defined(r#"{"other":"é"}"#, "ssid"));
}

#[test]
fn connect_command_from_body() {
    match connect_command(r#"{"ssid":"Cafe","password":"1234"}"#) {
        WifiCommand::Connect { ssid, password, username, auth } => {
            assert_eq!(ssid, "Cafe");
            assert_eq!(password, Some("1234".to_string()));
            assert_eq!(username, None);
            assert_eq!(auth, "wpa2");
        }
        other => panic!("unexpected {:?}", other),
    }
}

#[test]
fn scan_json_lists_networks() {
    let list = vec![
        ApEntry { ssid: "Home".to_string(), rssi: -40, auth: "wpa2".to_string() },
        ApEntry { ssid: "Q\"".to_string(), rssi: 5, auth: "open".to_string() },
    ];
    assert_eq!(
        wifi_scan_json(&list),
        r#"{"networks":[{"ssid":"Home","rssi":-40,"auth":"wpa2"},{"ssid":"Q\"","rssi":5,"auth":"open"}]}"#
    );
    assert_eq!(wifi_scan_json(&[]), r#"{"networks":[]}"#);
    let min = vec![ApEntry { ssid: String::new(), rssi: -128, auth: "wep".to_string() }];
    assert_eq!(wifi_scan_json(&min), r#"{"networks":[{"ssid":"","rssi":-128,"auth":"wep"}]}"#);
}

#[test]
fn scan_and_status_replies() {
    let scan = Some(WifiResponse::Scan(vec![ApEntry { ssid: "A".to_string(), rssi: -1, auth: "wpa".to_string() }]));
    assert_eq!(wifi_scan_reply(&scan), r#"{"networks":[{"ssid":"A","rssi":-1,"auth":"wpa"}]}"#);
    assert_eq!(wifi_scan_reply(&None), r#"{"networks":[]}"#);
    assert_eq!(wifi_scan_reply(&Some(WifiResponse::Status(None))), r#"{"networks":[]}"#);

    let sta = StaInfo { ip: "192.168.1.5".to_string(), ssid: "Home\"1".to_string() };
    assert_eq!(
        wifi_status_reply(&Some(WifiResponse::Status(Some(sta)))),
        r#"{"connected":true,"ip":"192.168.1.5","ssid":"Home\"1"}"#
    );
    assert_eq!(wifi_status_reply(&Some(WifiResponse::Status(None))), r#"{"connected":false}"#);
    assert_eq!(wifi_status_reply(&None), r#"{"connected":false}"#);
}

#[test]
fn connect_replies() {
    let ok = Some(WifiResponse::Connect(Ok(StaInfo { ip: "10.0.0.7".to_string(), ssid: "Home".to_string() })));
    let (code, reason, body) = wifi_connect_reply(&ok);
    assert_eq!((code, reason), (200, "OK"));
    assert_eq!(body, r#"{"ok":true,"ip":"10.0.0.7","ssid":"Home"}"#);

    let err = Some(WifiResponse::Connect(Err("bad \"pw\"".to_string())));
    let (code, reason, body) = wifi_connect_reply(&err);
    assert_eq!((code, reason), (400, "Error"));
    assert_eq!(body, r#"{"ok":false,"error":"bad \"pw\""}"#);

    let (code, reason, body) = wifi_connect_reply(&None);
    assert_eq!((code, reason), (500, "Error"));
    assert_eq!(body, r#"{"ok":false,"error":"timeout"}"#);
    let (code, _, _) = wifi_connect_reply(&Some(WifiResponse::StopAp(Ok(()))));
    assert_eq!(code, 500);
}

#[test]
fn stop_ap_replies() {
    assert_eq!(stop_ap_reply(&Some(WifiResponse::StopAp(Ok(())))), (200, "OK", r#"{"ok":true}"#.to_string()));
    assert_eq!(
        stop_ap_reply(&Some(WifiResponse::StopAp(Err("not running".to_string())))),
        (500, "OK", r#"{"ok":false,"error":"not running"}"#.to_string())
    );
    assert_eq!(stop_ap_reply(&None), (500, "OK", r#"{"ok":false,"error":"timeout"}"#.to_string()));
}

#[test]
fn hardware_bodies() {
    assert_eq!(hardware_status_json(120, 90, 45), r#"{"distance":120,"servo_angle":90,"servo2_angle":45}"#);
    assert_eq!(distance_json(0), r#"{"distance":0}"#);
    assert_eq!(servo_angle_json(300), r#"{"angle":300,"status":"ok"}"#);
}

#[test]
fn servo_post_replies() {
    assert_eq!(servo_set_reply(200, &Ok(())), (200, "OK", r#"{"ok":true,"angle":200}"#.to_string()));
    assert_eq!(
        servo_set_reply(10, &Err("servo unavailable".to_string())),
        (500, "Internal Server Error", r#"{"ok":false,"error":"servo unavailable"}"#.to_string())
    );
}

#[test]
fn test_mode_switch() {
    assert!(test_mode_requested(r#"{"on":true}"#));
    assert!(test_mode_requested(r#"{"on": true}"#));
    assert!(!test_mode_requested(r#"{"on":false}"#));
    assert!(!test_mode_requested(r#"{ "on" : true }"#));
    assert_eq!(test_mode_json(true), r#"{"ok":true,"on":true}"#);
    assert_eq!(test_mode_json(false), r#"{"ok":true,"on":false}"#);
}

#[test]
fn captive_portal_redirects() {
    let paths = CaptivePortal::redirect_paths();
    assert_eq!(paths.len(), 8);
    assert_eq!(paths[0], "/hotspot-detect.html");
    assert_eq!(paths[3], "/generate_204");
    assert_eq!(paths[7], "/fwlink");
    assert_eq!(CaptivePortal::redirect_url([192, 168, 71, 1]), "http://192.168.71.1");
    assert_eq!(fallback_redirect_url([192, 168, 71, 1]), "http://192.168.71.1/");
    assert_eq!(ipv4_to_string([0, 10, 255, 7]), "0.10.255.7");
}

#[test]
fn hardware_endpoints_read_and_set() {
    let set1 = Cell::new(0u16);
    let set2 = Cell::new(0u16);
    let hw = HardwareStatus {
        distance: || 87u16,
        servo_angle: || 90u16,
        servo_set: |a: u16| {
            set1.set(a);
            Ok(())
        },
        servo2_angle: || 45u16,
        servo2_set: |a: u16| {
            set2.set(a);
            Err("servo2 unavailable".to_string())
        },
    };
    assert_eq!(hw.status_body(), r#"{"distance":87,"servo_angle":90,"servo2_angle":45}"#);
    assert_eq!(hw.distance_body(), r#"{"distance":87}"#);
    assert_eq!(hw.servo_body(false), r#"{"angle":90,"status":"ok"}"#);
    assert_eq!(hw.servo_body(true), r#"{"angle":45,"status":"ok"}"#);
    assert_eq!(hw.post_servo(false, r#"{"angle":150}"#), (200, "OK", r#"{"ok":true,"angle":150}"#.to_string()));
    assert_eq!(set1.get(), 150);
    // no angle in the body: the current angle is applied again
    assert_eq!(hw.post_servo(false, "{}"), (200, "OK", r#"{"ok":true,"angle":90}"#.to_string()));
    assert_eq!(set1.get(), 90);
    assert_eq!(
        hw.post_servo(true, r#"{"angle":10}"#),
        (500, "Internal Server Error", r#"{"ok":false,"error":"servo2 unavailable"}"#.to_string())
    );
    assert_eq!(set2.get(), 10);
}

#[test]
fn connect_bodies_with_spaces() {
    assert_eq!(
        parse_connect_body(r#"{"ssid": "Home", "password": "secret"}"#),
        ("Home".to_string(), Some("secret".to_string()), None, "wpa2".to_string())
    );
    assert_eq!(
        parse_connect_body(r#"{"ssid":"Lab","auth":"wpa3","username":"u"}"#),
        ("Lab".to_string(), None, Some("u".to_string()), "wpa3".to_string())
    );
    assert_eq!(parse_connect_body(""), (String::new(), None, None, "wpa2".to_string()));
    // no-break space and ideographic space are whitespace too
    assert_eq!(parse_connect_body("{\"ssid\":\"a\u{a0}b\u{3000}c\"}").0, "abc");
    assert!(checked_connect_command(r#"{"ssid":"é"}"#).is_none());
    assert!(checked_connect_command(r#"{"ssid":"ok"}"#).is_some());
}

#[test]
fn escaping_leaves_plain_text_alone() {
    for t in ["plain", "", "é and ü", "a/b:c"] {
        assert_eq!(escape_json(t), t);
    }
    for t in ["\"", "\\", "x\ny", "\r", "\t"] {
        assert_ne!(escape_json(t), t);
    }
}
