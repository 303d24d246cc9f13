use butterfly::wifi::{
    ap_ssid_for_mac, auth_to_str, configure_dhcp_dns, device_id_from_mac, parse_auth, password_field, sec_to_auth,
    sta_credentials, sta_ip_assigned, ssid_field, to_ascii_lowercase, AuthMethod,
};

#[test]
fn ssid_and_device_id_from_mac() {
    let mac = [0xa4, 0xcf, 0x12, 0x0b, 0xbe, 0xef];
    assert_eq!(ap_ssid_for_mac(mac), "BF_120BBEEF");
    assert_eq!(device_id_from_mac(mac), "a4:cf:12:0b:be:ef");
    assert_eq!(ap_ssid_for_mac([0; 6]), "BF_00000000");
    assert_eq!(device_id_from_mac([255; 6]), "ff:ff:ff:ff:ff:ff");
}

#[test]
fn auth_names() {
    assert_eq!(auth_to_str(AuthMethod::Open), "open");
    assert_eq!(auth_to_str(AuthMethod::WPAWPA2Personal), "wpa_wpa2");
    assert_eq!(auth_to_str(AuthMethod::WAPIPersonal), "wapi");
    assert_eq!(parse_auth("NONE"), AuthMethod::Open);
    assert_eq!(parse_auth("Wpa2_PSK"), AuthMethod::WPA2Personal);
    assert_eq!(parse_auth("enterprise"), AuthMethod::WPA2Enterprise);
    assert_eq!(parse_auth("wpa2_wpa3"), AuthMethod::WPA2WPA3Personal);
    assert_eq!(parse_auth("wapi"), AuthMethod::WPA2Personal);
    assert_eq!(parse_auth(""), AuthMethod::WPA2Personal);
    assert_eq!(to_ascii_lowercase("AbC-É"), "abc-É");
}

#[test]
fn security_codes() {
    let names: Vec<&str> = (0..=6).map(sec_to_auth).collect();
    assert_eq!(names, vec!["open", "wep", "wpa", "wpa2", "wpa3", "wpa2_enterprise", "wpa2"]);
    assert_eq!(sec_to_auth(255), "wpa2");
}

#[test]
fn driver_fields_fit_or_are_emptied() {
    let ssid32 = "s".repeat(32);
    assert_eq!(ssid_field(&ssid32), ssid32);
    assert_eq!(ssid_field(&"s".repeat(33)), "");
    // 16 two-byte characters fill the 32 bytes exactly; one more does not fit
    assert_eq!(ssid_field(&"é".repeat(16)), "é".repeat(16));
    assert_eq!(ssid_field(&"é".repeat(17)), "");
    assert_eq!(password_field(&"p".repeat(64)), "p".repeat(64));
    assert_eq!(password_field(&"p".repeat(65)), "");
}

#[test]
fn station_credentials() {
    let (ssid, pw, auth) = sta_credentials("Home", &Some("secret".to_string()), "WPA3");
    assert_eq!((ssid.as_str(), pw.as_str(), auth), ("Home", "secret", AuthMethod::WPA3Personal));
    let (_, pw, auth) = sta_credentials("Home", &None, "bogus");
    assert_eq!((pw.as_str(), auth), ("", AuthMethod::WPA2Personal));
    let (_, pw, _) = sta_credentials("Home", &Some("x".repeat(70)), "open");
    assert_eq!(pw, "");
}

#[test]
fn dhcp_address_check() {
    assert!(sta_ip_assigned("192.168.1.4"));
    assert!(!sta_ip_assigned("0.0.0.0"));
    assert!(!sta_ip_assigned(""));
    configure_dhcp_dns();
}

#[test]
fn ssid_is_prefix_and_device_id_tail() {
    for mac in [[0xa4, 0xcf, 0x12, 0x0b, 0xbe, 0xef], [0, 1, 2, 3, 4, 5], [255; 6]] {
        let id = device_id_from_mac(mac);
        assert_eq!(id.len(), 17);
        assert_eq!(ap_ssid_for_mac(mac), format!("BF_{}", id[6..].replace(':', "").to_uppercase()));
    }
}

#[test]
fn auth_names_parse_back() {
    let all = [
        AuthMethod::Open,
        AuthMethod::WEP,
        AuthMethod::WPA,
        AuthMethod::WPA2Personal,
        AuthMethod::WPAWPA2Personal,
        AuthMethod::WPA2Enterprise,
        AuthMethod::WPA3Personal,
        AuthMethod::WPA2WPA3Personal,
    ];
    for m in all {
        assert_eq!(parse_auth(auth_to_str(m)), m);
        assert_eq!(parse_auth(&auth_to_str(m).to_uppercase()), m);
    }
    assert_eq!(parse_auth(auth_to_str(AuthMethod::WAPIPersonal)), AuthMethod::WPA2Personal);
    assert_eq!(parse_auth("unknown"), AuthMethod::WPA2Personal);
}
