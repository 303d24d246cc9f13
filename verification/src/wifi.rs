//! Wi-Fi provisioning data: the commands the HTTP and TCP front ends hand to
//! the Wi-Fi task and its replies, authentication-method names, and the
//! identities derived from the device MAC.

use vstd::prelude::*;
use vstd::string::StringSliceAdditionalSpecFns;
use crate::text::{chars_of, string_push, push_str, str_eq, digit_char};

verus! {

/// Command sent to the task that owns the Wi-Fi driver.
#[derive(Debug)]
pub enum WifiCommand {
    Scan,
    Connect { ssid: String, password: Option<String>, username: Option<String>, auth: String },
    GetStatus,
    StopAp,
}

/// One access point found by a scan.
#[derive(Debug)]
pub struct ApEntry {
    pub ssid: String,
    pub rssi: i8,
    pub auth: String,
}

/// Station-mode connection details.
#[derive(Clone, Debug)]
pub struct StaInfo {
    pub ip: String,
    pub ssid: String,
}

/// Reply to a [`WifiCommand`].
#[derive(Debug)]
pub enum WifiResponse {
    Scan(Vec<ApEntry>),
    Connect(Result<StaInfo, String>),
    Status(Option<StaInfo>),
    StopAp(Result<(), String>),
}

/// Wi-Fi authentication methods known to the driver.
#[derive(Clone, Copy, Debug, PartialEq, Eq, Structural)]
pub enum AuthMethod {
    Open,
    WEP,
    WPA,
    WPA2Personal,
    WPAWPA2Personal,
    WPA2Enterprise,
    WPA3Personal,
    WPA2WPA3Personal,
    WAPIPersonal,
}

/// Name of an authentication method as reported in scan results.
pub open spec fn auth_name(auth: AuthMethod) -> Seq<char> {
    match auth {
        AuthMethod::Open => "open"@,
        AuthMethod::WEP => "wep"@,
        AuthMethod::WPA => "wpa"@,
        AuthMethod::WPA2Personal => "wpa2"@,
        AuthMethod::WPAWPA2Personal => "wpa_wpa2"@,
        AuthMethod::WPA2Enterprise => "wpa2_enterprise"@,
        AuthMethod::WPA3Personal => "wpa3"@,
        AuthMethod::WPA2WPA3Personal => "wpa2_wpa3"@,
        AuthMethod::WAPIPersonal => "wapi"@,
    }
}

/// Name of an authentication method as reported in scan results.
pub fn auth_to_str(auth: AuthMethod) -> (s: &'static str)
    ensures
        s@ == auth_name(auth),
{
    match auth {
        AuthMethod::Open => "open",
        AuthMethod::WEP => "wep",
        AuthMethod::WPA => "wpa",
        AuthMethod::WPA2Personal => "wpa2",
        AuthMethod::WPAWPA2Personal => "wpa_wpa2",
        AuthMethod::WPA2Enterprise => "wpa2_enterprise",
        AuthMethod::WPA3Personal => "wpa3",
        AuthMethod::WPA2WPA3Personal => "wpa2_wpa3",
        AuthMethod::WAPIPersonal => "wapi",
    }
}

/// ASCII lower-casing of one character.
pub open spec fn lower_char(c: char) -> char {
    if 'A' <= c <= 'Z' {
        ((c as u32) + 32) as char
    } else {
        c
    }
}

/// ASCII lower-casing of a text; other characters are kept.
pub open spec fn lower(s: Seq<char>) -> Seq<char> {
    Seq::new(s.len(), |i: int| lower_char(s[i]))
}

/// The text with ASCII upper-case letters turned to lower case.
pub fn to_ascii_lowercase(s: &str) -> (r: String)
    ensures
        r@ == lower(s@),
{
    let cs = chars_of(s);
    let mut out = String::new();
    let n = cs.len();
    for i in 0..n
        invariant
            n == cs@.len(),
            cs@ == s@,
            out@ == lower(cs@.take(i as int)),
    {
        let c = cs[i];
        let l = if 'A' <= c && c <= 'Z' { ((c as u8) + 32) as char } else { c };
        string_push(&mut out, l);
        assert(lower(cs@.take(i + 1)) =~= lower(cs@.take(i as int)).push(l));
    }
    assert(cs@.take(n as int) =~= cs@);
    out
}

/// Authentication method named by a provisioning request (case-insensitive);
/// unknown names mean WPA2 Personal.
pub open spec fn auth_from_name(s: Seq<char>) -> AuthMethod {
    let l = lower(s);
    if l == "open"@ || l == "none"@ {
        AuthMethod::Open
    } else if l == "wep"@ {
        AuthMethod::WEP
    } else if l == "wpa"@ {
        AuthMethod::WPA
    } else if l == "wpa2"@ || l == "wpa2_psk"@ {
        AuthMethod::WPA2Personal
    } else if l == "wpa_wpa2"@ {
        AuthMethod::WPAWPA2Personal
    } else if l == "wpa2_enterprise"@ || l == "enterprise"@ {
        AuthMethod::WPA2Enterprise
    } else if l == "wpa3"@ {
        AuthMethod::WPA3Personal
    } else if l == "wpa2_wpa3"@ {
        AuthMethod::WPA2WPA3Personal
    } else {
        AuthMethod::WPA2Personal
    }
}

/// Authentication method for a name given by the app.
pub fn parse_auth(s: &str) -> (a: AuthMethod)
    ensures
        a == auth_from_name(s@),
{
    let l = to_ascii_lowercase(s);
    let l = l.as_str();
    if str_eq(l, "open") || str_eq(l, "none") {
        AuthMethod::Open
    } else if str_eq(l, "wep") {
        AuthMethod::WEP
    } else if str_eq(l, "wpa") {
        AuthMethod::WPA
    } else if str_eq(l, "wpa2") || str_eq(l, "wpa2_psk") {
        AuthMethod::WPA2Personal
    } else if str_eq(l, "wpa_wpa2") {
        AuthMethod::WPAWPA2Personal
    } else if str_eq(l, "wpa2_enterprise") || str_eq(l, "enterprise") {
        AuthMethod::WPA2Enterprise
    } else if str_eq(l, "wpa3") {
        AuthMethod::WPA3Personal
    } else if str_eq(l, "wpa2_wpa3") {
        AuthMethod::WPA2WPA3Personal
    } else {
        AuthMethod::WPA2Personal
    }
}

/// ASCII upper-casing of a text; other characters are kept.
pub open spec fn upper(s: Seq<char>) -> Seq<char> {
    Seq::new(s.len(), |i: int| upper_char(s[i]))
}

/// A text of lower-case letters, digits and underscores is its own lower
/// case, and so is the lower case of its upper case.
proof fn lemma_lower_name(s: Seq<char>)
    requires
        forall|i: int| 0 <= i < s.len() ==> ('a' <= #[trigger] s[i] <= 'z') || ('0' <= s[i] <= '9') || s[i] == '_',
    ensures
        lower(s) == s,
        lower(upper(s)) == s,
{
    assert forall|i: int| 0 <= i < s.len() implies lower_char(#[trigger] upper(s)[i]) == s[i] by {
        let c = s[i];
        if 'a' <= c <= 'z' {
            assert((((c as u32) - 32) as char as u32) == (c as u32) - 32);
            assert(((((c as u32) - 32) as char as u32) + 32) as char == c);
        }
    }
    assert(lower(s) =~= s);
    assert(lower(upper(s)) =~= s);
}

/// Law: the name printed for an authentication method parses back to the
/// method, in lower or upper case; the one exception is WAPI, whose name
/// `wapi` is not among the names accepted and so means WPA2 Personal.
pub proof fn law_auth_name_round_trip(m: AuthMethod)
    ensures
        m != AuthMethod::WAPIPersonal ==> auth_from_name(auth_name(m)) == m,
        m != AuthMethod::WAPIPersonal ==> auth_from_name(upper(auth_name(m))) == m,
        m == AuthMethod::WAPIPersonal ==> auth_from_name(auth_name(m)) == AuthMethod::WPA2Personal,
{
    reveal_strlit("open");
    reveal_strlit("none");
    reveal_strlit("wep");
    reveal_strlit("wpa");
    reveal_strlit("wpa2");
    reveal_strlit("wpa2_psk");
    reveal_strlit("wpa_wpa2");
    reveal_strlit("wpa2_enterprise");
    reveal_strlit("enterprise");
    reveal_strlit("wpa3");
    reveal_strlit("wpa2_wpa3");
    reveal_strlit("wapi");
    assert("open"@.len() == 4 && "open"@[0] == 'o');
    assert("none"@.len() == 4 && "none"@[0] == 'n');
    assert("wpa2"@.len() == 4 && "wpa2"@[0] == 'w' && "wpa2"@[3] == '2');
    assert("wpa3"@.len() == 4 && "wpa3"@[0] == 'w' && "wpa3"@[3] == '3');
    assert("wapi"@.len() == 4 && "wapi"@[0] == 'w' && "wapi"@[3] == 'i');
    assert("wep"@.len() == 3 && "wep"@[1] == 'e');
    assert("wpa"@.len() == 3 && "wpa"@[1] == 'p');
    assert("wpa2_psk"@.len() == 8 && "wpa2_psk"@[3] == '2');
    assert("wpa_wpa2"@.len() == 8 && "wpa_wpa2"@[3] == '_');
    assert("wpa2_wpa3"@.len() == 9);
    assert("enterprise"@.len() == 10);
    assert("wpa2_enterprise"@.len() == 15);
    lemma_lower_name(auth_name(m));
    assert(upper(auth_name(m)).len() == auth_name(m).len());
}

/// Authentication name for the numeric security code of the app protocol
/// (`0` open, `1` WEP, `2` WPA, `3` WPA2, `4` WPA3, `5` WPA2 Enterprise;
/// anything else WPA2).
pub open spec fn sec_name(sec: u8) -> Seq<char> {
    if sec == 0 {
        "open"@
    } else if sec == 1 {
        "wep"@
    } else if sec == 2 {
        "wpa"@
    } else if sec == 3 {
        "wpa2"@
    } else if sec == 4 {
        "wpa3"@
    } else if sec == 5 {
        "wpa2_enterprise"@
    } else {
        "wpa2"@
    }
}

/// Authentication name for a numeric security code.
pub fn sec_to_auth(sec: u8) -> (s: &'static str)
    ensures
        s@ == sec_name(sec),
{
    match sec {
        0 => "open",
        1 => "wep",
        2 => "wpa",
        3 => "wpa2",
        4 => "wpa3",
        5 => "wpa2_enterprise",
        _ => "wpa2",
    }
}

/// Hex digit, upper case.
pub open spec fn hex_upper(d: nat) -> char {
    if d < 10 { digit_char(d) } else { (55 + d) as char }
}

/// Hex digit, lower case.
pub open spec fn hex_lower(d: nat) -> char {
    if d < 10 { digit_char(d) } else { (87 + d) as char }
}

/// Two upper-case hex digits of a byte.
pub open spec fn byte_hex_upper(b: u8) -> Seq<char> {
    seq![hex_upper((b / 16) as nat), hex_upper((b % 16) as nat)]
}

/// Two lower-case hex digits of a byte.
pub open spec fn byte_hex_lower(b: u8) -> Seq<char> {
    seq![hex_lower((b / 16) as nat), hex_lower((b % 16) as nat)]
}

/// Appends a byte as two hex digits.
fn push_hex(s: &mut String, b: u8, upper: bool)
    ensures
        upper ==> final(s)@ == old(s)@ + byte_hex_upper(b),
        !upper ==> final(s)@ == old(s)@ + byte_hex_lower(b),
{
    let hi = b / 16;
    let lo = b % 16;
    let base: u8 = if upper { 55 } else { 87 };
    let c1 = if hi < 10 { (48 + hi) as char } else { (base + hi) as char };
    let c2 = if lo < 10 { (48 + lo) as char } else { (base + lo) as char };
    string_push(s, c1);
    string_push(s, c2);
    assert(old(s)@.push(c1).push(c2) =~= old(s)@ + seq![c1, c2]);
}

/// Soft-AP SSID of a device: the prefix `BF_` and the last four MAC bytes in
/// upper-case hex.
pub open spec fn ssid_for_mac(mac: [u8; 6]) -> Seq<char> {
    "BF_"@ + byte_hex_upper(mac[2]) + byte_hex_upper(mac[3]) + byte_hex_upper(mac[4]) + byte_hex_upper(mac[5])
}

/// Soft-AP SSID derived from the station MAC, e.g. `BF_A1B2C3D4`.
pub fn ap_ssid_for_mac(mac: [u8; 6]) -> (s: String)
    ensures
        s@ == ssid_for_mac(mac),
{
    let mut s = String::new();
    push_str(&mut s, crate::config::WIFI_SSID_PREFIX);
    push_hex(&mut s, mac[2], true);
    push_hex(&mut s, mac[3], true);
    push_hex(&mut s, mac[4], true);
    push_hex(&mut s, mac[5], true);
    s
}

/// Device identifier of the app protocol: the MAC as six lower-case hex
/// pairs separated by `:`.
pub open spec fn device_id_for_mac(mac: [u8; 6]) -> Seq<char> {
    byte_hex_lower(mac[0]) + seq![':'] + byte_hex_lower(mac[1]) + seq![':'] + byte_hex_lower(mac[2])
        + seq![':'] + byte_hex_lower(mac[3]) + seq![':'] + byte_hex_lower(mac[4]) + seq![':']
        + byte_hex_lower(mac[5])
}

/// Device identifier, e.g. `a4:cf:12:00:be:ef`.
pub fn device_id_from_mac(mac: [u8; 6]) -> (s: String)
    ensures
        s@ == device_id_for_mac(mac),
{
    let mut s = String::new();
    push_hex(&mut s, mac[0], false);
    string_push(&mut s, ':');
    push_hex(&mut s, mac[1], false);
    string_push(&mut s, ':');
    push_hex(&mut s, mac[2], false);
    string_push(&mut s, ':');
    push_hex(&mut s, mac[3], false);
    string_push(&mut s, ':');
    push_hex(&mut s, mac[4], false);
    string_push(&mut s, ':');
    push_hex(&mut s, mac[5], false);
    assert(s@ =~= device_id_for_mac(mac));
    s
}

/// heapless's `String::<N>::try_from(&str)`: succeeds exactly when the
/// text's UTF-8 encoding fits in `N` bytes, and then holds the same text.
#[verifier::external_body]
fn heapless_string<const N: usize>(s: &str) -> (r: Option<String>)
    ensures
        r is Some <==> s.spec_bytes().len() <= N,
        r matches Some(t) ==> t@ == s@,
{
    match heapless::String::<N>::try_from(s) {
        Ok(h) => Some(h.as_str().to_string()),
        Err(()) => None,
    }
}

/// The text if its UTF-8 encoding fits in `n` bytes, else the empty text.
pub open spec fn fit_or_empty(s: Seq<char>, n: nat) -> Seq<char> {
    if vstd::utf8::encode_utf8(s).len() <= n { s } else { Seq::empty() }
}

/// ASCII upper-casing of one character.
pub open spec fn upper_char(c: char) -> char {
    if 'a' <= c <= 'z' {
        ((c as u32) - 32) as char
    } else {
        c
    }
}

proof fn lemma_hex_upper_lower(d: nat)
    requires
        d < 16,
    ensures
        hex_upper(d) == upper_char(hex_lower(d)),
{
    if d < 10 {
        assert((48 + d) as char == digit_char(d));
        assert(((48 + d) as char as u32) == 48 + d);
    } else {
        assert(((87 + d) as char as u32) == 87 + d);
        assert((((87 + d) as char as u32) - 32) as char == (55 + d) as char);
    }
}

/// Law: the soft-AP SSID is `BF_` followed by the last four bytes of the
/// device id, without colons and upper-cased.
pub proof fn law_ssid_from_device_id(mac: [u8; 6])
    ensures
        ({
            let d = device_id_for_mac(mac);
            ssid_for_mac(mac) == "BF_"@ + seq![
                upper_char(d[6]),
                upper_char(d[7]),
                upper_char(d[9]),
                upper_char(d[10]),
                upper_char(d[12]),
                upper_char(d[13]),
                upper_char(d[15]),
                upper_char(d[16]),
            ]
        }),
{
    let d = device_id_for_mac(mac);
    lemma_hex_upper_lower((mac[2] / 16) as nat);
    lemma_hex_upper_lower((mac[2] % 16) as nat);
    lemma_hex_upper_lower((mac[3] / 16) as nat);
    lemma_hex_upper_lower((mac[3] % 16) as nat);
    lemma_hex_upper_lower((mac[4] / 16) as nat);
    lemma_hex_upper_lower((mac[4] % 16) as nat);
    lemma_hex_upper_lower((mac[5] / 16) as nat);
    lemma_hex_upper_lower((mac[5] % 16) as nat);
    assert(d[6] == hex_lower((mac[2] / 16) as nat) && d[7] == hex_lower((mac[2] % 16) as nat));
    assert(d[9] == hex_lower((mac[3] / 16) as nat) && d[10] == hex_lower((mac[3] % 16) as nat));
    assert(d[12] == hex_lower((mac[4] / 16) as nat) && d[13] == hex_lower((mac[4] % 16) as nat));
    assert(d[15] == hex_lower((mac[5] / 16) as nat) && d[16] == hex_lower((mac[5] % 16) as nat));
    assert(ssid_for_mac(mac) =~= "BF_"@ + seq![
        upper_char(d[6]),
        upper_char(d[7]),
        upper_char(d[9]),
        upper_char(d[10]),
        upper_char(d[12]),
        upper_char(d[13]),
        upper_char(d[15]),
        upper_char(d[16]),
    ]);
}

/// SSID as the driver's 32-byte configuration field holds it: the text
/// when it fits, otherwise empty.
pub fn ssid_field(s: &str) -> (r: String)
    ensures
        r@ == fit_or_empty(s@, 32),
{
    match heapless_string::<32>(s) {
        Some(t) => t,
        None => String::new(),
    }
}

/// Password as the driver's 64-byte configuration field holds it: the text
/// when it fits, otherwise empty.
pub fn password_field(s: &str) -> (r: String)
    ensures
        r@ == fit_or_empty(s@, 64),
{
    match heapless_string::<64>(s) {
        Some(t) => t,
        None => String::new(),
    }
}

/// Station credentials for a connect request: SSID and password cut to the
/// driver's fields (empty when too long or, for the password, absent) and
/// the authentication method named by `auth`.
pub fn sta_credentials(ssid: &str, password: &Option<String>, auth: &str) -> (r: (String, String, AuthMethod))
    ensures
        r.0@ == fit_or_empty(ssid@, 32),
        password matches Some(p) ==> r.1@ == fit_or_empty(p@, 64),
        password is None ==> r.1@ == Seq::<char>::empty(),
        r.2 == auth_from_name(auth@),
{
    let auth_method = parse_auth(auth);
    let ssid_hl = ssid_field(ssid);
    let password_hl = match password {
        Some(p) => password_field(p.as_str()),
        None => String::new(),
    };
    (ssid_hl, password_hl, auth_method)
}

/// Whether a station address counts as assigned by DHCP: not empty and not
/// `0.0.0.0`.
pub fn sta_ip_assigned(ip: &str) -> (r: bool)
    ensures
        r == (ip@.len() > 0 && ip@ != "0.0.0.0"@),
{
    !ip.is_empty() && !str_eq(ip, "0.0.0.0")
}

/// Prepares DHCP so that clients of the soft-AP use the device as their DNS
/// server. The DHCP server of the AP interface already announces the AP's
/// own address (192.168.71.1) as resolver, so there is nothing to change.
pub fn configure_dhcp_dns() {
}

} // verus!
