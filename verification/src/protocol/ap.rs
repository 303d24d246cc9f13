//! Provisioning protocol on the soft-AP (TCP port 1234, one JSON object per
//! line): `identify` answers with the device id and firmware version,
//! `config` hands Wi-Fi credentials to the Wi-Fi task.

use vstd::prelude::*;
use vstd::string::*;
use crate::text::{push_str, escape_json, escape_json_spec, str_eq};
use crate::json::{JsonValue, str_field, u64_field, get_str, get_u64, parsed_json, parse_json};
use crate::wifi::{WifiCommand, sec_name, sec_to_auth};

verus! {

/// Answer to a line that is not JSON.
pub open spec fn invalid_json_line() -> Seq<char> {
    "{\"status\":\"error\",\"reason\":\"invalid json\"}"@
}

/// Answer to an unknown command.
pub open spec fn unknown_cmd_line() -> Seq<char> {
    "{\"status\":\"error\",\"reason\":\"unknown cmd\"}"@
}

/// Answer to `identify`.
pub open spec fn identify_line(device_id: Seq<char>, fw_version: Seq<char>) -> Seq<char> {
    "{\"deviceId\":\""@ + escape_json_spec(device_id) + "\",\"fw\":\""@ + escape_json_spec(fw_version) + "\"}"@
}

/// Whether a message is a `config` request.
pub open spec fn is_config(msg: Option<JsonValue>) -> bool {
    match msg {
        Some(v) => str_field(v, "cmd"@) == Some("config"@),
        None => false,
    }
}

/// Answer to a message other than `config`.
pub open spec fn ap_answer(msg: Option<JsonValue>, device_id: Seq<char>, fw_version: Seq<char>) -> Seq<char> {
    match msg {
        None => invalid_json_line(),
        Some(v) => if str_field(v, "cmd"@) == Some("identify"@) {
            identify_line(device_id, fw_version)
        } else {
            unknown_cmd_line()
        },
    }
}

/// Answer to a request other than `config`, and whether the soft-AP is to
/// be stopped after sending it (never, in this protocol version).
pub fn process_ap_message(msg: &Option<JsonValue>, device_id: &str, fw_version: &str) -> (r: (String, bool))
    requires
        !is_config(*msg),
    ensures
        !r.1,
        r.0@ == ap_answer(*msg, device_id@, fw_version@),
{
    let v = match msg {
        None => return (String::from_str("{\"status\":\"error\",\"reason\":\"invalid json\"}"), false),
        Some(v) => v,
    };
    let is_identify = match get_str(v, "cmd") {
        Some(c) => str_eq(c, "identify"),
        None => false,
    };
    if is_identify {
        let mut out = String::new();
        push_str(&mut out, "{\"deviceId\":\"");
        let d = escape_json(device_id);
        push_str(&mut out, d.as_str());
        push_str(&mut out, "\",\"fw\":\"");
        let f = escape_json(fw_version);
        push_str(&mut out, f.as_str());
        push_str(&mut out, "\"}");
        assert(out@ =~= identify_line(device_id@, fw_version@));
        (out, false)
    } else {
        (String::from_str("{\"status\":\"error\",\"reason\":\"unknown cmd\"}"), false)
    }
}

/// What a `config` request asks for: the phone's binding token (`phone`)
/// and the connect command built from `ssid` (empty when absent), `pwd` and
/// the numeric `sec` code (3 when absent, taken modulo 256).
pub struct ConfigRequest {
    pub bind_token: Option<String>,
    pub command: WifiCommand,
}

/// Whether `r` is the provisioning request a `config` message `v` carries.
pub open spec fn config_request_is(r: ConfigRequest, v: JsonValue) -> bool {
    &&& match r.bind_token { Some(t) => str_field(v, "phone"@) == Some(t@), None => str_field(v, "phone"@) is None }
    &&& r.command matches WifiCommand::Connect { ssid, password, username, auth }
        && ssid@ == (match str_field(v, "ssid"@) { Some(s) => s, None => Seq::empty() })
        && (match password { Some(p) => str_field(v, "pwd"@) == Some(p@), None => str_field(v, "pwd"@) is None })
        && username is None
        && auth@ == sec_name((match u64_field(v, "sec"@) { Some(s) => s, None => 3 }) as u8)
}

/// The provisioning request carried by a `config` message.
pub fn config_request(v: &JsonValue) -> (r: ConfigRequest)
    ensures
        config_request_is(r, *v),
{
    let bind_token = match get_str(v, "phone") {
        Some(t) => Some(String::from_str(t)),
        None => None,
    };
    let ssid = match get_str(v, "ssid") {
        Some(s) => String::from_str(s),
        None => String::new(),
    };
    let password = match get_str(v, "pwd") {
        Some(p) => Some(String::from_str(p)),
        None => None,
    };
    let sec: u64 = match get_u64(v, "sec") {
        Some(s) => s,
        None => 3,
    };
    let auth = String::from_str(sec_to_auth(#[verifier::truncate] (sec as u8)));
    ConfigRequest { bind_token, command: WifiCommand::Connect { ssid, password, username: None, auth } }
}

/// Answer once the credentials were handed to the Wi-Fi task.
pub fn config_connecting_line() -> (s: &'static str)
    ensures
        s@ == "{\"status\":\"connecting\"}"@,
{
    "{\"status\":\"connecting\"}"
}

/// Answer when the Wi-Fi task could not take the credentials.
pub fn config_internal_error_line() -> (s: &'static str)
    ensures
        s@ == "{\"status\":\"error\",\"reason\":\"internal\"}"@,
{
    "{\"status\":\"error\",\"reason\":\"internal\"}"
}

/// What a received provisioning line asks for.
pub enum ApLine {
    /// A `config` request: keep its binding token, hand its command to the
    /// Wi-Fi task and answer [`config_connecting_line`] (or
    /// [`config_internal_error_line`] when the task cannot take it).
    Config(ConfigRequest),
    /// Any other line: send this answer.
    Answer(String),
}

/// Handles one provisioning line (already trimmed and not empty): the
/// `config` request it carries, or the answer to send.
pub fn process_ap_line(line: &str, device_id: &str, fw_version: &str) -> (r: ApLine)
    ensures
        is_config(parsed_json(line@)) ==> (r matches ApLine::Config(c) && config_request_is(c, parsed_json(line@)->0)),
        !is_config(parsed_json(line@)) ==> (r matches ApLine::Answer(a) && a@ == ap_answer(
            parsed_json(line@),
            device_id@,
            fw_version@,
        )),
{
    let msg = parse_json(line);
    if let Some(v) = &msg {
        let config = match get_str(v, "cmd") {
            Some(c) => str_eq(c, "config"),
            None => false,
        };
        if config {
            return ApLine::Config(config_request(v));
        }
    }
    ApLine::Answer(process_ap_message(&msg, device_id, fw_version).0)
}

} // verus!
