//! The device's autonomous behaviour: flapping when someone comes close,
//! telling the paired device to flap along, and driving the wings while the
//! peer asks us to.
//!
//! The wing phase itself is kept by the caller; this module decides when to
//! flap, how fast, where to come to rest, and what to tell the peer.

use vstd::prelude::*;
use crate::config::{TOF_THRESHOLD_START_MM, TOF_THRESHOLD_FAST_MM, TOF_PERIOD_SLOW_MS, TOF_PERIOD_FAST_MS};
use crate::json::{JsonValue, str_field, get_str, get_u64, u64_field, json_get, json_as_u64, parsed_json, parse_json};
use crate::dns::utf8_lossy;
use crate::storage::{trimmed, trim_text};
use crate::protocol::line::line_text;
use crate::protocol::sta::{StaState, StaView};
use crate::text::{push_str, push_decimal, decimal, str_eq};
use crate::web::{digits_value, is_digit};

verus! {

/// Interval between behaviour ticks in milliseconds.
pub const TICK_MS: u64 = 40;

/// Readings below this distance (mm) are ignored (sensor disconnected).
pub const THRESHOLD_MIN_MM: u16 = 20;

/// Angle of the continuous servo's command that keeps it still.
pub const SERVO1_ANGLE_IDLE: u16 = 90;

/// Lowest wing angle of a flap.
pub const FLAP_ANGLE_MIN: u16 = 25;

/// Highest wing angle of a flap, also the default rest position.
pub const FLAP_ANGLE_MAX: u16 = 130;

/// Command that turns the continuous servo during a remote trigger.
pub const SERVO2_ROTATE_CMD: u16 = 120;

/// How long a remote-trigger turn lasts (ms).
pub const SERVO2_ROTATE_DURATION_MS: u64 = 400;

/// Shortest time between two remote-trigger turns (ms).
pub const SERVO2_ROTATE_INTERVAL_MS: u64 = 10_000;

/// Flap period (ms) for a distance inside the trigger zone: fastest at or
/// below 60 mm, then growing linearly to 2000 ms at 110 mm.
pub open spec fn flap_period(d: int) -> int {
    if d <= 60 {
        300
    } else {
        2000 - (110 - d) * 1700 / 50
    }
}

/// Law: the nearer someone is, the faster the wings flap: the period never
/// grows as the distance shrinks, and stays within 300..=2000 ms.
pub proof fn law_closer_flaps_faster(d1: int, d2: int)
    requires
        d1 <= d2 <= 110,
    ensures
        flap_period(d1) <= flap_period(d2),
        300 <= flap_period(d1) <= 2000,
{
    if d1 > 60 {
        assert((110 - d2) * 1700 <= (110 - d1) * 1700) by (nonlinear_arith)
            requires
                110 - d2 <= 110 - d1,
        ;
        vstd::arithmetic::div_mod::lemma_div_is_ordered((110 - d2) * 1700, (110 - d1) * 1700, 50);
        assert((110 - d1) * 1700 <= 49 * 1700) by (nonlinear_arith)
            requires
                0 <= 110 - d1 <= 49,
        ;
        vstd::arithmetic::div_mod::lemma_div_is_ordered((110 - d1) * 1700, 83300int, 50);
        vstd::arithmetic::div_mod::lemma_div_is_ordered(0, (110 - d2) * 1700, 50);
    } else if d2 > 60 {
        assert((110 - d2) * 1700 <= 49 * 1700) by (nonlinear_arith)
            requires
                0 <= 110 - d2 <= 49,
        ;
        vstd::arithmetic::div_mod::lemma_div_is_ordered((110 - d2) * 1700, 83300int, 50);
        vstd::arithmetic::div_mod::lemma_div_is_ordered(0, (110 - d2) * 1700, 50);
    }
}

/// Whether a distance reading triggers flapping: at least 20 mm and below
/// 110 mm.
pub fn in_trigger_zone(d: u16) -> (r: bool)
    ensures
        r == (20 <= d && d < 110),
{
    d >= THRESHOLD_MIN_MM && d < TOF_THRESHOLD_START_MM
}

/// Flap period for a distance no farther than the trigger distance.
pub fn tof_period_ms(d: u16) -> (p: u64)
    requires
        d <= 110,
    ensures
        p == flap_period(d as int),
        300 <= p <= 2000,
{
    let range = TOF_THRESHOLD_START_MM - TOF_THRESHOLD_FAST_MM;
    let mm_range_linear: u16 = if range < 1 { 1 } else { range };
    if d <= TOF_THRESHOLD_FAST_MM {
        TOF_PERIOD_FAST_MS
    } else {
        let gap = (TOF_THRESHOLD_START_MM - d) as u64;
        assert(gap * 1700 <= 49 * 1700) by (nonlinear_arith)
            requires
                gap <= 49,
        ;
        assert((gap * 1700) as int / 50 <= 1666) by (nonlinear_arith)
            requires
                gap * 1700 <= 49 * 1700,
        ;
        TOF_PERIOD_SLOW_MS - gap * (TOF_PERIOD_SLOW_MS - TOF_PERIOD_FAST_MS) / (mm_range_linear as u64)
    }
}

/// Flap period used while the peer drives our wings: the period at the
/// middle of the linear range (85 mm), 1150 ms.
pub fn sync_period_ms() -> (p: u64)
    ensures
        p == flap_period(85),
        p == 1150,
{
    let d_mid = ((TOF_THRESHOLD_START_MM as u32 + TOF_THRESHOLD_FAST_MM as u32) / 2) as u16;
    let p = tof_period_ms(d_mid);
    if p < 1 { 1 } else { p }
}

/// Rest angle after a flap ends at `current`: the lower end below the
/// middle of the flap range (77), the upper end otherwise.
pub fn rest_angle_for(current: u16) -> (a: u16)
    ensures
        a == (if current < 77 { 25u16 } else { 130u16 }),
{
    let mid = (FLAP_ANGLE_MIN + FLAP_ANGLE_MAX) / 2;
    if current < mid { FLAP_ANGLE_MIN } else { FLAP_ANGLE_MAX }
}

/// What the proximity loop does in one tick.
#[derive(Clone, Copy, Debug, PartialEq, Eq, Structural)]
pub enum TestModeAction {
    /// Leave the servos alone (the peer drives them, or the mode is off).
    Skip,
    /// Advance the wing phase with this period, set servo 1 to the phase's
    /// angle and servo 2 to its idle command.
    Flap { period_ms: u64 },
    /// A flap just ended: rest servo 1 at [`rest_angle_for`] its current
    /// angle, servo 2 at idle, and reset the phase.
    ParkNearest,
    /// Nothing was triggered yet: rest servo 1 at 130 and servo 2 at idle.
    ParkDefault,
    /// Already at rest.
    Hold,
}

/// The proximity loop's decision for one tick.
#[derive(Clone, Copy, Debug, PartialEq, Eq, Structural)]
pub struct TestModeTick {
    pub action: TestModeAction,
    /// New wish for the peer's remote flapping, when it changes.
    pub remote: Option<bool>,
}

/// Edge state of the proximity loop.
pub struct TestModeState {
    pub was_triggered: bool,
    pub idle_applied: bool,
}

/// One tick of the proximity loop from the flags `(was_triggered,
/// idle_applied)`: the new flags and the decision.
pub open spec fn test_mode_step(
    was: bool,
    idle: bool,
    sync_running: bool,
    enabled: bool,
    d: u16,
    paired: bool,
) -> (bool, bool, TestModeTick) {
    if sync_running {
        (false, false, TestModeTick { action: TestModeAction::Skip, remote: Some(false) })
    } else if !enabled {
        (false, false, TestModeTick { action: TestModeAction::Skip, remote: None })
    } else if 20 <= d && d < 110 {
        (true, false, TestModeTick {
            action: TestModeAction::Flap { period_ms: flap_period(d as int) as u64 },
            remote: if !was && paired { Some(true) } else { None },
        })
    } else if was {
        (false, true, TestModeTick { action: TestModeAction::ParkNearest, remote: if paired { Some(false) } else { None } })
    } else if !idle {
        (false, true, TestModeTick { action: TestModeAction::ParkDefault, remote: None })
    } else {
        (false, true, TestModeTick { action: TestModeAction::Hold, remote: None })
    }
}

impl TestModeState {
    /// Nothing triggered, not at rest yet.
    pub fn new() -> (s: Self)
        ensures
            !s.was_triggered,
            !s.idle_applied,
    {
        TestModeState { was_triggered: false, idle_applied: false }
    }

    /// One tick: `sync_running` when the peer drives our wings, `enabled`
    /// when the proximity mode is on, `d` the distance reading, `paired`
    /// whether a peer device is paired.
    pub fn step(&mut self, sync_running: bool, enabled: bool, d: u16, paired: bool) -> (t: TestModeTick)
        ensures
            (final(self).was_triggered, final(self).idle_applied, t) == test_mode_step(
                old(self).was_triggered,
                old(self).idle_applied,
                sync_running,
                enabled,
                d,
                paired,
            ),
    {
        if sync_running {
            self.was_triggered = false;
            self.idle_applied = false;
            return TestModeTick { action: TestModeAction::Skip, remote: Some(false) };
        }
        if !enabled {
            self.was_triggered = false;
            self.idle_applied = false;
            return TestModeTick { action: TestModeAction::Skip, remote: None };
        }
        if in_trigger_zone(d) {
            let remote = if !self.was_triggered && paired { Some(true) } else { None };
            self.idle_applied = false;
            self.was_triggered = true;
            TestModeTick { action: TestModeAction::Flap { period_ms: tof_period_ms(d) }, remote }
        } else if self.was_triggered {
            self.was_triggered = false;
            self.idle_applied = true;
            TestModeTick { action: TestModeAction::ParkNearest, remote: if paired { Some(false) } else { None } }
        } else if !self.idle_applied {
            self.idle_applied = true;
            TestModeTick { action: TestModeAction::ParkDefault, remote: None }
        } else {
            TestModeTick { action: TestModeAction::Hold, remote: None }
        }
    }
}

/// Law: while a reading stays in the trigger zone the peer is asked to
/// start flapping at most once: a tick right after a flapping tick never
/// asks again.
pub proof fn law_remote_start_once(idle: bool, d1: u16, d2: u16, paired: bool)
    requires
        20 <= d1 < 110,
        20 <= d2 < 110,
    ensures
        ({
            let (w1, i1, _t1) = test_mode_step(false, idle, false, true, d1, paired);
            let (_w2, _i2, t2) = test_mode_step(w1, i1, false, true, d2, paired);
            t2.remote is None
        }),
{
}

/// Law: the peer is asked to stop exactly when a paired flap ends, and no
/// stop is asked while nothing flapped.
pub proof fn law_remote_stop_on_falling_edge(was: bool, idle: bool, d: u16, paired: bool)
    requires
        !(20 <= d < 110),
    ensures
        test_mode_step(was, idle, false, true, d, paired).2.remote == (if was && paired { Some(false) } else { None }),
{
}

/// The continuous servo's turn window during remote synchronisation.
pub struct RotationWindow {
    pub until_ms: Option<u64>,
}

impl RotationWindow {
    /// No turn in progress.
    pub fn new() -> (w: Self)
        ensures
            w.until_ms is None,
    {
        RotationWindow { until_ms: None }
    }

    /// One tick at `now_ms`: ends a finished turn (`r.0`: set servo 2 to
    /// its neutral command) and starts a new one (`r.1`: set it to 120)
    /// when no turn is running and 10 s passed since the last remote
    /// trigger, which is then recorded.
    pub fn tick(&mut self, now_ms: u64, state: &mut StaState) -> (r: (bool, bool))
        ensures
            r.0 == (old(self).until_ms matches Some(u) && now_ms >= u),
            ({
                let idle = !(old(self).until_ms is Some) || r.0;
                let since = if now_ms >= old(state)@.last_trigger_ms { now_ms - old(state)@.last_trigger_ms } else { 0 };
                &&& r.1 == (idle && since >= 10_000)
                &&& r.1 ==> final(self).until_ms == Some(if now_ms + 400 > u64::MAX { u64::MAX } else { (now_ms + 400) as u64 })
                &&& r.1 ==> final(state)@ == (StaView {
                    last_trigger_ms: now_ms,
                    triggered_count: if old(state)@.triggered_count == u32::MAX {
                        u32::MAX
                    } else {
                        (old(state)@.triggered_count + 1) as u32
                    },
                    ..old(state)@
                })
                &&& !r.1 ==> final(state)@ == old(state)@
                &&& !r.1 ==> final(self).until_ms == (if r.0 { None } else { old(self).until_ms })
            }),
    {
        let mut stop = false;
        match self.until_ms {
            Some(u) => {
                if now_ms >= u {
                    stop = true;
                    self.until_ms = None;
                }
            },
            None => {},
        }
        let idle = self.until_ms.is_none();
        let start = state.claim_rotation(now_ms, idle, SERVO2_ROTATE_INTERVAL_MS);
        if start {
            self.until_ms = Some(now_ms.saturating_add(SERVO2_ROTATE_DURATION_MS));
        }
        (stop, start)
    }
}

/// What the sync sender does in one tick.
pub enum SenderPlan {
    /// No paired peer with a known address: drop any connection.
    Disconnect,
    /// Nothing to send.
    Idle,
    /// Open a connection to the peer at `ip`, then report with
    /// [`SyncSender::connected`].
    Connect { ip: String },
    /// Send [`SyncSender::request_line`] on the open connection.
    Send,
}

/// Keeps the peer's remote flapping in line with what we want: sends
/// `sync_start` / `sync_stop` until the peer acknowledges the current wish.
pub struct SyncSender {
    last_confirmed: bool,
    req_seq: u64,
    stream_peer_ip: Option<String>,
    connected: bool,
}

/// The request line for a wish and sequence number.
pub open spec fn sync_line(desired: bool, seq: u64) -> Seq<char> {
    (if desired { "{\"cmd\":\"sync_start\",\"req_id\":"@ } else { "{\"cmd\":\"sync_stop\",\"req_id\":"@ })
        + decimal(seq as nat) + "}"@
}

/// The request line's text before its number.
pub open spec fn sync_prefix(desired: bool) -> Seq<char> {
    if desired { "{\"cmd\":\"sync_start\",\"req_id\":"@ } else { "{\"cmd\":\"sync_stop\",\"req_id\":"@ }
}

/// The decimal text of a number is made of digits and denotes the number.
proof fn lemma_decimal_value(n: nat)
    ensures
        decimal(n).len() >= 1,
        forall|i: int| 0 <= i < decimal(n).len() ==> is_digit(#[trigger] decimal(n)[i]),
        digits_value(decimal(n)) == n,
    decreases n,
{
    if n < 10 {
        assert(((48 + n) as char as int) == 48 + n);
        assert(decimal(n).drop_last() =~= Seq::<char>::empty());
        assert(digits_value(Seq::<char>::empty()) == 0);
        assert(decimal(n).last() == (48 + n) as char);
    } else {
        lemma_decimal_value(n / 10);
        let d = decimal(n);
        assert(d.drop_last() =~= decimal(n / 10));
        assert(((48 + n % 10) as char as int) == 48 + n % 10);
        assert(d.last() == (48 + n % 10) as char);
        assert(digits_value(d) == digits_value(decimal(n / 10)) * 10 + n % 10);
        assert forall|i: int| 0 <= i < d.len() implies is_digit(#[trigger] d[i]) by {
            if i < d.len() - 1 {
                assert(d[i] == decimal(n / 10)[i]);
            }
        }
    }
}

/// Law: a request line is the command text, then the decimal digits of
/// exactly the request's sequence number, then `}`; so a reply whose
/// `req_id` is the number written in the line acknowledges that request.
pub proof fn law_request_line_carries_seq(desired: bool, seq: u64)
    ensures
        ({
            let line = sync_line(desired, seq);
            let p = sync_prefix(desired);
            let num = line.subrange(p.len() as int, line.len() - 1);
            &&& line.len() >= p.len() + 2
            &&& line.subrange(0, p.len() as int) == p
            &&& line.last() == '}'
            &&& forall|i: int| 0 <= i < num.len() ==> is_digit(#[trigger] num[i])
            &&& digits_value(num) == seq
            &&& forall|v: JsonValue|
                str_field(v, "status"@) == Some("ok"@) && str_field(v, "ack"@) == Some(
                    if desired { "sync_start"@ } else { "sync_stop"@ },
                ) && #[trigger] u64_field(v, "req_id"@) == Some(digits_value(num) as u64) ==> acknowledges(v, desired, seq)
        }),
{
    reveal_strlit("}");
    lemma_decimal_value(seq as nat);
    let line = sync_line(desired, seq);
    let p = sync_prefix(desired);
    let d = decimal(seq as nat);
    assert(line =~= p + d + seq!['}']);
    assert(line.subrange(0, p.len() as int) =~= p);
    assert(line.subrange(p.len() as int, line.len() - 1) =~= d);
}

/// Whether a reply acknowledges request `seq` for the wish `desired`:
/// status `ok`, the matching `ack`, and the same `req_id`.
pub open spec fn acknowledges(reply: JsonValue, desired: bool, seq: u64) -> bool {
    &&& str_field(reply, "status"@) == Some("ok"@)
    &&& str_field(reply, "ack"@) == Some(if desired { "sync_start"@ } else { "sync_stop"@ })
    &&& u64_field(reply, "req_id"@) == Some(seq)
}

impl SyncSender {
    /// The peer's remote flapping last acknowledged.
    pub closed spec fn confirmed(&self) -> bool {
        self.last_confirmed
    }

    /// Sequence number of the last request.
    pub closed spec fn seq(&self) -> u64 {
        self.req_seq
    }

    /// Whether a connection to the peer is open.
    pub closed spec fn is_connected(&self) -> bool {
        self.connected
    }

    /// Address the open connection goes to.
    pub closed spec fn stream_ip(&self) -> Option<Seq<char>> {
        match self.stream_peer_ip {
            Some(s) => Some(s@),
            None => None,
        }
    }

    /// Nothing confirmed, no connection.
    pub fn new() -> (s: Self)
        ensures
            !s.confirmed(),
            s.seq() == 0,
            !s.is_connected(),
    {
        SyncSender { last_confirmed: false, req_seq: 0, stream_peer_ip: None, connected: false }
    }

    /// Decides the tick for the current wish and pairing: without a paired
    /// peer and address everything is reset; a confirmed wish needs
    /// nothing; otherwise a (re)connection to the peer's address comes first.
    pub fn plan(&mut self, desired: bool, paired_with: &Option<String>, peer_ip: &Option<String>) -> (r: SenderPlan)
        ensures
            paired_with is None || peer_ip is None ==> r is Disconnect && !final(self).confirmed()
                && !final(self).is_connected() && final(self).seq() == old(self).seq(),
            paired_with is Some && peer_ip is Some && desired == old(self).confirmed() ==> r is Idle
                && *final(self) == *old(self),
            paired_with is Some && peer_ip is Some && desired != old(self).confirmed() ==> {
                let reconnect = !old(self).is_connected() || old(self).stream_ip() != Some(peer_ip->0@);
                &&& reconnect ==> (r matches SenderPlan::Connect { ip } && ip@ == peer_ip->0@)
                    && !final(self).is_connected() && final(self).stream_ip() == Some(peer_ip->0@)
                &&& !reconnect ==> r is Send && *final(self) == *old(self)
                &&& final(self).confirmed() == old(self).confirmed()
                &&& final(self).seq() == old(self).seq()
            },
    {
        let ip = match (paired_with, peer_ip) {
            (Some(_), Some(ip)) => ip,
            _ => {
                self.connected = false;
                self.stream_peer_ip = None;
                self.last_confirmed = false;
                return SenderPlan::Disconnect;
            },
        };
        if desired == self.last_confirmed {
            return SenderPlan::Idle;
        }
        let same_ip = match &self.stream_peer_ip {
            Some(s) => str_eq(s.as_str(), ip.as_str()),
            None => false,
        };
        if !same_ip || !self.connected {
            self.connected = false;
            self.stream_peer_ip = Some(ip.clone());
            SenderPlan::Connect { ip: ip.clone() }
        } else {
            SenderPlan::Send
        }
    }

    /// Records whether the connection attempt succeeded.
    pub fn connected(&mut self, ok: bool)
        ensures
            final(self).is_connected() == ok,
            final(self).confirmed() == old(self).confirmed(),
            final(self).seq() == old(self).seq(),
            final(self).stream_ip() == old(self).stream_ip(),
    {
        self.connected = ok;
    }

    /// Next request line: the sequence number advances (wrapping) and the
    /// line asks for `sync_start` or `sync_stop` with it.
    pub fn request_line(&mut self, desired: bool) -> (line: String)
        ensures
            final(self).seq() == (if old(self).seq() == u64::MAX { 0 } else { (old(self).seq() + 1) as u64 }),
            line@ == sync_line(desired, final(self).seq()),
            final(self).confirmed() == old(self).confirmed(),
            final(self).is_connected() == old(self).is_connected(),
            final(self).stream_ip() == old(self).stream_ip(),
    {
        self.req_seq = self.req_seq.wrapping_add(1);
        let mut line = String::new();
        if desired {
            push_str(&mut line, "{\"cmd\":\"sync_start\",\"req_id\":");
        } else {
            push_str(&mut line, "{\"cmd\":\"sync_stop\",\"req_id\":");
        }
        push_decimal(&mut line, self.req_seq);
        push_str(&mut line, "}");
        line
    }

    /// Takes the outcome of the last request: when the line could be
    /// written and the reply acknowledges it, the wish counts as
    /// confirmed; otherwise the connection is dropped and the request will
    /// be repeated. Returns whether the request was acknowledged.
    pub fn on_reply(&mut self, desired: bool, written: bool, reply: &Option<JsonValue>) -> (acked: bool)
        ensures
            acked == (written && (reply matches Some(v) && acknowledges(*v, desired, old(self).seq()))),
            ({
                &&& acked ==> final(self).confirmed() == desired && final(self).is_connected() == old(self).is_connected()
                &&& !acked ==> final(self).confirmed() == old(self).confirmed() && !final(self).is_connected()
                &&& final(self).seq() == old(self).seq()
                &&& final(self).stream_ip() == old(self).stream_ip()
            }),
    {
        let acked = written && match reply {
            Some(v) => {
                let status_ok = match get_str(v, "status") {
                    Some(s) => str_eq(s, "ok"),
                    None => false,
                };
                let expected = if desired { "sync_start" } else { "sync_stop" };
                let ack_ok = match get_str(v, "ack") {
                    Some(a) => str_eq(a, expected),
                    None => false,
                };
                let id_ok = match get_u64(v, "req_id") {
                    Some(id) => id == self.req_seq,
                    None => false,
                };
                status_ok && ack_ok && id_ok
            },
            None => false,
        };
        if acked {
            self.last_confirmed = desired;
        } else {
            self.connected = false;
        }
        acked
    }

    /// Takes the peer's answer line (without its line end) as
    /// [`SyncSender::on_reply`] does: its text, decoded and trimmed, is
    /// parsed when not empty.
    pub fn on_reply_line(&mut self, desired: bool, written: bool, line: &[u8]) -> (acked: bool)
        ensures
            ({
                let text = trimmed(utf8_lossy(line@));
                let reply = if text.len() == 0 { None } else { parsed_json(text) };
                &&& acked == (written && (reply matches Some(v) && acknowledges(v, desired, old(self).seq())))
                &&& acked ==> final(self).confirmed() == desired && final(self).is_connected() == old(self).is_connected()
                &&& !acked ==> final(self).confirmed() == old(self).confirmed() && !final(self).is_connected()
                &&& final(self).seq() == old(self).seq()
                &&& final(self).stream_ip() == old(self).stream_ip()
            }),
    {
        let text = line_text(line);
        let text = trim_text(text.as_str());
        let reply = if text.as_str().is_empty() { None } else { parse_json(text.as_str()) };
        self.on_reply(desired, written, &reply)
    }
}

/// Law: the acknowledged state only ever changes to a wish that the peer
/// acknowledged for the request just sent.
pub proof fn law_confirmation_needs_ack(
    before: SyncSender,
    after: SyncSender,
    desired: bool,
    written: bool,
    reply: Option<JsonValue>,
)
    requires
        after.confirmed() != before.confirmed(),
        ({
            let acked = written && (reply matches Some(v) && acknowledges(v, desired, before.seq()));
            &&& acked ==> after.confirmed() == desired
            &&& !acked ==> after.confirmed() == before.confirmed()
        }),
    ensures
        written,
        reply matches Some(v) && acknowledges(v, desired, before.seq()),
        after.confirmed() == desired,
{
}

/// What the station announces on the local network every few seconds.
pub enum Announcement {
    /// During provisioning: the token the phone waits for.
    Binding { token: String },
    /// Bound to a phone.
    Heartbeat,
    /// Not bound: discoverable.
    Hello,
}

/// The announcement for the current state: `binding` while a provisioning
/// token is held, else `heartbeat` when bound, else `hello`.
pub fn udp_announcement(state: &StaState) -> (a: Announcement)
    ensures
        state@.bind_token matches Some(t) ==> (a matches Announcement::Binding { token } && token@ == t),
        state@.bind_token is None && state@.bound ==> a is Heartbeat,
        state@.bind_token is None && !state@.bound ==> a is Hello,
{
    match state.bind_token() {
        Some(token) => Announcement::Binding { token },
        None => {
            let (bound, _) = state.binding();
            if bound {
                Announcement::Heartbeat
            } else {
                Announcement::Hello
            }
        },
    }
}

} // verus!
