//! Station-mode control: binding to the owner's phone, pairing with another
//! device, remote wing synchronisation and the Wi-Fi list kept for later
//! reconnection.
//!
//! [`StaState`] holds what the control connections share. A command line is
//! handled by [`StaState::process_sta_command`], which updates the state and
//! says what the caller has to do: answer, persist, notify the peer, move a
//! servo, ask a target device, or start the synchronisation task.

use vstd::prelude::*;
use vstd::string::*;
use crate::text::{chars_of, str_eq};
use crate::json::{JsonValue, json_get, json_as_str, json_as_u64, str_field, u64_field, get_str, get_u64, parsed_json, parse_json};
use crate::dns::utf8_lossy;
use crate::protocol::line::line_text;
use crate::wifi::{sec_name, sec_to_auth};
use crate::config::SERVO2_CMD_NEUTRAL;

verus! {

/// Most pair requests kept waiting for an answer.
pub const MAX_PENDING_PAIR_REQUESTS: usize = 64;

/// A pending pair request: requesting device id and its address.
pub type PendingView = (Seq<char>, Seq<char>);

/// A remembered Wi-Fi network: SSID, password and authentication name.
pub type NetworkView = (Seq<char>, Option<Seq<char>>, Seq<char>);

/// The view of an optional text.
pub open spec fn ov(o: Option<String>) -> Option<Seq<char>> {
    match o {
        Some(s) => Some(s@),
        None => None,
    }
}

/// Views of pending requests.
pub open spec fn pending_view(v: Seq<(String, String)>) -> Seq<PendingView> {
    Seq::new(v.len(), |i: int| (v[i].0@, v[i].1@))
}

/// Views of remembered networks.
pub open spec fn networks_view(v: Seq<(String, Option<String>, String)>) -> Seq<NetworkView> {
    Seq::new(v.len(), |i: int| (v[i].0@, ov(v[i].1), v[i].2@))
}

/// The requests of `p` that do not come from `id`, in order.
pub open spec fn without(p: Seq<PendingView>, id: Seq<char>) -> Seq<PendingView>
    decreases p.len(),
{
    if p.len() == 0 {
        Seq::empty()
    } else {
        without(p.drop_last(), id) + (if p.last().0 == id { Seq::empty() } else { seq![p.last()] })
    }
}

/// No two requests come from the same device.
pub open spec fn ids_unique(p: Seq<PendingView>) -> bool {
    forall|i: int, j: int| 0 <= i < j < p.len() ==> p[i].0 != p[j].0
}

/// Whether some request comes from `id`.
pub open spec fn has_request(p: Seq<PendingView>, id: Seq<char>) -> bool {
    exists|i: int| 0 <= i < p.len() && p[i].0 == id
}

/// The queue after a request from `id` at `ip`: an earlier request from
/// `id` is dropped, the oldest requests are dropped so that at most 64
/// remain, and the new request goes last.
pub open spec fn queue_request(p: Seq<PendingView>, id: Seq<char>, ip: Seq<char>) -> Seq<PendingView> {
    let r = without(p, id);
    let kept = if r.len() >= 64 { r.skip(r.len() - 63) } else { r };
    kept.push((id, ip))
}

/// Address of the first request from `id`.
pub open spec fn lookup(p: Seq<PendingView>, id: Seq<char>) -> Option<Seq<char>>
    decreases p.len(),
{
    if p.len() == 0 {
        None
    } else if p[0].0 == id {
        Some(p[0].1)
    } else {
        lookup(p.drop_first(), id)
    }
}

/// The shared station-mode state, as a mathematical value.
pub struct StaView {
    pub bound: bool,
    pub phone_id: Option<Seq<char>>,
    pub pending: Seq<PendingView>,
    pub paired_with: Option<Seq<char>>,
    pub peer_ip: Option<Seq<char>>,
    pub last_trigger_ms: u64,
    pub triggered_count: u32,
    pub sync_running: bool,
    pub wifi_list: Seq<NetworkView>,
    pub bind_token: Option<Seq<char>>,
}

/// State shared by the station-mode services.
pub struct StaState {
    bound: bool,
    phone_id: Option<String>,
    pending: Vec<(String, String)>,
    paired_with: Option<String>,
    peer_ip: Option<String>,
    last_trigger_ms: u64,
    triggered_count: u32,
    sync_running: bool,
    wifi_list: Vec<(String, Option<String>, String)>,
    bind_token: Option<String>,
}

impl View for StaState {
    type V = StaView;

    closed spec fn view(&self) -> StaView {
        StaView {
            bound: self.bound,
            phone_id: ov(self.phone_id),
            pending: pending_view(self.pending@),
            paired_with: ov(self.paired_with),
            peer_ip: ov(self.peer_ip),
            last_trigger_ms: self.last_trigger_ms,
            triggered_count: self.triggered_count,
            sync_running: self.sync_running,
            wifi_list: networks_view(self.wifi_list@),
            bind_token: ov(self.bind_token),
        }
    }
}

/// The pending-request queue is bounded and holds one request per device.
pub open spec fn queue_ok(p: Seq<PendingView>) -> bool {
    p.len() <= 64 && ids_unique(p)
}

pub(crate) proof fn lemma_without_facts(p: Seq<PendingView>, id: Seq<char>)
    ensures
        without(p, id).len() <= p.len(),
        forall|k: int| 0 <= k < without(p, id).len() ==> #[trigger] without(p, id)[k].0 != id,
        forall|k: int| 0 <= k < without(p, id).len() ==> p.contains(#[trigger] without(p, id)[k]),
        ids_unique(p) ==> ids_unique(without(p, id)),
    decreases p.len(),
{
    if p.len() > 0 {
        let q = p.drop_last();
        lemma_without_facts(q, id);
        let w = without(q, id);
        let r = without(p, id);
        assert forall|k: int| 0 <= k < r.len() implies #[trigger] r[k].0 != id && p.contains(r[k]) by {
            if k < w.len() {
                assert(r[k] == w[k]);
                let j = choose|j: int| 0 <= j < q.len() && q[j] == w[k];
                assert(p[j] == q[j]);
            } else {
                assert(r[k] == p.last());
                assert(p[p.len() - 1] == p.last());
            }
        }
        if ids_unique(p) {
            assert(ids_unique(q));
            assert forall|i: int, j: int| 0 <= i < j < r.len() implies r[i].0 != r[j].0 by {
                if j < w.len() {
                    assert(r[i] == w[i] && r[j] == w[j]);
                } else {
                    assert(r[j] == p.last());
                    assert(r[i] == w[i]);
                    let a = choose|a: int| 0 <= a < q.len() && q[a] == w[i];
                    assert(p[a] == q[a]);
                    assert(p[p.len() - 1] == p.last());
                }
            }
        }
    }
}

/// Queueing a request keeps the queue bounded and one request per device;
/// the new request is the last one and the only one from its device.
pub proof fn lemma_queue_request(p: Seq<PendingView>, id: Seq<char>, ip: Seq<char>)
    requires
        queue_ok(p),
    ensures
        queue_ok(queue_request(p, id, ip)),
        queue_request(p, id, ip).last() == (id, ip),
        forall|k: int| 0 <= k < queue_request(p, id, ip).len() - 1 ==> #[trigger] queue_request(p, id, ip)[k].0 != id,
{
    lemma_without_facts(p, id);
    let r = without(p, id);
    let kept = if r.len() >= 64 { r.skip(r.len() - 63) } else { r };
    let q = queue_request(p, id, ip);
    assert forall|k: int| 0 <= k < kept.len() implies #[trigger] kept[k].0 != id by {
        if r.len() >= 64 {
            assert(kept[k] == r[k + r.len() - 63]);
        }
    }
    assert forall|i: int, j: int| 0 <= i < j < q.len() implies q[i].0 != q[j].0 by {
        if j < kept.len() {
            if r.len() >= 64 {
                assert(kept[i] == r[i + r.len() - 63]);
                assert(kept[j] == r[j + r.len() - 63]);
            }
        } else {
            assert(q[j] == (id, ip));
            assert(q[i] == kept[i]);
        }
    }
    assert forall|k: int| 0 <= k < q.len() - 1 implies #[trigger] q[k].0 != id by {
        assert(q[k] == kept[k]);
    }
}

pub(crate) proof fn lemma_lookup_has(p: Seq<PendingView>, id: Seq<char>)
    ensures
        lookup(p, id) is Some <==> has_request(p, id),
        lookup(p, id) matches Some(ip) ==> p.contains((id, ip)),
    decreases p.len(),
{
    if p.len() > 0 {
        let q = p.drop_first();
        lemma_lookup_has(q, id);
        if has_request(p, id) && p[0].0 != id {
            let i = choose|i: int| 0 <= i < p.len() && p[i].0 == id;
            assert(q[i - 1] == p[i]);
        }
        if has_request(q, id) {
            let i = choose|i: int| 0 <= i < q.len() && q[i].0 == id;
            assert(p[i + 1] == q[i]);
        }
        if lookup(p, id) is Some && p[0].0 != id {
            let ip = lookup(q, id)->0;
            let j = choose|j: int| 0 <= j < q.len() && q[j] == (id, ip);
            assert(p[j + 1] == q[j]);
        }
        if p[0].0 == id {
            assert(p[0] == (id, p[0].1));
        }
    }
}

/// Queue with every request of `id` removed.
fn remove_requests(v: &Vec<(String, String)>, id: &str) -> (r: Vec<(String, String)>)
    ensures
        pending_view(r@) == without(pending_view(v@), id@),
{
    let mut out: Vec<(String, String)> = Vec::new();
    let n = v.len();
    for i in 0..n
        invariant
            n == v@.len(),
            pending_view(out@) == without(pending_view(v@.take(i as int)), id@),
    {
        assert(pending_view(v@.take(i + 1)).drop_last() =~= pending_view(v@.take(i as int)));
        assert(pending_view(v@.take(i + 1)).last() == (v@[i as int].0@, v@[i as int].1@));
        if !str_eq(v[i].0.as_str(), id) {
            let e = (v[i].0.clone(), v[i].1.clone());
            let ghost before = out@;
            out.push(e);
            assert(pending_view(out@) =~= pending_view(before) + seq![(v@[i as int].0@, v@[i as int].1@)]);
        } else {
            assert(pending_view(out@) + Seq::<PendingView>::empty() =~= pending_view(out@));
        }
    }
    assert(v@.take(n as int) =~= v@);
    out
}

/// Address of the first request from `id`.
fn find_request(v: &Vec<(String, String)>, id: &str) -> (r: Option<String>)
    ensures
        ov(r) == lookup(pending_view(v@), id@),
{
    let n = v.len();
    assert(pending_view(v@).skip(0) =~= pending_view(v@));
    for i in 0..n
        invariant
            n == v@.len(),
            lookup(pending_view(v@), id@) == lookup(pending_view(v@).skip(i as int), id@),
    {
        let ghost t = pending_view(v@).skip(i as int);
        assert(t.drop_first() =~= pending_view(v@).skip(i + 1));
        assert(t[0] == (v@[i as int].0@, v@[i as int].1@));
        if str_eq(v[i].0.as_str(), id) {
            return Some(v[i].1.clone());
        }
    }
    assert(pending_view(v@).skip(n as int) =~= Seq::<PendingView>::empty());
    None
}

/// A copy of an optional text.
fn clone_opt(o: &Option<String>) -> (r: Option<String>)
    ensures
        ov(r) == ov(*o),
{
    match o {
        Some(s) => Some(s.clone()),
        None => None,
    }
}

/// A copy of the pending queue.
fn clone_pending(v: &Vec<(String, String)>) -> (r: Vec<(String, String)>)
    ensures
        pending_view(r@) == pending_view(v@),
{
    let mut out: Vec<(String, String)> = Vec::new();
    let n = v.len();
    for i in 0..n
        invariant
            n == v@.len(),
            pending_view(out@) == pending_view(v@.take(i as int)),
    {
        let a = v[i].0.clone();
        let b = v[i].1.clone();
        let ghost before = out@;
        out.push((a, b));
        assert(a == v@[i as int].0 && b == v@[i as int].1);
        assert(pending_view(out@) =~= pending_view(before).push((a@, b@)));
        assert(pending_view(v@.take(i + 1)) =~= pending_view(v@.take(i as int)).push((a@, b@)));
    }
    assert(v@.take(n as int) =~= v@);
    out
}

/// Something the caller carries out after a command changed the state.
pub enum StaEffect {
    /// Persist the binding.
    SaveBinding { bound: bool, phone_id: Option<String> },
    /// Persist the pairing.
    SavePair { paired_with: Option<String>, peer_ip: Option<String> },
    /// Tell the device at `ip` that its pair request was accepted.
    NotifyPairAccepted { ip: String },
    /// Tell the device at `ip` that the pairing is dissolved.
    NotifyUnpair { ip: String },
    /// Move the positional servo.
    SetServo(u16),
    /// Set the continuous servo command.
    SetServo2(u16),
}

/// Answer line of the control protocol.
pub enum StaReply {
    /// `{"status":"ok"}`
    Success,
    /// `{"status":"ok","message":"pending"}`, after queueing a request.
    PendingQueued,
    /// The target device queued our pair request.
    Pending,
    /// The target device accepted our pair request; its address.
    PairAccepted { peer_ip: String },
    /// Acknowledgement of a synchronisation command.
    Ack { ack: &'static str, req_id: Option<u64> },
    /// The pending pair requests.
    PendingList(Vec<(String, String)>),
    /// Pairing status.
    PairStatus { paired_with: String, peer_ip: String, triggered_count: u32 },
    /// A failure with a machine code and a message.
    Error { code: String, message: String },
}

/// What the caller does next with a command.
pub enum StaStep {
    /// Carry out the effects, in order, then send the reply.
    Respond { effects: Vec<StaEffect>, reply: StaReply },
    /// Move servo 1 (or servo 2 when `servo2`) and answer with [`servo_reply`].
    MoveServo { servo2: bool, angle: u16 },
    /// Run the servo demonstration and answer with [`servo_reply`].
    DemoServo,
    /// Send our pair request to the target and finish with
    /// [`StaState::finish_pair_request`].
    AskPeer { target_ip: String, target_device_id: String },
    /// Carry out the effects, start the synchronisation task and finish with
    /// [`StaState::finish_sync_start`].
    SpawnSync { effects: Vec<StaEffect>, req_id: Option<u64> },
}

/// Mathematical form of an effect.
pub enum EffectView {
    SaveBinding(bool, Option<Seq<char>>),
    SavePair(Option<Seq<char>>, Option<Seq<char>>),
    NotifyPairAccepted(Seq<char>),
    NotifyUnpair(Seq<char>),
    SetServo(u16),
    SetServo2(u16),
}

/// Mathematical form of a reply.
pub enum ReplyView {
    Success,
    PendingQueued,
    Pending,
    PairAccepted(Seq<char>),
    Ack(Seq<char>, Option<u64>),
    PendingList(Seq<PendingView>),
    PairStatus(Seq<char>, Seq<char>, u32),
    Error(Seq<char>, Seq<char>),
}

/// Mathematical form of a step.
pub enum StepView {
    Respond(Seq<EffectView>, ReplyView),
    MoveServo(bool, u16),
    DemoServo,
    AskPeer(Seq<char>, Seq<char>),
    SpawnSync(Seq<EffectView>, Option<u64>),
}

impl View for StaEffect {
    type V = EffectView;

    open spec fn view(&self) -> EffectView {
        match self {
            StaEffect::SaveBinding { bound, phone_id } => EffectView::SaveBinding(*bound, ov(*phone_id)),
            StaEffect::SavePair { paired_with, peer_ip } => EffectView::SavePair(ov(*paired_with), ov(*peer_ip)),
            StaEffect::NotifyPairAccepted { ip } => EffectView::NotifyPairAccepted(ip@),
            StaEffect::NotifyUnpair { ip } => EffectView::NotifyUnpair(ip@),
            StaEffect::SetServo(a) => EffectView::SetServo(*a),
            StaEffect::SetServo2(a) => EffectView::SetServo2(*a),
        }
    }
}

impl View for StaReply {
    type V = ReplyView;

    open spec fn view(&self) -> ReplyView {
        match self {
            StaReply::Success => ReplyView::Success,
            StaReply::PendingQueued => ReplyView::PendingQueued,
            StaReply::Pending => ReplyView::Pending,
            StaReply::PairAccepted { peer_ip } => ReplyView::PairAccepted(peer_ip@),
            StaReply::Ack { ack, req_id } => ReplyView::Ack(ack@, *req_id),
            StaReply::PendingList(v) => ReplyView::PendingList(pending_view(v@)),
            StaReply::PairStatus { paired_with, peer_ip, triggered_count } => ReplyView::PairStatus(
                paired_with@,
                peer_ip@,
                *triggered_count,
            ),
            StaReply::Error { code, message } => ReplyView::Error(code@, message@),
        }
    }
}

/// Views of effects.
pub open spec fn effects_view(v: Seq<StaEffect>) -> Seq<EffectView> {
    Seq::new(v.len(), |i: int| v[i]@)
}

impl View for StaStep {
    type V = StepView;

    open spec fn view(&self) -> StepView {
        match self {
            StaStep::Respond { effects, reply } => StepView::Respond(effects_view(effects@), reply@),
            StaStep::MoveServo { servo2, angle } => StepView::MoveServo(*servo2, *angle),
            StaStep::DemoServo => StepView::DemoServo,
            StaStep::AskPeer { target_ip, target_device_id } => StepView::AskPeer(target_ip@, target_device_id@),
            StaStep::SpawnSync { effects, req_id } => StepView::SpawnSync(effects_view(effects@), *req_id),
        }
    }
}

/// A step that only answers.
fn respond(reply: StaReply) -> (r: StaStep)
    ensures
        r@ == StepView::Respond(Seq::empty(), reply@),
{
    let effects: Vec<StaEffect> = Vec::new();
    assert(effects_view(effects@) =~= Seq::<EffectView>::empty());
    StaStep::Respond { effects, reply }
}

/// An error reply with literal code and message.
fn error_reply(code: &str, message: &str) -> (r: StaReply)
    ensures
        r@ == ReplyView::Error(code@, message@),
{
    StaReply::Error { code: String::from_str(code), message: String::from_str(message) }
}

/// Answer to a servo move: ok, or `servo_error` with the failure text.
pub fn servo_reply(result: Result<(), String>) -> (r: StaReply)
    ensures
        result is Ok ==> r@ == ReplyView::Success,
        result matches Err(e) ==> r@ == ReplyView::Error("servo_error"@, e@),
{
    match result {
        Ok(()) => StaReply::Success,
        Err(e) => StaReply::Error { code: String::from_str("servo_error"), message: e },
    }
}

/// A control message as the state sees it: its JSON document, or `None`
/// when the line is not valid JSON.
pub open spec fn cmd_of(v: JsonValue) -> Option<Seq<char>> {
    str_field(v, "cmd"@)
}

/// The text before the first `:` of a socket address (the whole text when
/// it has none).
pub open spec fn before_colon(s: Seq<char>) -> Seq<char> {
    if exists|i: int| 0 <= i < s.len() && s[i] == ':' {
        s.take(choose|i: int| 0 <= i < s.len() && s[i] == ':' && forall|j: int| 0 <= j < i ==> s[j] != ':')
    } else {
        s
    }
}

/// Host part of a peer's socket address.
pub fn host_of(addr: &str) -> (r: String)
    ensures
        r@ == before_colon(addr@),
{
    let cs = chars_of(addr);
    let n = cs.len();
    let mut i: usize = 0;
    while i < n
        invariant
            n == cs@.len(),
            cs@ == addr@,
            i <= n,
            forall|j: int| 0 <= j < i ==> cs@[j] != ':',
        decreases n - i,
    {
        if cs[i] == ':' {
            let r = crate::text::string_from_chars(&cs.as_slice()[0..i]);
            proof {
                let w = choose|w: int| 0 <= w < cs@.len() && cs@[w] == ':' && forall|j: int| 0 <= j < w ==> cs@[j] != ':';
                assert(0 <= i < cs@.len() && cs@[i as int] == ':');
                if w < i {
                } else if w > i {
                }
                assert(w == i);
            }
            return r;
        }
        i = i + 1;
    }
    crate::text::string_from_chars(cs.as_slice())
}

/// Networks of an `update_wifi_list` request: each object with a string
/// `ssid`, an optional string `pwd` and a numeric `sec` (default 3, taken
/// modulo 256); other elements are skipped.
pub open spec fn networks_from(a: Seq<JsonValue>) -> Seq<NetworkView>
    decreases a.len(),
{
    if a.len() == 0 {
        Seq::empty()
    } else {
        let n = a.last();
        let rest = networks_from(a.drop_last());
        if (n is Object) && str_field(n, "ssid"@) is Some {
            let sec: u64 = match u64_field(n, "sec"@) { Some(s) => s, None => 3 };
            rest.push((str_field(n, "ssid"@)->0, str_field(n, "pwd"@), sec_name(sec as u8)))
        } else {
            rest
        }
    }
}

/// Request id of a synchronisation command: `req_id`, or `req` when there
/// is no `req_id` member, when it is a `u64`.
pub open spec fn req_id_of(v: JsonValue) -> Option<u64> {
    match json_get(v, "req_id"@) {
        Some(x) => json_as_u64(Some(x)),
        None => u64_field(v, "req"@),
    }
}

/// The rest angle nearer the current angle: 25 or 130 (25 on a tie).
pub open spec fn nearer_rest(current: u16) -> u16 {
    let d25 = if current >= 25 { current - 25 } else { 25 - current };
    let d130 = if current >= 130 { current - 130 } else { 130 - current };
    if d25 <= d130 { 25 } else { 130 }
}

/// Who is calling and what hardware is there.
pub struct StaContext {
    /// This device's id.
    pub device_id: String,
    /// Whether servo 1 is available.
    pub has_servo: bool,
    /// Whether servo 2 is available.
    pub has_servo2: bool,
    /// Current angle of servo 1.
    pub servo_angle: u16,
    /// Socket address of the connected client, as text.
    pub peer_addr: Option<String>,
}

/// Outcome of sending our pair request to a target device.
pub enum PeerExchange {
    /// `target_ip:12345` is no socket address.
    InvalidAddress,
    /// The connection failed or timed out.
    ConnectFailed,
    /// The target closed or answered an empty line.
    EmptyReply,
    /// The reply line is not JSON.
    InvalidReply,
    /// The reply.
    Reply(JsonValue),
}

/// The state after a `bind` from `phone`.
pub open spec fn bound_to(s: StaView, phone: Seq<char>) -> StaView {
    StaView { bound: true, phone_id: Some(phone), bind_token: None, ..s }
}

/// The state after `unbind`.
pub open spec fn unbound(s: StaView) -> StaView {
    StaView { bound: false, phone_id: None, bind_token: None, ..s }
}

/// The state after a pair request from `id` at `ip` was queued.
pub open spec fn queued(s: StaView, id: Seq<char>, ip: Seq<char>) -> StaView {
    StaView { pending: queue_request(s.pending, id, ip), ..s }
}

/// The state after accepting the pending request of `id` at `ip`.
pub open spec fn accepted(s: StaView, id: Seq<char>, ip: Seq<char>) -> StaView {
    StaView { pending: without(s.pending, id), paired_with: Some(id), peer_ip: Some(ip), ..s }
}

/// The state after rejecting the requests of `id`.
pub open spec fn rejected(s: StaView, id: Seq<char>) -> StaView {
    StaView { pending: without(s.pending, id), ..s }
}

/// The state after dissolving the pairing and dropping pending requests.
pub open spec fn unpaired(s: StaView) -> StaView {
    StaView { pending: Seq::empty(), paired_with: None, peer_ip: None, ..s }
}

/// The state after the peer dissolved the pairing (pending requests stay).
pub open spec fn unpair_notified(s: StaView) -> StaView {
    StaView { paired_with: None, peer_ip: None, ..s }
}

/// Address a `pair_accepted` message makes the peer's: its non-empty
/// `peer_ip`; without a string `peer_ip`, the host of the connection when
/// known and non-empty; otherwise none (the stored address stays).
pub open spec fn accepted_ip(v: JsonValue, peer_addr: Option<Seq<char>>) -> Option<Seq<char>> {
    match str_field(v, "peer_ip"@) {
        Some(r) => if r.len() > 0 { Some(r) } else { None },
        None => match peer_addr {
            Some(a) => if before_colon(a).len() > 0 { Some(before_colon(a)) } else { None },
            None => None,
        },
    }
}

/// The state after a `pair_accepted` message from `id`.
pub open spec fn pair_accepted_state(s: StaView, id: Seq<char>, ip: Option<Seq<char>>) -> StaView {
    StaView { paired_with: Some(id), peer_ip: if ip is Some { ip } else { s.peer_ip }, ..s }
}

/// Address recorded for a queued request: host of the connection, or
/// `0.0.0.0` when unknown.
pub open spec fn requester_ip(peer_addr: Option<Seq<char>>) -> Seq<char> {
    match peer_addr {
        Some(a) => before_colon(a),
        None => "0.0.0.0"@,
    }
}

/// The state and step for one command, given the context's view.
pub open spec fn sta_step(
    s: StaView,
    msg: Option<JsonValue>,
    device_id: Seq<char>,
    has_servo: bool,
    has_servo2: bool,
    servo_angle: u16,
    peer_addr: Option<Seq<char>>,
) -> (StaView, StepView) {
    let ok = StepView::Respond(Seq::empty(), ReplyView::Success);
    match msg {
        None => (s, StepView::Respond(Seq::empty(), ReplyView::Error("invalid_json"@, "invalid json"@))),
        Some(v) => {
            let c = cmd_of(v);
            if c == Some("demo_servo"@) {
                if has_servo {
                    (s, StepView::DemoServo)
                } else {
                    (s, StepView::Respond(Seq::empty(), ReplyView::Error("servo_unavailable"@, "servo unavailable"@)))
                }
            } else if c == Some("move_servo"@) {
                let idx: u64 = match u64_field(v, "servo"@) { Some(x) => x, None => 0 };
                let angle: u16 = (match u64_field(v, "angle"@) { Some(x) => x, None => 90 }) as u16;
                let available = if idx == 0 { has_servo } else { has_servo2 };
                if !available {
                    (s, StepView::Respond(Seq::empty(), ReplyView::Error("servo_unavailable"@, "servo unavailable"@)))
                } else if idx == 0 {
                    (s, StepView::MoveServo(false, if angle > 300 { 300 } else { angle }))
                } else {
                    (s, StepView::MoveServo(true, if angle > 180 { 180 } else { angle }))
                }
            } else if c == Some("bind"@) {
                let phone = match str_field(v, "phone"@) { Some(p) => p, None => Seq::empty() };
                (bound_to(s, phone), StepView::Respond(seq![EffectView::SaveBinding(true, Some(phone))], ReplyView::Success))
            } else if c == Some("unbind"@) {
                (unbound(s), StepView::Respond(seq![EffectView::SaveBinding(false, None)], ReplyView::Success))
            } else if c == Some("pair_request"@) {
                if str_field(v, "target_ip"@) is Some && str_field(v, "target_device_id"@) is Some {
                    (s, StepView::AskPeer(str_field(v, "target_ip"@)->0, str_field(v, "target_device_id"@)->0))
                } else if str_field(v, "from_device_id"@) is Some {
                    let id = str_field(v, "from_device_id"@)->0;
                    (queued(s, id, requester_ip(peer_addr)), StepView::Respond(Seq::empty(), ReplyView::PendingQueued))
                } else {
                    (s, StepView::Respond(Seq::empty(), ReplyView::Error(
                        "missing_target_ip_or_from_device_id"@,
                        "missing target_ip or from_device_id"@,
                    )))
                }
            } else if c == Some("get_pending_pair_requests"@) {
                (s, StepView::Respond(Seq::empty(), ReplyView::PendingList(s.pending)))
            } else if c == Some("get_pair_status"@) {
                (s, StepView::Respond(Seq::empty(), ReplyView::PairStatus(
                    match s.paired_with { Some(p) => p, None => Seq::empty() },
                    match s.peer_ip { Some(p) => p, None => Seq::empty() },
                    s.triggered_count,
                )))
            } else if c == Some("sync_start"@) {
                if s.sync_running {
                    (s, StepView::Respond(Seq::empty(), ReplyView::Ack("sync_start"@, req_id_of(v))))
                } else {
                    (StaView { sync_running: true, ..s }, StepView::SpawnSync(
                        if has_servo2 { seq![EffectView::SetServo2(90)] } else { Seq::empty() },
                        req_id_of(v),
                    ))
                }
            } else if c == Some("sync_stop"@) {
                let e1: Seq<EffectView> = if has_servo { seq![EffectView::SetServo(nearer_rest(servo_angle))] } else { Seq::empty() };
                let e2: Seq<EffectView> = if has_servo2 { seq![EffectView::SetServo2(90)] } else { Seq::empty() };
                (StaView { sync_running: false, ..s }, StepView::Respond(e1 + e2, ReplyView::Ack("sync_stop"@, req_id_of(v))))
            } else if c == Some("accept_pair"@) {
                let id = match str_field(v, "from_device_id"@) { Some(x) => x, None => Seq::empty() };
                match lookup(s.pending, id) {
                    Some(ip) => (accepted(s, id, ip), StepView::Respond(
                        seq![EffectView::SavePair(Some(id), Some(ip)), EffectView::NotifyPairAccepted(ip)],
                        ReplyView::Success,
                    )),
                    None => (s, StepView::Respond(Seq::empty(), ReplyView::Error("pending_not_found"@, "pending request not found"@))),
                }
            } else if c == Some("reject_pair"@) {
                let id = match str_field(v, "from_device_id"@) { Some(x) => x, None => Seq::empty() };
                (rejected(s, id), ok)
            } else if c == Some("pair_accepted"@) {
                match str_field(v, "device_id"@) {
                    Some(id) => {
                        let t = pair_accepted_state(s, id, accepted_ip(v, peer_addr));
                        (t, StepView::Respond(seq![EffectView::SavePair(t.paired_with, t.peer_ip)], ReplyView::Success))
                    },
                    None => (s, StepView::Respond(Seq::empty(), ReplyView::Error("missing_device_id"@, "missing device_id"@))),
                }
            } else if c == Some("unpair"@) {
                let peer = match str_field(v, "peer_ip"@) { Some(p) => Some(p), None => s.peer_ip };
                let notify: Seq<EffectView> = match peer { Some(p) => seq![EffectView::NotifyUnpair(p)], None => Seq::empty() };
                (unpaired(s), StepView::Respond(seq![EffectView::SavePair(None, None)] + notify, ReplyView::Success))
            } else if c == Some("unpair_notify"@) {
                if json_get(v, "device_id"@) is Some {
                    (unpair_notified(s), StepView::Respond(seq![EffectView::SavePair(None, None)], ReplyView::Success))
                } else {
                    (s, StepView::Respond(Seq::empty(), ReplyView::Error("missing_device_id"@, "missing device_id"@)))
                }
            } else if c == Some("update_wifi_list"@) {
                match json_get(v, "networks"@) {
                    Some(JsonValue::Array(a)) => (StaView { wifi_list: networks_from(a@), ..s }, ok),
                    _ => (s, StepView::Respond(Seq::empty(), ReplyView::Error("missing_networks"@, "missing networks"@))),
                }
            } else {
                (s, StepView::Respond(Seq::empty(), ReplyView::Error("unknown_cmd"@, "unknown cmd"@)))
            }
        },
    }
}

/// The state nothing has happened to yet.
pub open spec fn initial_view() -> StaView {
    StaView {
        bound: false,
        phone_id: None,
        pending: Seq::empty(),
        paired_with: None,
        peer_ip: None,
        last_trigger_ms: 0,
        triggered_count: 0,
        sync_running: false,
        wifi_list: Seq::empty(),
        bind_token: None,
    }
}

/// Networks of an `update_wifi_list` array.
fn networks_from_exec(a: &Vec<JsonValue>) -> (r: Vec<(String, Option<String>, String)>)
    ensures
        networks_view(r@) == networks_from(a@),
{
    let mut out: Vec<(String, Option<String>, String)> = Vec::new();
    let n = a.len();
    for i in 0..n
        invariant
            n == a@.len(),
            networks_view(out@) == networks_from(a@.take(i as int)),
    {
        let e = &a[i];
        assert(a@.take(i + 1).drop_last() =~= a@.take(i as int));
        assert(a@.take(i + 1).last() == a@[i as int]);
        if e.is_object() {
            match get_str(e, "ssid") {
                Some(ssid) => {
                    let pwd = match get_str(e, "pwd") {
                        Some(p) => Some(String::from_str(p)),
                        None => None,
                    };
                    let sec: u64 = match get_u64(e, "sec") {
                        Some(x) => x,
                        None => 3,
                    };
                    let auth = sec_to_auth(sec as u8);
                    let item = (String::from_str(ssid), pwd, String::from_str(auth));
                    let ghost before = out@;
                    out.push(item);
                    assert(networks_view(out@) =~= networks_view(before).push((item.0@, ov(item.1), item.2@)));
                },
                None => {},
            }
        }
    }
    assert(a@.take(n as int) =~= a@);
    out
}

impl StaState {
    /// The pending queue stays bounded with one request per device.
    #[verifier::type_invariant]
    spec fn queue_invariant(&self) -> bool {
        queue_ok(pending_view(self.pending@))
    }

    /// Unbound, unpaired, idle state.
    pub fn new() -> (s: Self)
        ensures
            s@ == initial_view(),
    {
        let s = StaState {
            bound: false,
            phone_id: None,
            pending: Vec::new(),
            paired_with: None,
            peer_ip: None,
            last_trigger_ms: 0,
            triggered_count: 0,
            sync_running: false,
            wifi_list: Vec::new(),
            bind_token: None,
        };
        assert(pending_view(s.pending@) =~= Seq::<PendingView>::empty());
        assert(networks_view(s.wifi_list@) =~= Seq::<NetworkView>::empty());
        s
    }

    /// Number of pending pair requests; every state keeps at most 64, one
    /// per device.
    pub fn pending_count(&self) -> (n: usize)
        ensures
            n == self@.pending.len(),
            queue_ok(self@.pending),
    {
        proof {
            use_type_invariant(self);
        }
        self.pending.len()
    }

    /// Installs the binding and pairing read back from flash at start-up;
    /// pending requests are not kept across restarts.
    pub fn restore(&mut self, bound: bool, phone_id: Option<String>, paired_with: Option<String>, peer_ip: Option<String>)
        ensures
            final(self)@ == (StaView {
                bound,
                phone_id: ov(phone_id),
                pending: Seq::empty(),
                paired_with: ov(paired_with),
                peer_ip: ov(peer_ip),
                ..old(self)@
            }),
    {
        proof {
            use_type_invariant(&*self);
        }
        self.pending = Vec::new();
        assert(pending_view(self.pending@) =~= Seq::<PendingView>::empty());
        self.bound = bound;
        self.phone_id = phone_id;
        self.paired_with = paired_with;
        self.peer_ip = peer_ip;
        assert(pending_view(self.pending@) =~= Seq::<PendingView>::empty());
    }

    /// Whether the device is bound, and to which phone.
    pub fn binding(&self) -> (r: (bool, Option<String>))
        ensures
            r.0 == self@.bound,
            ov(r.1) == self@.phone_id,
    {
        (self.bound, clone_opt(&self.phone_id))
    }

    /// The provisioning token still being announced, if any.
    pub fn bind_token(&self) -> (r: Option<String>)
        ensures
            ov(r) == self@.bind_token,
    {
        clone_opt(&self.bind_token)
    }

    /// Hands over the provisioning token received with the Wi-Fi credentials.
    pub fn set_bind_token(&mut self, token: Option<String>)
        ensures
            final(self)@ == (StaView { bind_token: ov(token), ..old(self)@ }),
    {
        proof {
            use_type_invariant(&*self);
        }
        self.bind_token = token;
    }

    /// Paired device and its address.
    pub fn pairing(&self) -> (r: (Option<String>, Option<String>))
        ensures
            ov(r.0) == self@.paired_with,
            ov(r.1) == self@.peer_ip,
    {
        (clone_opt(&self.paired_with), clone_opt(&self.peer_ip))
    }

    /// Whether the peer currently drives our wings.
    pub fn is_sync_running(&self) -> (r: bool)
        ensures
            r == self@.sync_running,
    {
        self.sync_running
    }

    /// Marks the synchronisation task as finished.
    pub fn end_sync(&mut self)
        ensures
            final(self)@ == (StaView { sync_running: false, ..old(self)@ }),
    {
        proof {
            use_type_invariant(&*self);
        }
        self.sync_running = false;
    }

    /// Remembered Wi-Fi networks.
    pub fn wifi_networks(&self) -> (r: usize)
        ensures
            r == self@.wifi_list.len(),
    {
        self.wifi_list.len()
    }

    /// Records a remote trigger when the continuous servo is idle and at
    /// least `interval_ms` passed since the previous one; returns whether it
    /// did. The count saturates.
    pub fn claim_rotation(&mut self, now_ms: u64, idle: bool, interval_ms: u64) -> (r: bool)
        ensures
            r == (idle && (if now_ms >= old(self)@.last_trigger_ms { now_ms - old(self)@.last_trigger_ms } else { 0 })
                >= interval_ms),
            r ==> final(self)@ == (StaView {
                last_trigger_ms: now_ms,
                triggered_count: if old(self)@.triggered_count == u32::MAX { u32::MAX } else { (old(self)@.triggered_count + 1) as u32 },
                ..old(self)@
            }),
            !r ==> final(self)@ == old(self)@,
    {
        proof {
            use_type_invariant(&*self);
        }
        let since = now_ms.saturating_sub(self.last_trigger_ms);
        let should = idle && since >= interval_ms;
        if should {
            self.last_trigger_ms = now_ms;
            self.triggered_count = self.triggered_count.saturating_add(1);
        }
        should
    }

    /// Handles one control command (`None` when the line was not JSON):
    /// updates the state and says what the caller does next, as
    /// [`sta_step`] describes.
    pub fn process_sta_command(&mut self, msg: &Option<JsonValue>, ctx: &StaContext) -> (r: StaStep)
        ensures
            (final(self)@, r@) == sta_step(
                old(self)@,
                *msg,
                ctx.device_id@,
                ctx.has_servo,
                ctx.has_servo2,
                ctx.servo_angle,
                ov(ctx.peer_addr),
            ),
    {
        proof {
            use_type_invariant(&*self);
        }
        let v = match msg {
            None => return respond(error_reply("invalid_json", "invalid json")),
            Some(v) => v,
        };
        let c = match get_str(v, "cmd") {
            Some(c) => c,
            None => return respond(error_reply("unknown_cmd", "unknown cmd")),
        };
        if str_eq(c, "demo_servo") {
            self.cmd_demo_servo(v, ctx)
        } else if str_eq(c, "move_servo") {
            self.cmd_move_servo(v, ctx)
        } else if str_eq(c, "bind") {
            self.cmd_bind(v, ctx)
        } else if str_eq(c, "unbind") {
            self.cmd_unbind(v, ctx)
        } else if str_eq(c, "pair_request") {
            self.cmd_pair_request(v, ctx)
        } else if str_eq(c, "get_pending_pair_requests") {
            self.cmd_get_pending_pair_requests(v, ctx)
        } else if str_eq(c, "get_pair_status") {
            self.cmd_get_pair_status(v, ctx)
        } else if str_eq(c, "sync_start") {
            self.cmd_sync_start(v, ctx)
        } else if str_eq(c, "sync_stop") {
            self.cmd_sync_stop(v, ctx)
        } else if str_eq(c, "accept_pair") {
            self.cmd_accept_pair(v, ctx)
        } else if str_eq(c, "reject_pair") {
            self.cmd_reject_pair(v, ctx)
        } else if str_eq(c, "pair_accepted") {
            self.cmd_pair_accepted(v, ctx)
        } else if str_eq(c, "unpair") {
            self.cmd_unpair(v, ctx)
        } else if str_eq(c, "unpair_notify") {
            self.cmd_unpair_notify(v, ctx)
        } else if str_eq(c, "update_wifi_list") {
            self.cmd_update_wifi_list(v, ctx)
        } else {
            respond(error_reply("unknown_cmd", "unknown cmd"))
        }
    }

    /// Handles one control line (already trimmed, not empty): parses it
    /// and proceeds as [`StaState::process_sta_command`] does with the
    /// document.
    pub fn process_sta_line(&mut self, line: &str, ctx: &StaContext) -> (r: StaStep)
        ensures
            (final(self)@, r@) == sta_step(
                old(self)@,
                parsed_json(line@),
                ctx.device_id@,
                ctx.has_servo,
                ctx.has_servo2,
                ctx.servo_angle,
                ov(ctx.peer_addr),
            ),
    {
        let msg = parse_json(line);
        self.process_sta_command(&msg, ctx)
    }

    /// The `demo_servo` command.
    fn cmd_demo_servo(&mut self, v: &JsonValue, ctx: &StaContext) -> (r: StaStep)
        requires
            cmd_of(*v) == Some("demo_servo"@),
        ensures
            (final(self)@, r@) == sta_step(
                old(self)@,
                Some(*v),
                ctx.device_id@,
                ctx.has_servo,
                ctx.has_servo2,
                ctx.servo_angle,
                ov(ctx.peer_addr),
            ),
    {
        proof {
            use_type_invariant(&*self);
        }
        if ctx.has_servo {
            StaStep::DemoServo
        } else {
            respond(error_reply("servo_unavailable", "servo unavailable"))
        }
    }

    /// The `move_servo` command.
    fn cmd_move_servo(&mut self, v: &JsonValue, ctx: &StaContext) -> (r: StaStep)
        requires
            cmd_of(*v) == Some("move_servo"@),
            cmd_of(*v) != Some("demo_servo"@),
        ensures
            (final(self)@, r@) == sta_step(
                old(self)@,
                Some(*v),
                ctx.device_id@,
                ctx.has_servo,
                ctx.has_servo2,
                ctx.servo_angle,
                ov(ctx.peer_addr),
            ),
    {
        proof {
            use_type_invariant(&*self);
        }
        let idx: u64 = match get_u64(v, "servo") { Some(x) => x, None => 0 };
        let raw: u64 = match get_u64(v, "angle") { Some(x) => x, None => 90 };
        let angle: u16 = #[verifier::truncate] (raw as u16);
        let available = if idx == 0 { ctx.has_servo } else { ctx.has_servo2 };
        if !available {
            respond(error_reply("servo_unavailable", "servo unavailable"))
        } else if idx == 0 {
            StaStep::MoveServo { servo2: false, angle: if angle > 300 { 300 } else { angle } }
        } else {
            StaStep::MoveServo { servo2: true, angle: if angle > 180 { 180 } else { angle } }
        }
    }

    /// The `bind` command.
    fn cmd_bind(&mut self, v: &JsonValue, ctx: &StaContext) -> (r: StaStep)
        requires
            cmd_of(*v) == Some("bind"@),
            cmd_of(*v) != Some("demo_servo"@),
            cmd_of(*v) != Some("move_servo"@),
        ensures
            (final(self)@, r@) == sta_step(
                old(self)@,
                Some(*v),
                ctx.device_id@,
                ctx.has_servo,
                ctx.has_servo2,
                ctx.servo_angle,
                ov(ctx.peer_addr),
            ),
    {
        proof {
            use_type_invariant(&*self);
        }
        let phone = match get_str(v, "phone") { Some(p) => String::from_str(p), None => String::new() };
        self.bound = true;
        self.phone_id = Some(phone.clone());
        self.bind_token = None;
        let effects = vec![StaEffect::SaveBinding { bound: true, phone_id: Some(phone) }];
        assert(effects_view(effects@) =~= seq![effects@[0]@]);
        StaStep::Respond { effects, reply: StaReply::Success }
    }

    /// The `unbind` command.
    fn cmd_unbind(&mut self, v: &JsonValue, ctx: &StaContext) -> (r: StaStep)
        requires
            cmd_of(*v) == Some("unbind"@),
            cmd_of(*v) != Some("demo_servo"@),
            cmd_of(*v) != Some("move_servo"@),
            cmd_of(*v) != Some("bind"@),
        ensures
            (final(self)@, r@) == sta_step(
                old(self)@,
                Some(*v),
                ctx.device_id@,
                ctx.has_servo,
                ctx.has_servo2,
                ctx.servo_angle,
                ov(ctx.peer_addr),
            ),
    {
        proof {
            use_type_invariant(&*self);
        }
        self.bound = false;
        self.phone_id = None;
        self.bind_token = None;
        let effects = vec![StaEffect::SaveBinding { bound: false, phone_id: None }];
        assert(effects_view(effects@) =~= seq![effects@[0]@]);
        StaStep::Respond { effects, reply: StaReply::Success }
    }

    /// The `pair_request` command.
    fn cmd_pair_request(&mut self, v: &JsonValue, ctx: &StaContext) -> (r: StaStep)
        requires
            cmd_of(*v) == Some("pair_request"@),
            cmd_of(*v) != Some("demo_servo"@),
            cmd_of(*v) != Some("move_servo"@),
            cmd_of(*v) != Some("bind"@),
            cmd_of(*v) != Some("unbind"@),
        ensures
            (final(self)@, r@) == sta_step(
                old(self)@,
                Some(*v),
                ctx.device_id@,
                ctx.has_servo,
                ctx.has_servo2,
                ctx.servo_angle,
                ov(ctx.peer_addr),
            ),
    {
        proof {
            use_type_invariant(&*self);
        }
        let target_ip = get_str(v, "target_ip");
        let target_id = get_str(v, "target_device_id");
        if target_ip.is_some() && target_id.is_some() {
            let ti = match target_ip { Some(t) => t, None => "" };
            let td = match target_id { Some(t) => t, None => "" };
            return StaStep::AskPeer { target_ip: String::from_str(ti), target_device_id: String::from_str(td) };
        }
        match get_str(v, "from_device_id") {
            Some(from_id) => {
                let from_ip = match &ctx.peer_addr {
                    Some(a) => host_of(a.as_str()),
                    None => String::from_str("0.0.0.0"),
                };
                self.queue_pair_request(from_id, from_ip);
                respond(StaReply::PendingQueued)
            },
            None => respond(error_reply("missing_target_ip_or_from_device_id", "missing target_ip or from_device_id")),
        }
    }

    /// The `get_pending_pair_requests` command.
    fn cmd_get_pending_pair_requests(&mut self, v: &JsonValue, ctx: &StaContext) -> (r: StaStep)
        requires
            cmd_of(*v) == Some("get_pending_pair_requests"@),
            cmd_of(*v) != Some("demo_servo"@),
            cmd_of(*v) != Some("move_servo"@),
            cmd_of(*v) != Some("bind"@),
            cmd_of(*v) != Some("unbind"@),
            cmd_of(*v) != Some("pair_request"@),
        ensures
            (final(self)@, r@) == sta_step(
                old(self)@,
                Some(*v),
                ctx.device_id@,
                ctx.has_servo,
                ctx.has_servo2,
                ctx.servo_angle,
                ov(ctx.peer_addr),
            ),
    {
        proof {
            use_type_invariant(&*self);
        }
        respond(StaReply::PendingList(clone_pending(&self.pending)))
    }

    /// The `get_pair_status` command.
    fn cmd_get_pair_status(&mut self, v: &JsonValue, ctx: &StaContext) -> (r: StaStep)
        requires
            cmd_of(*v) == Some("get_pair_status"@),
            cmd_of(*v) != Some("demo_servo"@),
            cmd_of(*v) != Some("move_servo"@),
            cmd_of(*v) != Some("bind"@),
            cmd_of(*v) != Some("unbind"@),
            cmd_of(*v) != Some("pair_request"@),
            cmd_of(*v) != Some("get_pending_pair_requests"@),
        ensures
            (final(self)@, r@) == sta_step(
                old(self)@,
                Some(*v),
                ctx.device_id@,
                ctx.has_servo,
                ctx.has_servo2,
                ctx.servo_angle,
                ov(ctx.peer_addr),
            ),
    {
        proof {
            use_type_invariant(&*self);
        }
        let pw = match &self.paired_with { Some(p) => p.clone(), None => String::new() };
        let ip = match &self.peer_ip { Some(p) => p.clone(), None => String::new() };
        respond(StaReply::PairStatus { paired_with: pw, peer_ip: ip, triggered_count: self.triggered_count })
    }

    /// The `sync_start` command.
    fn cmd_sync_start(&mut self, v: &JsonValue, ctx: &StaContext) -> (r: StaStep)
        requires
            cmd_of(*v) == Some("sync_start"@),
            cmd_of(*v) != Some("demo_servo"@),
            cmd_of(*v) != Some("move_servo"@),
            cmd_of(*v) != Some("bind"@),
            cmd_of(*v) != Some("unbind"@),
            cmd_of(*v) != Some("pair_request"@),
            cmd_of(*v) != Some("get_pending_pair_requests"@),
            cmd_of(*v) != Some("get_pair_status"@),
        ensures
            (final(self)@, r@) == sta_step(
                old(self)@,
                Some(*v),
                ctx.device_id@,
                ctx.has_servo,
                ctx.has_servo2,
                ctx.servo_angle,
                ov(ctx.peer_addr),
            ),
    {
        proof {
            use_type_invariant(&*self);
        }
        let req_id = req_id_exec(v);
        if self.sync_running {
            respond(StaReply::Ack { ack: "sync_start", req_id })
        } else {
            self.sync_running = true;
            let effects = if ctx.has_servo2 { vec![StaEffect::SetServo2(SERVO2_CMD_NEUTRAL)] } else { Vec::new() };
            assert(effects_view(effects@) =~= (if ctx.has_servo2 { seq![EffectView::SetServo2(90)] } else { Seq::empty() }));
            StaStep::SpawnSync { effects, req_id }
        }
    }

    /// The `sync_stop` command.
    fn cmd_sync_stop(&mut self, v: &JsonValue, ctx: &StaContext) -> (r: StaStep)
        requires
            cmd_of(*v) == Some("sync_stop"@),
            cmd_of(*v) != Some("demo_servo"@),
            cmd_of(*v) != Some("move_servo"@),
            cmd_of(*v) != Some("bind"@),
            cmd_of(*v) != Some("unbind"@),
            cmd_of(*v) != Some("pair_request"@),
            cmd_of(*v) != Some("get_pending_pair_requests"@),
            cmd_of(*v) != Some("get_pair_status"@),
            cmd_of(*v) != Some("sync_start"@),
        ensures
            (final(self)@, r@) == sta_step(
                old(self)@,
                Some(*v),
                ctx.device_id@,
                ctx.has_servo,
                ctx.has_servo2,
                ctx.servo_angle,
                ov(ctx.peer_addr),
            ),
    {
        proof {
            use_type_invariant(&*self);
        }
        let req_id = req_id_exec(v);
        self.sync_running = false;
        let mut effects: Vec<StaEffect> = Vec::new();
        if ctx.has_servo {
            let current = ctx.servo_angle;
            let d25: u16 = if current >= 25 { current - 25 } else { 25 - current };
            let d130: u16 = if current >= 130 { current - 130 } else { 130 - current };
            let idle_angle: u16 = if d25 <= d130 { 25 } else { 130 };
            effects.push(StaEffect::SetServo(idle_angle));
        }
        if ctx.has_servo2 {
            effects.push(StaEffect::SetServo2(SERVO2_CMD_NEUTRAL));
        }
        assert(effects_view(effects@) =~= (if ctx.has_servo { seq![EffectView::SetServo(nearer_rest(ctx.servo_angle))] } else { Seq::<EffectView>::empty() })
            + (if ctx.has_servo2 { seq![EffectView::SetServo2(90)] } else { Seq::<EffectView>::empty() }));
        StaStep::Respond { effects, reply: StaReply::Ack { ack: "sync_stop", req_id } }
    }

    /// The `accept_pair` command.
    fn cmd_accept_pair(&mut self, v: &JsonValue, ctx: &StaContext) -> (r: StaStep)
        requires
            cmd_of(*v) == Some("accept_pair"@),
            cmd_of(*v) != Some("demo_servo"@),
            cmd_of(*v) != Some("move_servo"@),
            cmd_of(*v) != Some("bind"@),
            cmd_of(*v) != Some("unbind"@),
            cmd_of(*v) != Some("pair_request"@),
            cmd_of(*v) != Some("get_pending_pair_requests"@),
            cmd_of(*v) != Some("get_pair_status"@),
            cmd_of(*v) != Some("sync_start"@),
            cmd_of(*v) != Some("sync_stop"@),
        ensures
            (final(self)@, r@) == sta_step(
                old(self)@,
                Some(*v),
                ctx.device_id@,
                ctx.has_servo,
                ctx.has_servo2,
                ctx.servo_angle,
                ov(ctx.peer_addr),
            ),
    {
        proof {
            use_type_invariant(&*self);
        }
        let from_id = match get_str(v, "from_device_id") { Some(x) => String::from_str(x), None => String::new() };
        match find_request(&self.pending, from_id.as_str()) {
            Some(ip) => {
                proof {
                    lemma_without_facts(pending_view(self.pending@), from_id@);
                }
                let kept = remove_requests(&self.pending, from_id.as_str());
                self.pending = kept;
                self.paired_with = Some(from_id.clone());
                self.peer_ip = Some(ip.clone());
                let effects = vec![
                    StaEffect::SavePair { paired_with: Some(from_id), peer_ip: Some(ip.clone()) },
                    StaEffect::NotifyPairAccepted { ip },
                ];
                assert(effects_view(effects@) =~= seq![effects@[0]@, effects@[1]@]);
                StaStep::Respond { effects, reply: StaReply::Success }
            },
            None => respond(error_reply("pending_not_found", "pending request not found")),
        }
    }

    /// The `reject_pair` command.
    fn cmd_reject_pair(&mut self, v: &JsonValue, ctx: &StaContext) -> (r: StaStep)
        requires
            cmd_of(*v) == Some("reject_pair"@),
            cmd_of(*v) != Some("demo_servo"@),
            cmd_of(*v) != Some("move_servo"@),
            cmd_of(*v) != Some("bind"@),
            cmd_of(*v) != Some("unbind"@),
            cmd_of(*v) != Some("pair_request"@),
            cmd_of(*v) != Some("get_pending_pair_requests"@),
            cmd_of(*v) != Some("get_pair_status"@),
            cmd_of(*v) != Some("sync_start"@),
            cmd_of(*v) != Some("sync_stop"@),
            cmd_of(*v) != Some("accept_pair"@),
        ensures
            (final(self)@, r@) == sta_step(
                old(self)@,
                Some(*v),
                ctx.device_id@,
                ctx.has_servo,
                ctx.has_servo2,
                ctx.servo_angle,
                ov(ctx.peer_addr),
            ),
    {
        proof {
            use_type_invariant(&*self);
        }
        let from_id = match get_str(v, "from_device_id") { Some(x) => String::from_str(x), None => String::new() };
        proof {
            lemma_without_facts(pending_view(self.pending@), from_id@);
        }
        let kept = remove_requests(&self.pending, from_id.as_str());
        self.pending = kept;
        respond(StaReply::Success)
    }

    /// The `pair_accepted` command.
    fn cmd_pair_accepted(&mut self, v: &JsonValue, ctx: &StaContext) -> (r: StaStep)
        requires
            cmd_of(*v) == Some("pair_accepted"@),
            cmd_of(*v) != Some("demo_servo"@),
            cmd_of(*v) != Some("move_servo"@),
            cmd_of(*v) != Some("bind"@),
            cmd_of(*v) != Some("unbind"@),
            cmd_of(*v) != Some("pair_request"@),
            cmd_of(*v) != Some("get_pending_pair_requests"@),
            cmd_of(*v) != Some("get_pair_status"@),
            cmd_of(*v) != Some("sync_start"@),
            cmd_of(*v) != Some("sync_stop"@),
            cmd_of(*v) != Some("accept_pair"@),
            cmd_of(*v) != Some("reject_pair"@),
        ensures
            (final(self)@, r@) == sta_step(
                old(self)@,
                Some(*v),
                ctx.device_id@,
                ctx.has_servo,
                ctx.has_servo2,
                ctx.servo_angle,
                ov(ctx.peer_addr),
            ),
    {
        proof {
            use_type_invariant(&*self);
        }
        match get_str(v, "device_id") {
            Some(peer_id) => {
                let new_ip: Option<String> = match get_str(v, "peer_ip") {
                    Some(req_ip) => if !req_ip.is_empty() { Some(String::from_str(req_ip)) } else { None },
                    None => match &ctx.peer_addr {
                        Some(a) => {
                            let h = host_of(a.as_str());
                            if !h.as_str().is_empty() { Some(h) } else { None }
                        },
                        None => None,
                    },
                };
                self.paired_with = Some(String::from_str(peer_id));
                match new_ip {
                    Some(ip) => { self.peer_ip = Some(ip); },
                    None => {},
                }
                let effects = vec![StaEffect::SavePair {
                    paired_with: clone_opt(&self.paired_with),
                    peer_ip: clone_opt(&self.peer_ip),
                }];
                assert(effects_view(effects@) =~= seq![effects@[0]@]);
                StaStep::Respond { effects, reply: StaReply::Success }
            },
            None => respond(error_reply("missing_device_id", "missing device_id")),
        }
    }

    /// The `unpair` command.
    fn cmd_unpair(&mut self, v: &JsonValue, ctx: &StaContext) -> (r: StaStep)
        requires
            cmd_of(*v) == Some("unpair"@),
            cmd_of(*v) != Some("demo_servo"@),
            cmd_of(*v) != Some("move_servo"@),
            cmd_of(*v) != Some("bind"@),
            cmd_of(*v) != Some("unbind"@),
            cmd_of(*v) != Some("pair_request"@),
            cmd_of(*v) != Some("get_pending_pair_requests"@),
            cmd_of(*v) != Some("get_pair_status"@),
            cmd_of(*v) != Some("sync_start"@),
            cmd_of(*v) != Some("sync_stop"@),
            cmd_of(*v) != Some("accept_pair"@),
            cmd_of(*v) != Some("reject_pair"@),
            cmd_of(*v) != Some("pair_accepted"@),
        ensures
            (final(self)@, r@) == sta_step(
                old(self)@,
                Some(*v),
                ctx.device_id@,
                ctx.has_servo,
                ctx.has_servo2,
                ctx.servo_angle,
                ov(ctx.peer_addr),
            ),
    {
        proof {
            use_type_invariant(&*self);
        }
        let peer: Option<String> = match get_str(v, "peer_ip") {
            Some(p) => Some(String::from_str(p)),
            None => clone_opt(&self.peer_ip),
        };
        self.paired_with = None;
        self.peer_ip = None;
        self.pending = Vec::new();
        assert(pending_view(self.pending@) =~= Seq::<PendingView>::empty());
        let mut effects = vec![StaEffect::SavePair { paired_with: None, peer_ip: None }];
        match peer {
            Some(ip) => { effects.push(StaEffect::NotifyUnpair { ip }); },
            None => {},
        }
        assert(effects_view(effects@) =~= seq![EffectView::SavePair(None, None)]
            + (match ov(peer) { Some(p) => seq![EffectView::NotifyUnpair(p)], None => Seq::<EffectView>::empty() }));
        StaStep::Respond { effects, reply: StaReply::Success }
    }

    /// The `unpair_notify` command.
    fn cmd_unpair_notify(&mut self, v: &JsonValue, ctx: &StaContext) -> (r: StaStep)
        requires
            cmd_of(*v) == Some("unpair_notify"@),
            cmd_of(*v) != Some("demo_servo"@),
            cmd_of(*v) != Some("move_servo"@),
            cmd_of(*v) != Some("bind"@),
            cmd_of(*v) != Some("unbind"@),
            cmd_of(*v) != Some("pair_request"@),
            cmd_of(*v) != Some("get_pending_pair_requests"@),
            cmd_of(*v) != Some("get_pair_status"@),
            cmd_of(*v) != Some("sync_start"@),
            cmd_of(*v) != Some("sync_stop"@),
            cmd_of(*v) != Some("accept_pair"@),
            cmd_of(*v) != Some("reject_pair"@),
            cmd_of(*v) != Some("pair_accepted"@),
            cmd_of(*v) != Some("unpair"@),
        ensures
            (final(self)@, r@) == sta_step(
                old(self)@,
                Some(*v),
                ctx.device_id@,
                ctx.has_servo,
                ctx.has_servo2,
                ctx.servo_angle,
                ov(ctx.peer_addr),
            ),
    {
        proof {
            use_type_invariant(&*self);
        }
        if v.get("device_id").is_some() {
            self.paired_with = None;
            self.peer_ip = None;
            let effects = vec![StaEffect::SavePair { paired_with: None, peer_ip: None }];
            assert(effects_view(effects@) =~= seq![effects@[0]@]);
            StaStep::Respond { effects, reply: StaReply::Success }
        } else {
            respond(error_reply("missing_device_id", "missing device_id"))
        }
    }

    /// The `update_wifi_list` command.
    fn cmd_update_wifi_list(&mut self, v: &JsonValue, ctx: &StaContext) -> (r: StaStep)
        requires
            cmd_of(*v) == Some("update_wifi_list"@),
            cmd_of(*v) != Some("demo_servo"@),
            cmd_of(*v) != Some("move_servo"@),
            cmd_of(*v) != Some("bind"@),
            cmd_of(*v) != Some("unbind"@),
            cmd_of(*v) != Some("pair_request"@),
            cmd_of(*v) != Some("get_pending_pair_requests"@),
            cmd_of(*v) != Some("get_pair_status"@),
            cmd_of(*v) != Some("sync_start"@),
            cmd_of(*v) != Some("sync_stop"@),
            cmd_of(*v) != Some("accept_pair"@),
            cmd_of(*v) != Some("reject_pair"@),
            cmd_of(*v) != Some("pair_accepted"@),
            cmd_of(*v) != Some("unpair"@),
            cmd_of(*v) != Some("unpair_notify"@),
        ensures
            (final(self)@, r@) == sta_step(
                old(self)@,
                Some(*v),
                ctx.device_id@,
                ctx.has_servo,
                ctx.has_servo2,
                ctx.servo_angle,
                ov(ctx.peer_addr),
            ),
    {
        proof {
            use_type_invariant(&*self);
        }
        match v.get("networks") {
            Some(n) => match n.as_array() {
                Some(a) => {
                    self.wifi_list = networks_from_exec(a);
                    respond(StaReply::Success)
                },
                None => respond(error_reply("missing_networks", "missing networks")),
            },
            None => respond(error_reply("missing_networks", "missing networks")),
        }
    }

    /// Queues a pair request from `from_id` at `from_ip`.
    fn queue_pair_request(&mut self, from_id: &str, from_ip: String)
        ensures
            final(self)@ == queued(old(self)@, from_id@, from_ip@),
    {
        proof {
            use_type_invariant(&*self);
            lemma_without_facts(pending_view(self.pending@), from_id@);
            lemma_queue_request(pending_view(self.pending@), from_id@, from_ip@);
        }
        let mut kept = remove_requests(&self.pending, from_id);
        let len = kept.len();
        if len >= MAX_PENDING_PAIR_REQUESTS {
            let drop_n = len - MAX_PENDING_PAIR_REQUESTS + 1;
            let mut tail: Vec<(String, String)> = Vec::new();
            let mut i = drop_n;
            while i < len
                invariant
                    drop_n <= i <= len,
                    len == kept@.len(),
                    pending_view(tail@) == pending_view(kept@).subrange(drop_n as int, i as int),
                decreases len - i,
            {
                let a = kept[i].0.clone();
                let b = kept[i].1.clone();
                let ghost before = tail@;
                tail.push((a, b));
                assert(pending_view(tail@) =~= pending_view(before).push((a@, b@)));
                assert(pending_view(kept@).subrange(drop_n as int, i + 1) =~= pending_view(kept@).subrange(drop_n as int, i as int).push((a@, b@)));
                i = i + 1;
            }
            assert(pending_view(kept@).subrange(drop_n as int, len as int) =~= pending_view(kept@).skip(len - 63));
            kept = tail;
        }
        let ghost before = kept@;
        kept.push((String::from_str(from_id), from_ip));
        assert(pending_view(kept@) =~= pending_view(before).push((from_id@, from_ip@)));
        self.pending = kept;
    }

    /// Finishes a `pair_request` we sent to `target_ip`: records the pairing
    /// when the target accepted, or its address when it queued the request,
    /// and says what to answer.
    pub fn finish_pair_request(&mut self, target_ip: &str, target_device_id: &str, ex: &PeerExchange) -> (r: (Vec<StaEffect>, StaReply))
        ensures
            (final(self)@, effects_view(r.0@), r.1@) == pair_request_outcome(old(self)@, target_ip@, target_device_id@, *ex),
    {
        proof {
            use_type_invariant(&*self);
        }
        match ex {
            PeerExchange::InvalidAddress => (Vec::new(), error_reply("invalid_target_addr", "invalid target address")),
            PeerExchange::ConnectFailed => (
                Vec::new(),
                error_reply("connect_target_failed", "timeout or refused when connecting target"),
            ),
            PeerExchange::EmptyReply => (Vec::new(), error_reply("empty_target_response", "empty response from target device")),
            PeerExchange::InvalidReply => (Vec::new(), error_reply("invalid_target_response", "invalid json from target device")),
            PeerExchange::Reply(v) => {
                let status = get_str(v, "status");
                let message = get_str(v, "message");
                let status_ok = match status { Some(s) => str_eq(s, "ok"), None => false };
                let accepted = status_ok && match message { Some(m) => str_eq(m, "pair_accepted"), None => false };
                let pending = status_ok && match message { Some(m) => str_eq(m, "pending"), None => false };
                if accepted {
                    let peer_ip = match get_str(v, "peer_ip") {
                        Some(p) => if !p.is_empty() { String::from_str(p) } else { String::from_str(target_ip) },
                        None => String::from_str(target_ip),
                    };
                    self.paired_with = Some(String::from_str(target_device_id));
                    self.peer_ip = Some(peer_ip.clone());
                    let effects = vec![StaEffect::SavePair {
                        paired_with: Some(String::from_str(target_device_id)),
                        peer_ip: Some(peer_ip.clone()),
                    }];
                    assert(effects_view(effects@) =~= seq![effects@[0]@]);
                    (effects, StaReply::PairAccepted { peer_ip })
                } else if pending {
                    self.paired_with = None;
                    self.peer_ip = Some(String::from_str(target_ip));
                    (Vec::new(), StaReply::Pending)
                } else if match status { Some(s) => str_eq(s, "error"), None => false } {
                    let code = match get_str(v, "code") {
                        Some(c) => String::from_str(c),
                        None => String::from_str("target_error"),
                    };
                    let reason_src = match v.get("reason") {
                        Some(x) => x.as_str(),
                        None => get_str(v, "message"),
                    };
                    let reason = match reason_src {
                        Some(r) => String::from_str(r),
                        None => String::from_str("target returned error"),
                    };
                    (Vec::new(), StaReply::Error { code, message: reason })
                } else {
                    (Vec::new(), error_reply("unexpected_target_response", "unexpected target response status/message"))
                }
            },
        }
    }

    /// Finishes `sync_start` once the synchronisation task was started
    /// (`spawned`) or could not be: a failure clears the running flag again.
    pub fn finish_sync_start(&mut self, spawned: bool, req_id: Option<u64>) -> (r: StaReply)
        ensures
            spawned ==> final(self)@ == old(self)@ && r@ == ReplyView::Ack("sync_start"@, req_id),
            !spawned ==> final(self)@ == (StaView { sync_running: false, ..old(self)@ })
                && r@ == ReplyView::Error("sync_spawn_failed"@, "pthread_failed"@),
    {
        proof {
            use_type_invariant(&*self);
        }
        if spawned {
            StaReply::Ack { ack: "sync_start", req_id }
        } else {
            self.sync_running = false;
            error_reply("sync_spawn_failed", "pthread_failed")
        }
    }
}

/// Request id of a synchronisation command.
fn req_id_exec(v: &JsonValue) -> (r: Option<u64>)
    ensures
        r == req_id_of(*v),
{
    match v.get("req_id") {
        Some(x) => x.as_u64(),
        None => get_u64(v, "req"),
    }
}

/// State, effects and answer after our pair request to the device at
/// `target_ip` (id `target_id`) ended as `ex`.
pub open spec fn pair_request_outcome(s: StaView, target_ip: Seq<char>, target_id: Seq<char>, ex: PeerExchange)
    -> (StaView, Seq<EffectView>, ReplyView)
{
    match ex {
        PeerExchange::InvalidAddress => (s, Seq::empty(), ReplyView::Error("invalid_target_addr"@, "invalid target address"@)),
        PeerExchange::ConnectFailed => (s, Seq::empty(), ReplyView::Error(
            "connect_target_failed"@,
            "timeout or refused when connecting target"@,
        )),
        PeerExchange::EmptyReply => (s, Seq::empty(), ReplyView::Error("empty_target_response"@, "empty response from target device"@)),
        PeerExchange::InvalidReply => (s, Seq::empty(), ReplyView::Error("invalid_target_response"@, "invalid json from target device"@)),
        PeerExchange::Reply(v) => {
            let status = str_field(v, "status"@);
            let message = str_field(v, "message"@);
            if status == Some("ok"@) && message == Some("pair_accepted"@) {
                let ip = match str_field(v, "peer_ip"@) {
                    Some(p) => if p.len() > 0 { p } else { target_ip },
                    None => target_ip,
                };
                (
                    StaView { paired_with: Some(target_id), peer_ip: Some(ip), ..s },
                    seq![EffectView::SavePair(Some(target_id), Some(ip))],
                    ReplyView::PairAccepted(ip),
                )
            } else if status == Some("ok"@) && message == Some("pending"@) {
                (StaView { paired_with: None, peer_ip: Some(target_ip), ..s }, Seq::empty(), ReplyView::Pending)
            } else if status == Some("error"@) {
                let code = match str_field(v, "code"@) { Some(c) => c, None => "target_error"@ };
                let reason_src = match json_get(v, "reason"@) {
                    Some(x) => json_as_str(Some(x)),
                    None => message,
                };
                let reason = match reason_src { Some(r) => r, None => "target returned error"@ };
                (s, Seq::empty(), ReplyView::Error(code, reason))
            } else {
                (s, Seq::empty(), ReplyView::Error(
                    "unexpected_target_response"@,
                    "unexpected target response status/message"@,
                ))
            }
        },
    }
}

/// The exchange a target's answer line makes: empty, not JSON, or a
/// reply (the line's bytes decoded as UTF-8, invalid sequences replaced).
pub open spec fn exchange_of_line(line: Seq<u8>) -> PeerExchange {
    if line.len() == 0 {
        PeerExchange::EmptyReply
    } else {
        match parsed_json(utf8_lossy(line)) {
            Some(v) => PeerExchange::Reply(v),
            None => PeerExchange::InvalidReply,
        }
    }
}

/// The exchange a target's answer line (without its line end) makes.
pub fn pair_reply_exchange(line: &[u8]) -> (r: PeerExchange)
    ensures
        r == exchange_of_line(line@),
{
    if line.len() == 0 {
        PeerExchange::EmptyReply
    } else {
        let text = line_text(line);
        match parse_json(text.as_str()) {
            Some(v) => PeerExchange::Reply(v),
            None => PeerExchange::InvalidReply,
        }
    }
}

} // verus!
