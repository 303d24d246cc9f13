//! Properties that hold across station-mode commands, stated over
//! [`sta_step`], the model that [`StaState::process_sta_command`] follows.

use vstd::prelude::*;
use crate::json::{JsonValue, str_field, u64_field};
use crate::protocol::sta::{
    StaView, StepView, EffectView, ReplyView, sta_step, cmd_of, queue_ok, lookup, has_request,
    without, queue_request, requester_ip, lemma_queue_request, lemma_without_facts, lemma_lookup_has,
    pair_request_outcome, PeerExchange,
};
#[allow(unused_imports)]
use crate::protocol::sta::StaState;

verus! {

/// Whether a persisted effect agrees with the state `t` held in memory.
pub open spec fn effect_agrees(e: EffectView, t: StaView) -> bool {
    match e {
        EffectView::SaveBinding(b, p) => b == t.bound && p == t.phone_id,
        EffectView::SavePair(p, ip) => p == t.paired_with && ip == t.peer_ip,
        _ => true,
    }
}

/// The effects a step asks the caller to carry out.
pub open spec fn step_effects(st: StepView) -> Seq<EffectView> {
    match st {
        StepView::Respond(e, _) => e,
        StepView::SpawnSync(e, _) => e,
        _ => Seq::empty(),
    }
}

/// The command names differ from each other.
proof fn lemma_command_names()
    ensures
        "demo_servo"@.len() == 10 && "demo_servo"@[0] == 'd',
        "move_servo"@.len() == 10 && "move_servo"@[0] == 'm',
        "sync_start"@.len() == 10 && "sync_start"@[0] == 's',
        "bind"@.len() == 4,
        "unbind"@.len() == 6 && "unbind"@[2] == 'b',
        "unpair"@.len() == 6 && "unpair"@[2] == 'p',
        "pair_request"@.len() == 12,
        "get_pending_pair_requests"@.len() == 25,
        "get_pair_status"@.len() == 15,
        "sync_stop"@.len() == 9,
        "accept_pair"@.len() == 11 && "accept_pair"@[0] == 'a',
        "reject_pair"@.len() == 11 && "reject_pair"@[0] == 'r',
        "pair_accepted"@.len() == 13 && "pair_accepted"@[0] == 'p',
        "unpair_notify"@.len() == 13 && "unpair_notify"@[0] == 'u',
        "update_wifi_list"@.len() == 16,
{
    reveal_strlit("demo_servo");
    reveal_strlit("move_servo");
    reveal_strlit("sync_start");
    reveal_strlit("bind");
    reveal_strlit("unbind");
    reveal_strlit("unpair");
    reveal_strlit("pair_request");
    reveal_strlit("get_pending_pair_requests");
    reveal_strlit("get_pair_status");
    reveal_strlit("sync_stop");
    reveal_strlit("accept_pair");
    reveal_strlit("reject_pair");
    reveal_strlit("pair_accepted");
    reveal_strlit("unpair_notify");
    reveal_strlit("update_wifi_list");
}

/// Law: whatever a command asks to persist is exactly the binding or
/// pairing that the state holds after the command, so flash and memory
/// never disagree.
pub proof fn law_persisted_matches_state(
    s: StaView,
    msg: Option<JsonValue>,
    device_id: Seq<char>,
    has_servo: bool,
    has_servo2: bool,
    servo_angle: u16,
    peer_addr: Option<Seq<char>>,
)
    ensures
        ({
            let (t, st) = sta_step(s, msg, device_id, has_servo, has_servo2, servo_angle, peer_addr);
            forall|i: int| 0 <= i < step_effects(st).len() ==> effect_agrees(#[trigger] step_effects(st)[i], t)
        }),
{
    let (t, st) = sta_step(s, msg, device_id, has_servo, has_servo2, servo_angle, peer_addr);
    assert forall|i: int| 0 <= i < step_effects(st).len() implies effect_agrees(#[trigger] step_effects(st)[i], t) by {
        let e = step_effects(st);
        if e.len() == 2 && (e[1] is NotifyPairAccepted || e[1] is NotifyUnpair) {
            assert(effect_agrees(e[1], t));
        }
    }
}

/// Law: the pairing persisted after our own pair request is exactly the
/// pairing then held in memory.
pub proof fn law_pair_request_persists_state(s: StaView, target_ip: Seq<char>, target_id: Seq<char>, ex: PeerExchange)
    ensures
        ({
            let (t, effects, _) = pair_request_outcome(s, target_ip, target_id, ex);
            forall|i: int| 0 <= i < effects.len() ==> effect_agrees(#[trigger] effects[i], t)
        }),
{
}

/// The first request from `id` is found when it is the only one from `id`
/// and sits last in the queue.
proof fn lemma_lookup_last(q: Seq<(Seq<char>, Seq<char>)>, id: Seq<char>, ip: Seq<char>)
    requires
        q.len() > 0,
        q.last() == (id, ip),
        forall|k: int| 0 <= k < q.len() - 1 ==> #[trigger] q[k].0 != id,
    ensures
        lookup(q, id) == Some(ip),
    decreases q.len(),
{
    if q.len() > 1 {
        let r = q.drop_first();
        assert(r.last() == q.last());
        assert forall|k: int| 0 <= k < r.len() - 1 implies #[trigger] r[k].0 != id by {
            assert(r[k] == q[k + 1]);
        }
        assert(q[0].0 != id);
        lemma_lookup_last(r, id, ip);
    }
}

/// Law: a device that queued the pair request of `id` (sent from
/// `peer_addr`) and is then told to accept `id` becomes paired with `id`
/// at the requester's address, persists that pairing, tells the requester,
/// and keeps no request of `id` waiting.
pub proof fn law_accept_queued_request(
    s: StaView,
    request: JsonValue,
    accept: JsonValue,
    id: Seq<char>,
    device_id: Seq<char>,
    has_servo: bool,
    has_servo2: bool,
    servo_angle: u16,
    peer_addr: Option<Seq<char>>,
    later_addr: Option<Seq<char>>,
)
    requires
        queue_ok(s.pending),
        cmd_of(request) == Some("pair_request"@),
        str_field(request, "target_ip"@) is None,
        str_field(request, "from_device_id"@) == Some(id),
        cmd_of(accept) == Some("accept_pair"@),
        str_field(accept, "from_device_id"@) == Some(id),
    ensures
        ({
            let ip = requester_ip(peer_addr);
            let (s1, st1) = sta_step(s, Some(request), device_id, has_servo, has_servo2, servo_angle, peer_addr);
            let (s2, st2) = sta_step(s1, Some(accept), device_id, has_servo, has_servo2, servo_angle, later_addr);
            &&& st1 == StepView::Respond(Seq::empty(), ReplyView::PendingQueued)
            &&& s2.paired_with == Some(id)
            &&& s2.peer_ip == Some(ip)
            &&& !has_request(s2.pending, id)
            &&& st2 == StepView::Respond(
                seq![EffectView::SavePair(Some(id), Some(ip)), EffectView::NotifyPairAccepted(ip)],
                ReplyView::Success,
            )
        }),
{
    lemma_command_names();
    let ip = requester_ip(peer_addr);
    let q = queue_request(s.pending, id, ip);
    lemma_queue_request(s.pending, id, ip);
    lemma_lookup_last(q, id, ip);
    lemma_without_facts(q, id);
    lemma_lookup_has(without(q, id), id);
    let (s1, st1) = sta_step(s, Some(request), device_id, has_servo, has_servo2, servo_angle, peer_addr);
    assert(s1.pending == q);
    if has_request(without(q, id), id) {
        let k = choose|k: int| 0 <= k < without(q, id).len() && without(q, id)[k].0 == id;
        assert(without(q, id)[k].0 != id);
    }
}

/// Law: after `reject_pair` for `id` no request of `id` waits any more, and
/// nothing else changes.
pub proof fn law_reject_forgets(
    s: StaView,
    reject: JsonValue,
    id: Seq<char>,
    device_id: Seq<char>,
    has_servo: bool,
    has_servo2: bool,
    servo_angle: u16,
    peer_addr: Option<Seq<char>>,
)
    requires
        cmd_of(reject) == Some("reject_pair"@),
        str_field(reject, "from_device_id"@) == Some(id),
    ensures
        ({
            let (t, st) = sta_step(s, Some(reject), device_id, has_servo, has_servo2, servo_angle, peer_addr);
            &&& lookup(t.pending, id) is None
            &&& t == (StaView { pending: t.pending, ..s })
            &&& st == StepView::Respond(Seq::empty(), ReplyView::Success)
        }),
{
    lemma_command_names();
    lemma_without_facts(s.pending, id);
    lemma_lookup_has(without(s.pending, id), id);
    if has_request(without(s.pending, id), id) {
        let k = choose|k: int| 0 <= k < without(s.pending, id).len() && without(s.pending, id)[k].0 == id;
        assert(without(s.pending, id)[k].0 != id);
    }
}

/// Law: `unbind` after `bind` leaves the device unbound with no phone and
/// no provisioning token, and everything else as it was before the `bind`.
pub proof fn law_unbind_undoes_bind(
    s: StaView,
    bind: JsonValue,
    unbind: JsonValue,
    device_id: Seq<char>,
    has_servo: bool,
    has_servo2: bool,
    servo_angle: u16,
    peer_addr: Option<Seq<char>>,
)
    requires
        cmd_of(bind) == Some("bind"@),
        cmd_of(unbind) == Some("unbind"@),
    ensures
        ({
            let (s1, _) = sta_step(s, Some(bind), device_id, has_servo, has_servo2, servo_angle, peer_addr);
            let (s2, _) = sta_step(s1, Some(unbind), device_id, has_servo, has_servo2, servo_angle, peer_addr);
            &&& s1.bound
            &&& s2 == (StaView { bound: false, phone_id: None, bind_token: None, ..s })
        }),
{
    lemma_command_names();
}

/// Law: `sync_stop` always leaves the synchronisation stopped, and a
/// `sync_start` while stopped starts it (once: a second `sync_start` only
/// acknowledges).
pub proof fn law_sync_start_stop(
    s: StaView,
    start: JsonValue,
    stop: JsonValue,
    device_id: Seq<char>,
    has_servo: bool,
    has_servo2: bool,
    servo_angle: u16,
    peer_addr: Option<Seq<char>>,
)
    requires
        cmd_of(start) == Some("sync_start"@),
        cmd_of(stop) == Some("sync_stop"@),
    ensures
        ({
            let (s1, st1) = sta_step(s, Some(start), device_id, has_servo, has_servo2, servo_angle, peer_addr);
            let (s2, st2) = sta_step(s1, Some(start), device_id, has_servo, has_servo2, servo_angle, peer_addr);
            let (s3, _) = sta_step(s, Some(stop), device_id, has_servo, has_servo2, servo_angle, peer_addr);
            &&& s1.sync_running
            &&& !s.sync_running ==> st1 is SpawnSync
            &&& st2 is Respond && s2 == s1
            &&& !s3.sync_running
        }),
{
    lemma_command_names();
}

/// Law: a message whose command is none of the known ones (or that has no
/// command) is answered with `unknown_cmd` and changes nothing.
pub proof fn law_unknown_command_refused(
    s: StaView,
    v: JsonValue,
    device_id: Seq<char>,
    has_servo: bool,
    has_servo2: bool,
    servo_angle: u16,
    peer_addr: Option<Seq<char>>,
)
    requires
        cmd_of(v) != Some("demo_servo"@),
        cmd_of(v) != Some("move_servo"@),
        cmd_of(v) != Some("bind"@),
        cmd_of(v) != Some("unbind"@),
        cmd_of(v) != Some("pair_request"@),
        cmd_of(v) != Some("get_pending_pair_requests"@),
        cmd_of(v) != Some("get_pair_status"@),
        cmd_of(v) != Some("sync_start"@),
        cmd_of(v) != Some("sync_stop"@),
        cmd_of(v) != Some("accept_pair"@),
        cmd_of(v) != Some("reject_pair"@),
        cmd_of(v) != Some("pair_accepted"@),
        cmd_of(v) != Some("unpair"@),
        cmd_of(v) != Some("unpair_notify"@),
        cmd_of(v) != Some("update_wifi_list"@),
    ensures
        sta_step(s, Some(v), device_id, has_servo, has_servo2, servo_angle, peer_addr) == (
            s,
            StepView::Respond(Seq::empty(), ReplyView::Error("unknown_cmd"@, "unknown cmd"@)),
        ),
{
}

/// Distance between two integers.
pub open spec fn gap(x: int, y: int) -> int {
    if x >= y { x - y } else { y - x }
}

/// Law: when the target answers `ok` / `pair_accepted` with a non-empty
/// address `p`, the device is paired with the target at `p`, persists
/// exactly that, and answers with `p`, whatever the target's own address
/// was; nothing else changes.
pub proof fn law_pair_accepted_uses_reported_address(
    s: StaView,
    target_ip: Seq<char>,
    target_id: Seq<char>,
    v: JsonValue,
    p: Seq<char>,
)
    requires
        str_field(v, "status"@) == Some("ok"@),
        str_field(v, "message"@) == Some("pair_accepted"@),
        str_field(v, "peer_ip"@) == Some(p),
        p.len() > 0,
    ensures
        pair_request_outcome(s, target_ip, target_id, PeerExchange::Reply(v)) == (
            StaView { paired_with: Some(target_id), peer_ip: Some(p), ..s },
            seq![EffectView::SavePair(Some(target_id), Some(p))],
            ReplyView::PairAccepted(p),
        ),
{
}

/// Law: `unpair` clears the pairing and every pending request, persists the
/// cleared pairing, and notifies the address given in the request when it
/// carries one (a string `peer_ip`), else the stored peer address, if any.
pub proof fn law_unpair_notifies_requested_address(
    s: StaView,
    v: JsonValue,
    device_id: Seq<char>,
    has_servo: bool,
    has_servo2: bool,
    servo_angle: u16,
    peer_addr: Option<Seq<char>>,
)
    requires
        cmd_of(v) == Some("unpair"@),
    ensures
        ({
            let (t, st) = sta_step(s, Some(v), device_id, has_servo, has_servo2, servo_angle, peer_addr);
            &&& t == (StaView { pending: Seq::empty(), paired_with: None, peer_ip: None, ..s })
            &&& (str_field(v, "peer_ip"@) matches Some(p) ==> st == StepView::Respond(
                seq![EffectView::SavePair(None, None), EffectView::NotifyUnpair(p)],
                ReplyView::Success,
            ))
            &&& (str_field(v, "peer_ip"@) is None && s.peer_ip is Some ==> st == StepView::Respond(
                seq![EffectView::SavePair(None, None), EffectView::NotifyUnpair(s.peer_ip->0)],
                ReplyView::Success,
            ))
            &&& (str_field(v, "peer_ip"@) is None && s.peer_ip is None ==> st == StepView::Respond(
                seq![EffectView::SavePair(None, None)],
                ReplyView::Success,
            ))
        }),
{
    lemma_command_names();
    let (t, st) = sta_step(s, Some(v), device_id, has_servo, has_servo2, servo_angle, peer_addr);
    assert(seq![EffectView::SavePair(None, None)] + Seq::<EffectView>::empty() =~= seq![EffectView::SavePair(None, None)]);
    if let Some(p) = str_field(v, "peer_ip"@) {
        assert(seq![EffectView::SavePair(None, None)] + seq![EffectView::NotifyUnpair(p)]
            =~= seq![EffectView::SavePair(None, None), EffectView::NotifyUnpair(p)]);
    }
    if let Some(p) = s.peer_ip {
        assert(seq![EffectView::SavePair(None, None)] + seq![EffectView::NotifyUnpair(p)]
            =~= seq![EffectView::SavePair(None, None), EffectView::NotifyUnpair(p)]);
    }
}

/// Law: `sync_stop` with servo 1 present first parks it at one of the two
/// rest ends, 25 or 130, the one nearer its current angle, and stops the
/// synchronisation.
pub proof fn law_sync_stop_parks_at_nearer_end(
    s: StaView,
    v: JsonValue,
    device_id: Seq<char>,
    has_servo2: bool,
    servo_angle: u16,
    peer_addr: Option<Seq<char>>,
)
    requires
        cmd_of(v) == Some("sync_stop"@),
    ensures
        ({
            let (t, st) = sta_step(s, Some(v), device_id, true, has_servo2, servo_angle, peer_addr);
            &&& !t.sync_running
            &&& match st {
                StepView::Respond(e, _) => e.len() >= 1 && match e[0] {
                    EffectView::SetServo(r) => (r == 25 || r == 130) && gap(r as int, servo_angle as int) <= gap(
                        155 - r,
                        servo_angle as int,
                    ),
                    _ => false,
                },
                _ => false,
            }
        }),
{
    lemma_command_names();
    let (t, st) = sta_step(s, Some(v), device_id, true, has_servo2, servo_angle, peer_addr);
    let e2: Seq<EffectView> = if has_servo2 { seq![EffectView::SetServo2(90)] } else { Seq::empty() };
    let r = crate::protocol::sta::nearer_rest(servo_angle);
    assert((seq![EffectView::SetServo(r)] + e2)[0] == EffectView::SetServo(r));
}

/// Law: when the target answers `ok` / `pending`, the device is not
/// paired, remembers the target's address, persists nothing and answers
/// `pending`.
pub proof fn law_pair_pending_keeps_target_address(
    s: StaView,
    target_ip: Seq<char>,
    target_id: Seq<char>,
    v: JsonValue,
)
    requires
        str_field(v, "status"@) == Some("ok"@),
        str_field(v, "message"@) == Some("pending"@),
    ensures
        pair_request_outcome(s, target_ip, target_id, PeerExchange::Reply(v)) == (
            StaView { paired_with: None, peer_ip: Some(target_ip), ..s },
            Seq::<EffectView>::empty(),
            ReplyView::Pending,
        ),
{
    reveal_strlit("pending");
    reveal_strlit("pair_accepted");
    assert("pending"@.len() != "pair_accepted"@.len());
}

/// Law: `move_servo` with angle `a` (at most 65535) moves servo 1 (index
/// absent or 0) to `a` limited to 300, or servo 2 (any other index) to `a`
/// limited to 180, when that servo is present; without an angle it moves
/// to 90; the state is unchanged.
pub proof fn law_move_servo_limits_angle(
    s: StaView,
    v: JsonValue,
    device_id: Seq<char>,
    has_servo: bool,
    has_servo2: bool,
    servo_angle: u16,
    peer_addr: Option<Seq<char>>,
)
    requires
        cmd_of(v) == Some("move_servo"@),
    ensures
        ({
            let (t, st) = sta_step(s, Some(v), device_id, has_servo, has_servo2, servo_angle, peer_addr);
            let second = u64_field(v, "servo"@) matches Some(i) && i != 0;
            let a: int = match u64_field(v, "angle"@) { Some(x) => x as int, None => 90 };
            &&& t == s
            &&& a <= 65535 && !second && has_servo ==> st == StepView::MoveServo(false, (if a > 300 { 300 } else { a }) as u16)
            &&& a <= 65535 && second && has_servo2 ==> st == StepView::MoveServo(true, (if a > 180 { 180 } else { a }) as u16)
            &&& (!second && !has_servo) || (second && !has_servo2) ==> st == StepView::Respond(
                Seq::empty(),
                ReplyView::Error("servo_unavailable"@, "servo unavailable"@),
            )
        }),
{
    lemma_command_names();
    if let Some(x) = u64_field(v, "angle"@) {
        if x <= 65535 {
            assert((x as u16) as int == x) by (bit_vector)
                requires
                    x <= 65535,
            ;
        }
    }
}

} // verus!
