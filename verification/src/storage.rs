//! What the station services keep in flash (namespace `bt_fy`): the binding
//! to the owner's phone and the pairing with the other device. The flash
//! itself is reached by the caller; this module says which keys to write
//! and how stored values read back.

use vstd::prelude::*;
use vstd::string::*;
use crate::web::char_is_whitespace;

verus! {

/// Flash namespace of the device's settings.
pub const NVS_NAMESPACE: &'static str = "bt_fy";

/// Key of the "is bound" flag (`u8`, non-zero when bound).
pub const NVS_BINDING_BOUND_KEY: &'static str = "binding.bound";

/// Key of the bound phone's id.
pub const NVS_BINDING_PHONE_ID_KEY: &'static str = "binding.phone_id";

/// Key of the paired device's id.
pub const NVS_PAIR_PAIRED_WITH_KEY: &'static str = "pair.paired_with";

/// Key of the paired device's address.
pub const NVS_PAIR_PEER_IP_KEY: &'static str = "pair.peer_ip";

/// One change to the settings store.
pub enum NvsWrite {
    SetU8 { key: &'static str, value: u8 },
    SetStr { key: &'static str, value: String },
    Remove { key: &'static str },
}

/// A stored value.
pub enum StoredValue {
    Byte(u8),
    Text(Seq<char>),
}

/// The store after one change.
pub open spec fn apply_write(store: Map<Seq<char>, StoredValue>, w: NvsWrite) -> Map<Seq<char>, StoredValue> {
    match w {
        NvsWrite::SetU8 { key, value } => store.insert(key@, StoredValue::Byte(value)),
        NvsWrite::SetStr { key, value } => store.insert(key@, StoredValue::Text(value@)),
        NvsWrite::Remove { key } => store.remove(key@),
    }
}

/// The store after a run of changes, in order.
pub open spec fn apply_writes(store: Map<Seq<char>, StoredValue>, ws: Seq<NvsWrite>) -> Map<Seq<char>, StoredValue>
    decreases ws.len(),
{
    if ws.len() == 0 {
        store
    } else {
        apply_write(apply_writes(store, ws.drop_last()), ws.last())
    }
}

/// The text without its leading whitespace.
pub open spec fn trim_start(s: Seq<char>) -> Seq<char>
    decreases s.len(),
{
    if s.len() > 0 && char_is_whitespace(s[0]) {
        trim_start(s.drop_first())
    } else {
        s
    }
}

/// The text without its trailing whitespace.
pub open spec fn trim_end(s: Seq<char>) -> Seq<char>
    decreases s.len(),
{
    if s.len() > 0 && char_is_whitespace(s.last()) {
        trim_end(s.drop_last())
    } else {
        s
    }
}

/// The text with leading and trailing whitespace removed.
pub open spec fn trimmed(s: Seq<char>) -> Seq<char> {
    trim_end(trim_start(s))
}

/// std's `str::trim`: leading and trailing whitespace (White_Space
/// property, as `char::is_whitespace`) removed.
#[verifier::external_body]
pub(crate) fn trim_text(s: &str) -> (r: String)
    ensures
        r@ == trimmed(s@),
{
    s.trim().to_string()
}

/// A stored text as it is used: trimmed, and absent when that leaves nothing.
pub open spec fn cleaned(s: Option<Seq<char>>) -> Option<Seq<char>> {
    match s {
        Some(t) => if trimmed(t).len() > 0 { Some(trimmed(t)) } else { None },
        None => None,
    }
}

/// The text stored under a key, if a text is stored there.
pub open spec fn text_at(store: Map<Seq<char>, StoredValue>, key: Seq<char>) -> Option<Seq<char>> {
    if store.contains_key(key) {
        match store[key] {
            StoredValue::Text(t) => Some(t),
            StoredValue::Byte(_) => None,
        }
    } else {
        None
    }
}

/// The byte stored under a key, if a byte is stored there.
pub open spec fn byte_at(store: Map<Seq<char>, StoredValue>, key: Seq<char>) -> Option<u8> {
    if store.contains_key(key) {
        match store[key] {
            StoredValue::Byte(b) => Some(b),
            StoredValue::Text(_) => None,
        }
    } else {
        None
    }
}

/// The view of an optional text.
pub open spec fn opt_text(o: Option<String>) -> Option<Seq<char>> {
    match o {
        Some(s) => Some(s@),
        None => None,
    }
}

/// A stored text, trimmed, when it is not blank.
fn clean_text(s: Option<String>) -> (r: Option<String>)
    ensures
        opt_text(r) == cleaned(opt_text(s)),
{
    match s {
        Some(t) => {
            let c = trim_text(t.as_str());
            if !c.as_str().is_empty() {
                Some(c)
            } else {
                None
            }
        },
        None => None,
    }
}

/// Binding as read back from the stored flag (absent counts as not bound)
/// and the stored phone id.
pub fn binding_from_stored(bound: Option<u8>, phone_id: Option<String>) -> (r: (bool, Option<String>))
    ensures
        r.0 == (match bound { Some(b) => b != 0, None => false }),
        opt_text(r.1) == cleaned(opt_text(phone_id)),
{
    let b = match bound {
        Some(b) => b,
        None => 0,
    };
    (b != 0, clean_text(phone_id))
}

/// Pairing as read back from the stored peer id and address.
pub fn pair_from_stored(paired_with: Option<String>, peer_ip: Option<String>) -> (r: (Option<String>, Option<String>))
    ensures
        opt_text(r.0) == cleaned(opt_text(paired_with)),
        opt_text(r.1) == cleaned(opt_text(peer_ip)),
{
    (clean_text(paired_with), clean_text(peer_ip))
}

/// Binding read from a store.
pub open spec fn read_binding(store: Map<Seq<char>, StoredValue>) -> (bool, Option<Seq<char>>) {
    (
        match byte_at(store, NVS_BINDING_BOUND_KEY@) { Some(b) => b != 0, None => false },
        cleaned(text_at(store, NVS_BINDING_PHONE_ID_KEY@)),
    )
}

/// Pairing read from a store.
pub open spec fn read_pair(store: Map<Seq<char>, StoredValue>) -> (Option<Seq<char>>, Option<Seq<char>>) {
    (cleaned(text_at(store, NVS_PAIR_PAIRED_WITH_KEY@)), cleaned(text_at(store, NVS_PAIR_PEER_IP_KEY@)))
}

/// Changes that persist a binding: the flag, and the phone id when bound
/// (a bound state without a phone id leaves the stored id as it was); an
/// unbound state removes the phone id.
pub open spec fn binding_writes_spec(bound: bool, phone_id: Option<String>) -> Seq<NvsWrite> {
    if bound && phone_id is Some {
        seq![
            NvsWrite::SetU8 { key: NVS_BINDING_BOUND_KEY, value: 1 },
            NvsWrite::SetStr { key: NVS_BINDING_PHONE_ID_KEY, value: phone_id->0 },
        ]
    } else if bound {
        seq![NvsWrite::SetU8 { key: NVS_BINDING_BOUND_KEY, value: 1 }]
    } else {
        seq![
            NvsWrite::SetU8 { key: NVS_BINDING_BOUND_KEY, value: 0 },
            NvsWrite::Remove { key: NVS_BINDING_PHONE_ID_KEY },
        ]
    }
}

/// Changes that persist a binding.
pub fn binding_writes(bound: bool, phone_id: &Option<String>) -> (r: Vec<NvsWrite>)
    ensures
        r@ == binding_writes_spec(bound, *phone_id),
{
    let mut w: Vec<NvsWrite> = Vec::new();
    w.push(NvsWrite::SetU8 { key: NVS_BINDING_BOUND_KEY, value: if bound { 1 } else { 0 } });
    if bound {
        match phone_id {
            Some(p) => {
                w.push(NvsWrite::SetStr { key: NVS_BINDING_PHONE_ID_KEY, value: p.clone() });
            },
            None => {},
        }
    } else {
        w.push(NvsWrite::Remove { key: NVS_BINDING_PHONE_ID_KEY });
    }
    assert(w@ =~= binding_writes_spec(bound, *phone_id));
    w
}

/// The change that persists one optional pairing text: set when present
/// and non-empty, removed otherwise.
pub open spec fn text_write(key: &'static str, v: Option<String>) -> NvsWrite {
    match v {
        Some(s) => if s@.len() > 0 { NvsWrite::SetStr { key, value: s } } else { NvsWrite::Remove { key } },
        None => NvsWrite::Remove { key },
    }
}

/// Change persisting one pairing text.
fn text_write_exec(key: &'static str, v: &Option<String>) -> (r: NvsWrite)
    ensures
        r == text_write(key, *v),
{
    match v {
        Some(s) => if !s.as_str().is_empty() {
            NvsWrite::SetStr { key, value: s.clone() }
        } else {
            NvsWrite::Remove { key }
        },
        None => NvsWrite::Remove { key },
    }
}

/// Changes that persist a pairing: peer id, then peer address.
pub open spec fn pair_writes_spec(paired_with: Option<String>, peer_ip: Option<String>) -> Seq<NvsWrite> {
    seq![text_write(NVS_PAIR_PAIRED_WITH_KEY, paired_with), text_write(NVS_PAIR_PEER_IP_KEY, peer_ip)]
}

/// Changes that persist a pairing.
pub fn pair_writes(paired_with: &Option<String>, peer_ip: &Option<String>) -> (r: Vec<NvsWrite>)
    ensures
        r@ == pair_writes_spec(*paired_with, *peer_ip),
{
    let a = text_write_exec(NVS_PAIR_PAIRED_WITH_KEY, paired_with);
    let b = text_write_exec(NVS_PAIR_PEER_IP_KEY, peer_ip);
    let w = vec![a, b];
    assert(w@ =~= seq![a, b]);
    w
}

/// Applying one change is applying that change.
proof fn lemma_apply_one(store: Map<Seq<char>, StoredValue>, ws: Seq<NvsWrite>)
    requires
        ws.len() == 1,
    ensures
        apply_writes(store, ws) == apply_write(store, ws[0]),
{
    assert(ws.drop_last() =~= Seq::<NvsWrite>::empty());
    assert(apply_writes(store, Seq::<NvsWrite>::empty()) == store);
}

/// Applying two changes is applying the first, then the second.
proof fn lemma_apply_two(store: Map<Seq<char>, StoredValue>, ws: Seq<NvsWrite>)
    requires
        ws.len() == 2,
    ensures
        apply_writes(store, ws) == apply_write(apply_write(store, ws[0]), ws[1]),
{
    assert(ws.drop_last() =~= seq![ws[0]]);
    lemma_apply_one(store, seq![ws[0]]);
}

/// Law: a binding written to the store reads back as written, its phone
/// id trimmed and absent when blank: a bound state reads back bound with
/// the written id (or, when none was written, the id stored before), an
/// unbound state reads back unbound without id.
pub proof fn law_binding_round_trip(store: Map<Seq<char>, StoredValue>, bound: bool, phone_id: Option<String>)
    ensures
        read_binding(apply_writes(store, binding_writes_spec(bound, phone_id))) == (
            bound,
            if !bound {
                None
            } else if phone_id is Some {
                cleaned(opt_text(phone_id))
            } else {
                cleaned(text_at(store, NVS_BINDING_PHONE_ID_KEY@))
            },
        ),
{
    let writes = binding_writes_spec(bound, phone_id);
    reveal_strlit("binding.bound");
    reveal_strlit("binding.phone_id");
    assert(NVS_BINDING_BOUND_KEY@ != NVS_BINDING_PHONE_ID_KEY@) by {
        assert(NVS_BINDING_BOUND_KEY@.len() != NVS_BINDING_PHONE_ID_KEY@.len());
    }
    if bound && phone_id is None {
        lemma_apply_one(store, writes);
    } else {
        lemma_apply_two(store, writes);
    }
}

/// Law: a pairing written to the store reads back as written, each text
/// trimmed and absent when blank.
pub proof fn law_pair_round_trip(store: Map<Seq<char>, StoredValue>, paired_with: Option<String>, peer_ip: Option<String>)
    ensures
        read_pair(apply_writes(store, pair_writes_spec(paired_with, peer_ip))) == (
            cleaned(opt_text(paired_with)),
            cleaned(opt_text(peer_ip)),
        ),
{
    reveal_strlit("pair.paired_with");
    reveal_strlit("pair.peer_ip");
    assert(NVS_PAIR_PAIRED_WITH_KEY@ != NVS_PAIR_PEER_IP_KEY@) by {
        assert(NVS_PAIR_PAIRED_WITH_KEY@.len() != NVS_PAIR_PEER_IP_KEY@.len());
    }
    let ws = pair_writes_spec(paired_with, peer_ip);
    lemma_apply_two(store, ws);
    assert(trimmed(Seq::<char>::empty()) == Seq::<char>::empty());
}

} // verus!
