use std::collections::HashMap;

use butterfly::storage::{
    binding_from_stored, binding_writes, pair_from_stored, pair_writes, NvsWrite, NVS_BINDING_BOUND_KEY,
    NVS_BINDING_PHONE_ID_KEY, NVS_PAIR_PAIRED_WITH_KEY, NVS_PAIR_PEER_IP_KEY,
};

#[derive(Clone, Debug, PartialEq)]
enum Stored {
    Byte(u8),
    Text(String),
}

fn apply(store: &mut HashMap<String, Stored>, writes: Vec<NvsWrite>) {
    for w in writes {
        match w {
            NvsWrite::SetU8 { key, value } => {
                store.insert(key.to_string(), Stored::Byte(value));
            }
            NvsWrite::SetStr { key, value } => {
                store.insert(key.to_string(), Stored::Text(value));
            }
            NvsWrite::Remove { key } => {
                store.remove(key);
            }
        }
    }
}

fn byte(store: &HashMap<String, Stored>, key: &str) -> Option<u8> {
    match store.get(key) {
        Some(Stored::Byte(b)) => Some(*b),
        _ => None,
    }
}

fn text(store: &HashMap<String, Stored>, key: &str) -> Option<String> {
    match store.get(key) {
        Some(Stored::Text(t)) => Some(t.clone()),
        _ => None,
    }
}

fn read_binding(store: &HashMap<String, Stored>) -> (bool, Option<String>) {
    binding_from_stored(byte(store, NVS_BINDING_BOUND_KEY), text(store, NVS_BINDING_PHONE_ID_KEY))
}

fn read_pair(store: &HashMap<String, Stored>) -> (Option<String>, Option<String>) {
    pair_from_stored(text(store, NVS_PAIR_PAIRED_WITH_KEY), text(store, NVS_PAIR_PEER_IP_KEY))
}

#[test]
fn keys_and_namespace() {
    assert_eq!(butterfly::storage::NVS_NAMESPACE, "bt_fy");
    assert_eq!(NVS_BINDING_BOUND_KEY, "binding.bound");
    assert_eq!(NVS_BINDING_PHONE_ID_KEY, "binding.phone_id");
    assert_eq!(NVS_PAIR_PAIRED_WITH_KEY, "pair.paired_with");
    assert_eq!(NVS_PAIR_PEER_IP_KEY, "pair.peer_ip");
}

#[test]
fn binding_writes_per_state() {
    let w = binding_writes(true, &Some("phone".to_string()));
    assert_eq!(w.len(), 2);
    assert!(matches!(&w[0], NvsWrite::SetU8 { key: "binding.bound", value: 1 }));
    assert!(matches!(&w[1], NvsWrite::SetStr { key: "binding.phone_id", value } if value == "phone"));
    let w = binding_writes(true, &None);
    assert_eq!(w.len(), 1);
    let w = binding_writes(false, &Some("ignored".to_string()));
    assert!(matches!(&w[0], NvsWrite::SetU8 { key: "binding.bound", value: 0 }));
    assert!(matches!(&w[1], NvsWrite::Remove { key: "binding.phone_id" }));
}

#[test]
fn binding_round_trip() {
    let mut store = HashMap::new();
    assert_eq!(read_binding(&store), (false, None));
    apply(&mut store, binding_writes(true, &Some("phone-9".to_string())));
    assert_eq!(read_binding(&store), (true, Some("phone-9".to_string())));
    apply(&mut store, binding_writes(false, &None));
    assert_eq!(read_binding(&store), (false, None));
}

#[test]
fn bound_without_phone_keeps_stored_phone() {
    let mut store = HashMap::new();
    apply(&mut store, binding_writes(true, &Some("old".to_string())));
    apply(&mut store, binding_writes(true, &None));
    assert_eq!(read_binding(&store), (true, Some("old".to_string())));
}

#[test]
fn pair_round_trip_and_blank_values() {
    let mut store = HashMap::new();
    apply(&mut store, pair_writes(&Some("dev-A".to_string()), &Some("10.0.0.3".to_string())));
    assert_eq!(read_pair(&store), (Some("dev-A".to_string()), Some("10.0.0.3".to_string())));
    // an empty text is removed rather than stored
    let w = pair_writes(&Some(String::new()), &None);
    assert!(matches!(&w[0], NvsWrite::Remove { key: "pair.paired_with" }));
    assert!(matches!(&w[1], NvsWrite::Remove { key: "pair.peer_ip" }));
    apply(&mut store, w);
    assert_eq!(read_pair(&store), (None, None));
}

#[test]
fn stored_texts_are_trimmed_and_blank_ones_dropped() {
    assert_eq!(binding_from_stored(Some(7), Some("  phone \n".to_string())), (true, Some("phone".to_string())));
    assert_eq!(binding_from_stored(None, Some("   ".to_string())), (false, None));
    assert_eq!(pair_from_stored(Some(" a ".to_string()), Some(String::new())), (Some("a".to_string()), None));
}

#[test]
fn round_trips_for_any_text() {
    let mut store = HashMap::new();
    apply(&mut store, pair_writes(&Some("  dev-B ".to_string()), &Some("   ".to_string())));
    assert_eq!(read_pair(&store), (Some("dev-B".to_string()), None));
    apply(&mut store, pair_writes(&None, &None));
    assert_eq!(read_pair(&store), (None, None));
    apply(&mut store, binding_writes(true, &Some(" phone ".to_string())));
    assert_eq!(read_binding(&store), (true, Some("phone".to_string())));
    apply(&mut store, binding_writes(false, &Some("ignored".to_string())));
    assert_eq!(read_binding(&store), (false, None));
}
