//! The codec, the data namespace, and the applier.

use raft_kv::applier::apply_request;
use raft_kv::codec::{
    decode_conf_change, decode_members, decode_request, encode_conf_change, encode_members,
    encode_request,
};
use raft_kv::keys::{data_key, entry_key, hard_state_key};
use raft_kv::kv::KvStore;
use raft_kv::types::{ConfChange, ConfChangeKind, Op, Request};

fn put(id: u64, key: &[u8], value: &[u8]) -> Request {
    Request { id, op: Op::Put, key: key.to_vec(), value: Some(value.to_vec()) }
}

#[test]
fn request_round_trip_with_value() {
    let r = put(7, b"alpha", b"beta");
    let bytes = encode_request(&r);
    let back = decode_request(&bytes).expect("round trip");
    assert_eq!(back.id, 7);
    assert!(matches!(back.op, Op::Put));
    assert_eq!(back.key, b"alpha".to_vec());
    assert_eq!(back.value, Some(b"beta".to_vec()));
}

#[test]
fn request_round_trip_without_value() {
    let r = Request { id: u64::MAX, op: Op::Get, key: Vec::new(), value: None };
    let bytes = encode_request(&r);
    let back = decode_request(&bytes).expect("round trip");
    assert_eq!(back.id, u64::MAX);
    assert!(matches!(back.op, Op::Get));
    assert!(back.key.is_empty());
    assert!(back.value.is_none());
}

#[test]
fn request_decode_rejects_garbage() {
    assert!(decode_request(&Vec::new()).is_none());
    assert!(decode_request(&vec![9u8; 18]).is_none());
    let mut bytes = encode_request(&put(1, b"k", b"v"));
    bytes.push(0);
    assert!(decode_request(&bytes).is_none());
}

#[test]
fn conf_change_round_trip() {
    let cc = ConfChange { kind: ConfChangeKind::AddNode, node_id: 4, context: b"10.0.0.4:20174".to_vec() };
    let bytes = encode_conf_change(&cc);
    let back = decode_conf_change(&bytes).expect("round trip");
    assert!(matches!(back.kind, ConfChangeKind::AddNode));
    assert_eq!(back.node_id, 4);
    assert_eq!(back.context, b"10.0.0.4:20174".to_vec());
    assert!(decode_conf_change(&vec![3u8, 0, 0, 0, 0, 0, 0, 0, 0]).is_none());
    assert!(decode_conf_change(&vec![0u8]).is_none());
}

#[test]
fn members_round_trip() {
    let ms = vec![1u64, 2, 3];
    let bytes = encode_members(&ms);
    assert_eq!(bytes.len(), 24);
    assert_eq!(decode_members(&bytes), Some(vec![1, 2, 3]));
    assert!(decode_members(&vec![0u8; 7]).is_none());
    assert_eq!(decode_members(&Vec::new()), Some(Vec::new()));
}

#[test]
fn key_namespaces_are_disjoint() {
    let d = data_key(b"e");
    let e = entry_key(5);
    let h = hard_state_key();
    assert_ne!(d, e);
    assert_ne!(d, h);
    assert_ne!(e, h);
    assert_eq!(d[0], 100);
    assert_eq!(e[0], 109);
    assert_eq!(h[0], 109);
}

#[test]
fn applier_get_put_delete() {
    let mut kv = KvStore::new();
    let members = vec![1u64, 2, 3];

    let resp = apply_request(&mut kv, &members, put(1, b"a", b"1"));
    assert!(resp.ok);
    assert!(resp.value.is_none());

    let resp = apply_request(
        &mut kv,
        &members,
        Request { id: 2, op: Op::Get, key: b"a".to_vec(), value: None },
    );
    assert!(resp.ok);
    assert_eq!(resp.value, Some(b"1".to_vec()));

    let resp = apply_request(
        &mut kv,
        &members,
        Request { id: 3, op: Op::Delete, key: b"a".to_vec(), value: None },
    );
    assert!(resp.ok);

    let resp = apply_request(
        &mut kv,
        &members,
        Request { id: 4, op: Op::Get, key: b"a".to_vec(), value: None },
    );
    assert!(resp.ok);
    assert!(resp.value.is_none());
}

#[test]
fn applier_last_write_wins() {
    let mut kv = KvStore::new();
    let members = Vec::new();
    apply_request(&mut kv, &members, put(1, b"k", b"old"));
    apply_request(&mut kv, &members, put(2, b"k", b"new"));
    let resp = apply_request(
        &mut kv,
        &members,
        Request { id: 3, op: Op::Get, key: b"k".to_vec(), value: None },
    );
    assert_eq!(resp.value, Some(b"new".to_vec()));
}

#[test]
fn applier_status_reports_members() {
    let mut kv = KvStore::new();
    let members = vec![1u64, 2, 3];
    let resp = apply_request(
        &mut kv,
        &members,
        Request { id: 9, op: Op::Status, key: Vec::new(), value: None },
    );
    assert!(resp.ok);
    let value = resp.value.expect("status carries the members");
    assert_eq!(decode_members(&value), Some(vec![1, 2, 3]));
}

#[test]
fn applier_is_deterministic() {
    let requests = [
        put(1, b"x", b"1"),
        put(2, b"y", b"2"),
        Request { id: 3, op: Op::Delete, key: b"x".to_vec(), value: None },
        put(4, b"y", b"3"),
    ];
    let members = vec![1u64];
    let mut kv1 = KvStore::new();
    let mut kv2 = KvStore::new();
    for r in requests.iter() {
        let copy1 = Request { id: r.id, op: r.op, key: r.key.clone(), value: r.value.clone() };
        let copy2 = Request { id: r.id, op: r.op, key: r.key.clone(), value: r.value.clone() };
        apply_request(&mut kv1, &members, copy1);
        apply_request(&mut kv2, &members, copy2);
    }
    for key in [b"x".to_vec(), b"y".to_vec()] {
        assert_eq!(kv1.get(&key), kv2.get(&key));
    }
    assert_eq!(kv1.get(b"y"), Some(b"3".to_vec()));
    assert!(kv1.get(b"x").is_none());
}

#[test]
fn kv_store_overwrites_and_removes() {
    let mut kv = KvStore::new();
    assert!(kv.get(b"missing").is_none());
    kv.put(b"k".to_vec(), b"a".to_vec());
    kv.put(b"k".to_vec(), b"b".to_vec());
    assert_eq!(kv.get(b"k"), Some(b"b".to_vec()));
    kv.delete(b"k");
    assert!(kv.get(b"k").is_none());
    kv.delete(b"k");
    assert!(kv.get(b"k").is_none());
    kv.put(Vec::new(), Vec::new());
    assert_eq!(kv.get(b""), Some(Vec::new()));
}
