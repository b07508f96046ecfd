//! The node driver: proposals, ready batches, membership changes, the
//! registry's at-most-once completion, and the local-read bypass.

use raft_kv::codec::{decode_members, encode_conf_change, encode_request};
use raft_kv::node::Node;
use raft_kv::types::{
    ConfChange, ConfChangeKind, CoreAction, LogEntry, Msg, Op, Ready, Request, Response,
    SnapshotData,
};

fn empty_ready() -> Ready {
    Ready { entries: Vec::new(), hard_state: None, snapshot: None, committed: Vec::new(), messages: Vec::new() }
}

fn request_entry(index: u64, r: &Request) -> LogEntry {
    LogEntry { index, is_conf_change: false, data: encode_request(r) }
}

fn conf_entry(index: u64, cc: &ConfChange) -> LogEntry {
    LogEntry { index, is_conf_change: true, data: encode_conf_change(cc) }
}

/// Propose a request, commit it at `index`, and return the response the
/// submitter receives.
fn propose_and_commit(node: &mut Node, index: u64, request: Request) -> Response {
    let (tx, rx) = crossbeam_channel::unbounded();
    let id = request.id;
    let actions = node.handle_msg(Msg::Propose { request, completion: tx });
    assert_eq!(actions.len(), 1);
    let data = match actions.into_iter().next().unwrap() {
        CoreAction::Propose { id: pid, data } => {
            assert_eq!(pid, id);
            data
        },
        _ => panic!("expected a propose action"),
    };
    let mut ready = empty_ready();
    ready.committed.push(LogEntry { index, is_conf_change: false, data });
    let writes = node.prepare_ready(ready);
    assert!(writes.is_empty());
    let rejected = node.finish_ready();
    assert!(rejected.is_empty());
    rx.try_recv().expect("the committed request resolves its proposal")
}

#[test]
fn put_get_delete_status_through_the_log() {
    let mut node = Node::new(1);
    node.init_cluster(&vec![1, 2, 3]);

    let resp = propose_and_commit(
        &mut node,
        1,
        Request { id: 10, op: Op::Put, key: b"a".to_vec(), value: Some(b"1".to_vec()) },
    );
    assert!(resp.ok);

    let resp = propose_and_commit(
        &mut node,
        2,
        Request { id: 11, op: Op::Get, key: b"a".to_vec(), value: None },
    );
    assert!(resp.ok);
    assert_eq!(resp.value, Some(b"1".to_vec()));

    let resp = propose_and_commit(
        &mut node,
        3,
        Request { id: 12, op: Op::Delete, key: b"a".to_vec(), value: None },
    );
    assert!(resp.ok);

    let resp = propose_and_commit(
        &mut node,
        4,
        Request { id: 13, op: Op::Get, key: b"a".to_vec(), value: None },
    );
    assert!(resp.ok);
    assert!(resp.value.is_none());

    let resp = propose_and_commit(
        &mut node,
        5,
        Request { id: 14, op: Op::Status, key: Vec::new(), value: None },
    );
    assert!(resp.ok);
    assert_eq!(decode_members(&resp.value.unwrap()), Some(vec![1, 2, 3]));
}

#[test]
fn rejected_proposal_fails_fast_without_committing() {
    let mut node = Node::new(1);
    let (tx, rx) = crossbeam_channel::unbounded();
    let request = Request { id: 42, op: Op::Put, key: b"k".to_vec(), value: Some(b"v".to_vec()) };
    let actions = node.handle_msg(Msg::Propose { request, completion: tx });
    assert_eq!(actions.len(), 1);

    // The consensus core is not the leader: the proposal is rejected at
    // submission and the submitter hears `ok: false` at once.
    let fired = node.propose_rejected(42);
    assert!(fired);
    let resp = rx.try_recv().expect("the rejection resolves the proposal");
    assert!(!resp.ok);
    assert!(resp.value.is_none());

    // No matching entry ever committed: the store never saw the write.
    assert!(node.local_get(b"k").is_none());

    // The registry entry is gone, so nothing can fire a second time.
    assert!(!node.propose_rejected(42));
    assert!(rx.try_recv().is_err());
}

#[test]
fn completion_fires_at_most_once() {
    let mut node = Node::new(1);
    let resp = propose_and_commit(
        &mut node,
        1,
        Request { id: 7, op: Op::Put, key: b"a".to_vec(), value: Some(b"1".to_vec()) },
    );
    assert!(resp.ok);

    // The same id commits again (the submitter retried): the registry
    // entry was consumed by the first commit, so nothing fires.
    let (tx, rx) = crossbeam_channel::unbounded::<Response>();
    drop(tx);
    let r = Request { id: 7, op: Op::Put, key: b"a".to_vec(), value: Some(b"2".to_vec()) };
    let mut ready = empty_ready();
    ready.committed.push(request_entry(2, &r));
    node.prepare_ready(ready);
    node.finish_ready();
    assert!(rx.try_recv().is_err());
    // The write itself still applied, exactly once per index.
    assert_eq!(node.local_get(b"a"), Some(b"2".to_vec()));
}

#[test]
fn colliding_id_is_answered_false_immediately() {
    let mut node = Node::new(1);
    let (tx1, _rx1) = crossbeam_channel::unbounded();
    let r1 = Request { id: 5, op: Op::Put, key: b"a".to_vec(), value: Some(b"1".to_vec()) };
    let actions = node.handle_msg(Msg::Propose { request: r1, completion: tx1 });
    assert_eq!(actions.len(), 1);

    let (tx2, rx2) = crossbeam_channel::unbounded();
    let r2 = Request { id: 5, op: Op::Put, key: b"b".to_vec(), value: Some(b"2".to_vec()) };
    let actions = node.handle_msg(Msg::Propose { request: r2, completion: tx2 });
    assert!(actions.is_empty());
    let resp = rx2.try_recv().expect("the collision is answered at once");
    assert!(!resp.ok);
}

#[test]
fn followers_discard_responses_silently() {
    // A follower applies a committed entry it never proposed: no registry
    // entry, nothing fires, the write still applies.
    let mut node = Node::new(2);
    let r = Request { id: 77, op: Op::Put, key: b"a".to_vec(), value: Some(b"1".to_vec()) };
    let mut ready = empty_ready();
    ready.committed.push(request_entry(1, &r));
    node.prepare_ready(ready);
    node.finish_ready();
    assert_eq!(node.local_get(b"a"), Some(b"1".to_vec()));
}

#[test]
fn entries_apply_once_per_index_in_order() {
    let mut node = Node::new(1);
    let first = Request { id: 1, op: Op::Put, key: b"k".to_vec(), value: Some(b"first".to_vec()) };
    let mut ready = empty_ready();
    ready.committed.push(request_entry(1, &first));
    node.prepare_ready(ready);
    node.finish_ready();

    // A replayed entry at an already-applied index is skipped.
    let replay = Request { id: 2, op: Op::Put, key: b"k".to_vec(), value: Some(b"replay".to_vec()) };
    let mut ready = empty_ready();
    ready.committed.push(request_entry(1, &replay));
    node.prepare_ready(ready);
    node.finish_ready();
    assert_eq!(node.local_get(b"k"), Some(b"first".to_vec()));

    // Later indices apply in ascending order.
    let second = Request { id: 3, op: Op::Put, key: b"k".to_vec(), value: Some(b"second".to_vec()) };
    let third = Request { id: 4, op: Op::Put, key: b"k".to_vec(), value: Some(b"third".to_vec()) };
    let mut ready = empty_ready();
    ready.committed.push(request_entry(2, &second));
    ready.committed.push(request_entry(3, &third));
    node.prepare_ready(ready);
    node.finish_ready();
    assert_eq!(node.local_get(b"k"), Some(b"third".to_vec()));
}

#[test]
fn ready_persists_entries_before_anything_else() {
    let mut node = Node::new(1);
    let r = Request { id: 1, op: Op::Put, key: b"k".to_vec(), value: Some(b"v".to_vec()) };
    let mut ready = empty_ready();
    ready.entries.push(request_entry(9, &r));
    ready.hard_state = Some(b"hs".to_vec());
    let writes = node.prepare_ready(ready);
    assert_eq!(writes.len(), 2);
    // One write per new entry, keyed in the metadata namespace, then the
    // hard state.
    assert_eq!(writes[0].key[0], 109);
    assert_eq!(writes[1].key[0], 109);
    assert_eq!(writes[1].value, b"hs".to_vec());
    // Nothing was applied yet.
    assert!(node.local_get(b"k").is_none());
    node.finish_ready();
}

#[test]
fn local_read_lags_a_committing_write() {
    let mut node = Node::new(1);
    let resp = propose_and_commit(
        &mut node,
        1,
        Request { id: 1, op: Op::Put, key: b"a".to_vec(), value: Some(b"old".to_vec()) },
    );
    assert!(resp.ok);

    // A newer write is committing: it sits in a prepared ready batch that
    // is not yet applied.  The local bypass still observes the older value.
    let newer = Request { id: 2, op: Op::Put, key: b"a".to_vec(), value: Some(b"new".to_vec()) };
    let mut ready = empty_ready();
    ready.committed.push(request_entry(2, &newer));
    node.prepare_ready(ready);
    assert_eq!(node.local_get(b"a"), Some(b"old".to_vec()));

    // Once applied, a read through the log and the bypass agree.
    node.finish_ready();
    assert_eq!(node.local_get(b"a"), Some(b"new".to_vec()));
    let resp = propose_and_commit(
        &mut node,
        3,
        Request { id: 3, op: Op::Get, key: b"a".to_vec(), value: None },
    );
    assert_eq!(resp.value, Some(b"new".to_vec()));
}

#[test]
fn conf_changes_update_members_and_peers() {
    let mut node = Node::new(1);
    node.init_cluster(&vec![1, 2]);
    node.start(&vec![(1, b"n1:1".to_vec()), (2, b"n2:1".to_vec())]);
    let mut ids = node.peer_ids();
    ids.sort();
    assert_eq!(ids, vec![2]);

    let add = ConfChange { kind: ConfChangeKind::AddNode, node_id: 3, context: b"n3:1".to_vec() };
    let mut ready = empty_ready();
    ready.committed.push(conf_entry(1, &add));
    node.prepare_ready(ready);
    node.finish_ready();
    let mut ids = node.peer_ids();
    ids.sort();
    assert_eq!(ids, vec![2, 3]);

    let remove = ConfChange { kind: ConfChangeKind::RemoveNode, node_id: 2, context: Vec::new() };
    let mut ready = empty_ready();
    ready.committed.push(conf_entry(2, &remove));
    node.prepare_ready(ready);
    node.finish_ready();
    let ids = node.peer_ids();
    assert_eq!(ids, vec![3]);

    let resp = propose_and_commit(
        &mut node,
        3,
        Request { id: 30, op: Op::Status, key: Vec::new(), value: None },
    );
    assert_eq!(decode_members(&resp.value.unwrap()), Some(vec![1, 3]));
}

#[test]
fn committed_conf_changes_are_listed_for_the_core() {
    let mut ready = empty_ready();
    let add = ConfChange { kind: ConfChangeKind::AddNode, node_id: 3, context: b"n3:1".to_vec() };
    let req = Request { id: 1, op: Op::Put, key: b"a".to_vec(), value: None };
    ready.committed.push(conf_entry(1, &add));
    ready.committed.push(request_entry(2, &req));
    let remove = ConfChange { kind: ConfChangeKind::RemoveNode, node_id: 2, context: Vec::new() };
    ready.committed.push(conf_entry(3, &remove));
    // An undecodable conf-change entry is skipped.
    ready.committed.push(LogEntry { index: 4, is_conf_change: true, data: vec![9] });

    let ccs = Node::committed_conf_changes(&ready);
    assert_eq!(ccs.len(), 2);
    assert!(matches!(ccs[0].kind, ConfChangeKind::AddNode));
    assert_eq!(ccs[0].node_id, 3);
    assert!(matches!(ccs[1].kind, ConfChangeKind::RemoveNode));
    assert_eq!(ccs[1].node_id, 2);
}

#[test]
fn snapshot_replaces_the_data_namespace() {
    let mut node = Node::new(1);
    let old = Request { id: 1, op: Op::Put, key: b"gone".to_vec(), value: Some(b"x".to_vec()) };
    let mut ready = empty_ready();
    ready.committed.push(request_entry(1, &old));
    node.prepare_ready(ready);
    node.finish_ready();

    let mut ready = empty_ready();
    ready.snapshot = Some(SnapshotData {
        index: 10,
        pairs: vec![(b"a".to_vec(), b"1".to_vec()), (b"b".to_vec(), b"2".to_vec())],
    });
    // An already-covered entry rides along and must be skipped.
    let stale = Request { id: 2, op: Op::Put, key: b"gone".to_vec(), value: Some(b"y".to_vec()) };
    ready.committed.push(request_entry(4, &stale));
    node.prepare_ready(ready);
    node.finish_ready();

    assert!(node.local_get(b"gone").is_none());
    assert_eq!(node.local_get(b"a"), Some(b"1".to_vec()));
    assert_eq!(node.local_get(b"b"), Some(b"2".to_vec()));
}

#[test]
fn ready_messages_reach_peer_queues() {
    let mut node = Node::new(1);
    node.start(&vec![(2, b"n2:1".to_vec())]);
    let mut ready = empty_ready();
    ready.messages.push(raft_kv::types::Outbound { to: 2, is_snapshot: false, data: b"m1".to_vec() });
    ready.messages.push(raft_kv::types::Outbound { to: 9, is_snapshot: false, data: b"lost".to_vec() });
    node.prepare_ready(ready);
    let rejected = node.finish_ready();
    assert!(rejected.is_empty());

    let msg = node.drain(2).expect("the known peer got the message");
    assert_eq!(msg.data, b"m1".to_vec());
    assert!(!msg.is_snapshot);
    assert!(node.drain(2).is_none());
    // The message for the unknown peer was dropped silently.
    assert!(node.drain(9).is_none());
}

#[test]
fn driver_events_forward_to_the_core() {
    let mut node = Node::new(1);
    let actions = node.handle_msg(Msg::Raft { data: b"peer-bytes".to_vec() });
    assert!(matches!(&actions[..], [CoreAction::Step { data }] if data == b"peer-bytes"));

    let change = ConfChange { kind: ConfChangeKind::AddLearnerNode, node_id: 9, context: Vec::new() };
    let actions = node.handle_msg(Msg::ProposeConfChange { change });
    assert!(matches!(
        &actions[..],
        [CoreAction::ProposeConfChange { change }] if change.node_id == 9
    ));

    let actions = node.handle_msg(Msg::ReportUnreachable { peer: 3 });
    assert!(matches!(&actions[..], [CoreAction::ReportUnreachable { peer: 3 }]));

    let actions = node.handle_msg(Msg::Tick);
    assert!(matches!(&actions[..], [CoreAction::Tick]));
}
