//! The transport queues: non-blocking sends, idempotent removal that
//! discards what was queued, and the outcome reports the network sender
//! raises.

use raft_kv::transport::{transmit_outcome, SendOutcome, Transport, QUEUE_CAPACITY};
use raft_kv::types::{CoreAction, Outbound, SnapshotOutcome};

fn msg(to: u64, data: &[u8]) -> Outbound {
    Outbound { to, is_snapshot: false, data: data.to_vec() }
}

#[test]
fn send_reaches_only_known_peers() {
    let mut t = Transport::new(1);
    t.add_peer(2, b"n2:1".to_vec());
    assert!(matches!(t.send(&msg(2, b"hello")), SendOutcome::Queued));
    assert!(matches!(t.send(&msg(9, b"void")), SendOutcome::UnknownPeer));
    // Self-addressed messages never get a queue.
    t.add_peer(1, b"n1:1".to_vec());
    assert!(matches!(t.send(&msg(1, b"self")), SendOutcome::UnknownPeer));

    let got = t.drain(2).expect("queued message");
    assert_eq!(got.data, b"hello".to_vec());
    assert!(t.drain(2).is_none());
}

#[test]
fn removal_stops_sends_and_discards_the_queue() {
    let mut t = Transport::new(1);
    t.add_peer(2, b"n2:1".to_vec());
    assert!(matches!(t.send(&msg(2, b"queued-but-never-sent")), SendOutcome::Queued));

    t.remove_peer(2);
    // What was queued before removal is discarded, not delivered.
    assert!(t.drain(2).is_none());
    // Subsequent sends no longer reach any queue.
    assert!(matches!(t.send(&msg(2, b"late")), SendOutcome::UnknownPeer));
    // Removal is idempotent.
    t.remove_peer(2);
    t.remove_peer(77);
}

#[test]
fn remove_all_clears_every_peer() {
    let mut t = Transport::new(1);
    t.start(&vec![(1, b"n1:1".to_vec()), (2, b"n2:1".to_vec()), (3, b"n3:1".to_vec())]);
    let mut ids = t.peer_ids();
    ids.sort();
    assert_eq!(ids, vec![2, 3]);
    t.remove_all();
    assert!(t.peer_ids().is_empty());
    assert!(matches!(t.send(&msg(2, b"late")), SendOutcome::UnknownPeer));
}

#[test]
fn re_adding_a_peer_resets_its_queue() {
    let mut t = Transport::new(1);
    t.add_peer(2, b"n2:1".to_vec());
    t.send(&msg(2, b"stale"));
    t.add_peer(2, b"n2:2".to_vec());
    assert!(t.drain(2).is_none());
}

#[test]
fn a_full_queue_rejects_further_sends() {
    let mut t = Transport::new(1);
    t.add_peer(2, b"n2:1".to_vec());
    for i in 0..QUEUE_CAPACITY {
        let i = i as u64;
        assert!(matches!(t.send(&msg(2, &i.to_le_bytes())), SendOutcome::Queued));
    }
    assert!(matches!(t.send(&msg(2, b"overflow")), SendOutcome::Rejected));
    // Draining one makes room again.
    assert!(t.drain(2).is_some());
    assert!(matches!(t.send(&msg(2, b"fits-again")), SendOutcome::Queued));
}

#[test]
fn queues_keep_submission_order() {
    let mut t = Transport::new(1);
    t.add_peer(2, b"n2:1".to_vec());
    t.send(&msg(2, b"first"));
    t.send(&msg(2, b"second"));
    t.send(&Outbound { to: 2, is_snapshot: true, data: b"snap".to_vec() });
    assert_eq!(t.drain(2).unwrap().data, b"first".to_vec());
    assert_eq!(t.drain(2).unwrap().data, b"second".to_vec());
    let last = t.drain(2).unwrap();
    assert_eq!(last.data, b"snap".to_vec());
    assert!(last.is_snapshot);
}

#[test]
fn transmission_outcomes_report_as_events() {
    let r = transmit_outcome(3, false, true);
    assert!(r.is_empty());

    let r = transmit_outcome(3, true, true);
    assert!(matches!(
        &r[..],
        [CoreAction::ReportSnapshot { peer: 3, outcome: SnapshotOutcome::Finish }]
    ));

    let r = transmit_outcome(3, false, false);
    assert!(matches!(&r[..], [CoreAction::ReportUnreachable { peer: 3 }]));

    let r = transmit_outcome(3, true, false);
    assert!(matches!(
        &r[..],
        [
            CoreAction::ReportSnapshot { peer: 3, outcome: SnapshotOutcome::Failure },
            CoreAction::ReportUnreachable { peer: 3 },
        ]
    ));
}
