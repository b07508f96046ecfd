//! Transport: one outbound queue per known peer.  `send` is non-blocking —
//! it enqueues when the peer is known and otherwise drops the message
//! silently (which covers self-addressed and not-yet-configured peers).  A
//! full queue rejects the message so the caller can report the peer
//! unreachable.  Removing a peer tears its queue down: whatever was still
//! queued is discarded, and later sends for that peer no longer reach a
//! queue at all.  The network sender that drains each queue lives outside
//! this crate and only reports outcomes back as driver events.

use vstd::prelude::*;
use vstd::slice::slice_to_vec;
use crate::types::{outbound_views, CoreAction, Outbound, OutboundView, SnapshotOutcome};

verus! {

/// How many messages a peer's outbound queue may hold before further sends
/// are rejected and reported.
pub const QUEUE_CAPACITY: usize = 1024;

/// One message waiting in a peer's outbound queue.
pub struct QueuedMessage {
    pub data: Vec<u8>,
    pub is_snapshot: bool,
}

/// The mathematical value of a peer: its address and its queue of
/// (message bytes, snapshot-class) entries, oldest first.
pub struct PeerState {
    pub addr: Seq<u8>,
    pub queue: Seq<(Seq<u8>, bool)>,
}

/// One known peer with its outbound queue.
struct Peer {
    id: u64,
    addr: Vec<u8>,
    queue: Vec<QueuedMessage>,
}

spec fn peer_state(p: Peer) -> PeerState {
    PeerState { addr: p.addr@, queue: p.queue@.map_values(|m: QueuedMessage| (m.data@, m.is_snapshot)) }
}

spec fn peers_map(s: Seq<Peer>) -> Map<u64, PeerState>
    decreases s.len(),
{
    if s.len() == 0 {
        Map::empty()
    } else {
        peers_map(s.drop_last()).insert(s.last().id, peer_state(s.last()))
    }
}

spec fn unique_peer_ids(s: Seq<Peer>) -> bool {
    forall|i: int, j: int| 0 <= i < j < s.len() ==> s[i].id != s[j].id
}

proof fn lemma_peers_map_index(s: Seq<Peer>, id: u64)
    requires
        unique_peer_ids(s),
    ensures
        peers_map(s).contains_key(id) <==> exists|i: int| 0 <= i < s.len() && s[i].id == id,
        forall|i: int|
            0 <= i < s.len() && s[i].id == id ==> peers_map(s)[id] == peer_state(s[i]),
    decreases s.len(),
{
    if s.len() > 0 {
        lemma_peers_map_index(s.drop_last(), id);
        if s.last().id == id {
            assert(s[s.len() - 1].id == id);
        } else {
            assert(forall|i: int|
                0 <= i < s.len() && s[i].id == id ==> 0 <= i < s.drop_last().len()
                    && s.drop_last()[i].id == id);
        }
    }
}

proof fn lemma_peers_map_remove(s: Seq<Peer>, i: int, id: u64)
    requires
        unique_peer_ids(s),
        0 <= i < s.len(),
        s[i].id == id,
    ensures
        peers_map(s.remove(i)) == peers_map(s).remove(id),
        unique_peer_ids(s.remove(i)),
        forall|j: int| 0 <= j < s.remove(i).len() ==> s.remove(i)[j].id != id,
    decreases s.len(),
{
    let dl = s.drop_last();
    assert(unique_peer_ids(dl));
    assert forall|a: int, b: int| 0 <= a < b < s.remove(i).len() implies s.remove(i)[a].id
        != s.remove(i)[b].id by {
        let a0 = if a < i { a } else { a + 1 };
        let b0 = if b < i { b } else { b + 1 };
        assert(s.remove(i)[a] == s[a0]);
        assert(s.remove(i)[b] == s[b0]);
    }
    assert forall|j: int| 0 <= j < s.remove(i).len() implies s.remove(i)[j].id != id by {
        let j0 = if j < i { j } else { j + 1 };
        assert(s.remove(i)[j] == s[j0]);
    }
    if i == s.len() - 1 {
        assert(s.remove(i) =~= dl);
        lemma_peers_map_index(dl, id);
        assert(forall|j: int| 0 <= j < dl.len() ==> dl[j].id != id);
        assert(!peers_map(dl).contains_key(id));
        assert(peers_map(dl) =~= peers_map(dl).insert(id, peer_state(s.last())).remove(id));
    } else {
        lemma_peers_map_remove(dl, i, id);
        assert(s.remove(i).drop_last() =~= dl.remove(i));
        assert(s.remove(i).last() == s.last());
        assert(s.last().id != id);
        assert(peers_map(s.remove(i)) == peers_map(dl.remove(i)).insert(
            s.last().id,
            peer_state(s.last()),
        ));
        assert(peers_map(dl).remove(id).insert(s.last().id, peer_state(s.last())) =~= peers_map(
            dl,
        ).insert(s.last().id, peer_state(s.last())).remove(id));
    }
}

/// What `send` decides for one message.
#[derive(Clone, Copy, PartialEq, Eq, Structural, Debug)]
pub enum SendOutcome {
    /// The peer is known and its queue had room: the message is queued.
    Queued,
    /// The peer is unknown: the message is silently dropped.
    UnknownPeer,
    /// The peer's queue is full: the message is rejected so the caller can
    /// report the peer unreachable.
    Rejected,
}

/// What one `send` does to the peer map and what it answers.
pub open spec fn send_spec(peers: Map<u64, PeerState>, m: OutboundView) -> (
    Map<u64, PeerState>,
    SendOutcome,
) {
    if !peers.contains_key(m.to) {
        (peers, SendOutcome::UnknownPeer)
    } else if peers[m.to].queue.len() >= QUEUE_CAPACITY {
        (peers, SendOutcome::Rejected)
    } else {
        (
            peers.insert(
                m.to,
                PeerState {
                    addr: peers[m.to].addr,
                    queue: peers[m.to].queue.push((m.data, m.is_snapshot)),
                },
            ),
            SendOutcome::Queued,
        )
    }
}

/// What a batch of sends does, in order, and which peers had a message
/// rejected for a full queue.
pub open spec fn send_all_spec(peers: Map<u64, PeerState>, msgs: Seq<OutboundView>) -> (
    Map<u64, PeerState>,
    Seq<u64>,
)
    decreases msgs.len(),
{
    if msgs.len() == 0 {
        (peers, Seq::empty())
    } else {
        let (mid, rejected) = send_all_spec(peers, msgs.drop_last());
        let (out, outcome) = send_spec(mid, msgs.last());
        (
            out,
            if outcome == SendOutcome::Rejected {
                rejected.push(msgs.last().to)
            } else {
                rejected
            },
        )
    }
}

/// The outbound side of this node, viewed as a map from peer id to that
/// peer's address and queue.
pub struct Transport {
    id: u64,
    peers: Vec<Peer>,
}

impl View for Transport {
    type V = Map<u64, PeerState>;

    closed spec fn view(&self) -> Map<u64, PeerState> {
        peers_map(self.peers@)
    }
}

impl Transport {
    #[verifier::type_invariant]
    spec fn wf(self) -> bool {
        unique_peer_ids(self.peers@) && forall|i: int|
            0 <= i < self.peers@.len() ==> self.peers@[i].id != self.id
    }

    /// This node's own id; messages addressed to it are never queued.
    pub closed spec fn node_id(&self) -> u64 {
        self.id
    }

    /// A transport with no known peers.
    pub fn new(id: u64) -> (r: Self)
        ensures
            r@ == Map::<u64, PeerState>::empty(),
            r.node_id() == id,
    {
        Transport { id, peers: Vec::new() }
    }

    fn find(&self, id: u64) -> (r: Option<usize>)
        ensures
            match r {
                Some(i) => i < self.peers@.len() && self.peers@[i as int].id == id,
                None => forall|i: int| 0 <= i < self.peers@.len() ==> self.peers@[i].id != id,
            },
    {
        let n = self.peers.len();
        let mut i: usize = 0;
        while i < n
            invariant
                n == self.peers@.len(),
                i <= n,
                forall|j: int| 0 <= j < i ==> self.peers@[j].id != id,
            decreases n - i,
        {
            if self.peers[i].id == id {
                return Some(i);
            }
            i = i + 1;
        }
        None
    }

    /// Forget a peer and discard whatever is still queued for it.
    /// Removing an unknown peer is a no-op, not an error.
    pub fn remove_peer(&mut self, id: u64)
        ensures
            final(self)@ == old(self)@.remove(id),
            final(self).node_id() == old(self).node_id(),
    {
        proof {
            use_type_invariant(&*self);
            lemma_peers_map_index(self.peers@, id);
        }
        match self.find(id) {
            Some(i) => {
                let ghost s = self.peers@;
                let mut peers: Vec<Peer> = Vec::new();
                core::mem::swap(&mut peers, &mut self.peers);
                peers.remove(i);
                proof {
                    lemma_peers_map_remove(s, i as int, id);
                }
                core::mem::swap(&mut peers, &mut self.peers);
            },
            None => {
                proof {
                    assert(!self@.contains_key(id));
                    assert(self@.remove(id) =~= self@);
                }
            },
        }
    }

    /// Forget every peer, discarding all queues.
    pub fn remove_all(&mut self)
        ensures
            final(self)@ == Map::<u64, PeerState>::empty(),
            final(self).node_id() == old(self).node_id(),
    {
        let mut peers: Vec<Peer> = Vec::new();
        core::mem::swap(&mut peers, &mut self.peers);
    }

    /// Make a peer known under the given address, with an empty queue.
    /// Adding this node's own id is a no-op; re-adding a peer resets its
    /// queue.
    pub fn add_peer(&mut self, id: u64, addr: Vec<u8>)
        ensures
            final(self)@ == if id == old(self).node_id() {
                old(self)@
            } else {
                old(self)@.insert(id, PeerState { addr: addr@, queue: Seq::empty() })
            },
            final(self).node_id() == old(self).node_id(),
    {
        if id == self.id {
            return;
        }
        self.remove_peer(id);
        proof {
            use_type_invariant(&*self);
            lemma_peers_map_index(self.peers@, id);
        }
        let ghost s = self.peers@;
        let mut peers: Vec<Peer> = Vec::new();
        core::mem::swap(&mut peers, &mut self.peers);
        peers.push(Peer { id, addr, queue: Vec::new() });
        proof {
            assert(peers@.drop_last() =~= s);
            assert(peer_state(peers@.last()).queue =~= Seq::<(Seq<u8>, bool)>::empty());
            assert(old(self)@.remove(id).insert(id, peer_state(peers@.last())) =~= old(
                self,
            )@.insert(id, peer_state(peers@.last())));
        }
        core::mem::swap(&mut peers, &mut self.peers);
    }

    /// Make every node of the initial cluster map a known peer, except this
    /// node itself.
    pub fn start(&mut self, nodes: &Vec<(u64, Vec<u8>)>)
        ensures
            final(self).node_id() == old(self).node_id(),
            final(self)@ == start_spec(old(self)@, nodes@, old(self).node_id()),
    {
        let n = nodes.len();
        let mut i: usize = 0;
        while i < n
            invariant
                n == nodes@.len(),
                i <= n,
                self.node_id() == old(self).node_id(),
                self@ == start_spec(old(self)@, nodes@.take(i as int), old(self).node_id()),
            decreases n - i,
        {
            let addr = slice_to_vec(nodes[i].1.as_slice());
            self.add_peer(nodes[i].0, addr);
            proof {
                assert(nodes@.take(i + 1).drop_last() =~= nodes@.take(i as int));
                assert(nodes@.take(i + 1).last() == nodes@[i as int]);
            }
            i = i + 1;
        }
        proof {
            assert(nodes@.take(n as int) =~= nodes@);
        }
    }

    /// Queue one message for its addressee: enqueued when the peer is known
    /// and has room, dropped when unknown, rejected when the queue is full.
    pub fn send(&mut self, m: &Outbound) -> (r: SendOutcome)
        ensures
            final(self)@ == send_spec(old(self)@, m@).0,
            r == send_spec(old(self)@, m@).1,
            final(self).node_id() == old(self).node_id(),
    {
        proof {
            use_type_invariant(&*self);
            lemma_peers_map_index(self.peers@, m.to);
        }
        match self.find(m.to) {
            None => SendOutcome::UnknownPeer,
            Some(i) => {
                let ghost s = self.peers@;
                let mut peers: Vec<Peer> = Vec::new();
                core::mem::swap(&mut peers, &mut self.peers);
                let mut p = peers.remove(i);
                proof {
                    lemma_peers_map_remove(s, i as int, m.to);
                }
                if p.queue.len() >= QUEUE_CAPACITY {
                    let ghost pv = peer_state(s[i as int]);
                    peers.push(p);
                    proof {
                        assert(peers@.drop_last() =~= s.remove(i as int));
                        assert(peer_state(peers@.last()) == pv);
                        assert(old(self)@.remove(m.to@).insert(m.to@, pv) =~= old(self)@);
                    }
                    core::mem::swap(&mut peers, &mut self.peers);
                    SendOutcome::Rejected
                } else {
                    let ghost oldq = p.queue@;
                    let data = slice_to_vec(m.data.as_slice());
                    p.queue.push(QueuedMessage { data, is_snapshot: m.is_snapshot });
                    proof {
                        assert(p.queue@.drop_last() =~= oldq);
                    }
                    let ghost pv = peer_state(p);
                    peers.push(p);
                    proof {
                        assert(peers@.drop_last() =~= s.remove(i as int));
                        assert(pv.queue =~= peer_state(s[i as int]).queue.push(
                            (m.data@, m.is_snapshot),
                        ));
                        assert(old(self)@.remove(m.to@).insert(m.to@, pv) =~= old(self)@.insert(
                            m.to@,
                            pv,
                        ));
                    }
                    core::mem::swap(&mut peers, &mut self.peers);
                    SendOutcome::Queued
                }
            },
        }
    }

    /// Queue a whole batch of messages in order, returning the peers whose
    /// full queues rejected a message.
    pub fn send_batch(&mut self, msgs: &Vec<Outbound>) -> (rejected: Vec<u64>)
        ensures
            final(self)@ == send_all_spec(old(self)@, outbound_views(msgs@)).0,
            rejected@ == send_all_spec(old(self)@, outbound_views(msgs@)).1,
            final(self).node_id() == old(self).node_id(),
    {
        let n = msgs.len();
        let mut rejected: Vec<u64> = Vec::new();
        let mut i: usize = 0;
        while i < n
            invariant
                n == msgs@.len(),
                i <= n,
                self.node_id() == old(self).node_id(),
                self@ == send_all_spec(old(self)@, outbound_views(msgs@.take(i as int))).0,
                rejected@ == send_all_spec(old(self)@, outbound_views(msgs@.take(i as int))).1,
            decreases n - i,
        {
            let outcome = self.send(&msgs[i]);
            if outcome == SendOutcome::Rejected {
                rejected.push(msgs[i].to);
            }
            proof {
                let v = outbound_views(msgs@.take(i + 1));
                assert(v.drop_last() =~= outbound_views(msgs@.take(i as int)));
                assert(v.last() == msgs@[i as int]@);
            }
            i = i + 1;
        }
        proof {
            assert(msgs@.take(n as int) =~= msgs@);
        }
        rejected
    }

    /// Take the oldest queued message for a peer, if the peer is known and
    /// has one.  The network sender polls this and owns the actual
    /// transmission.
    pub fn drain(&mut self, id: u64) -> (r: Option<QueuedMessage>)
        ensures
            match r {
                Some(msg) => {
                    &&& old(self)@.contains_key(id)
                    &&& old(self)@[id].queue.len() > 0
                    &&& (msg.data@, msg.is_snapshot) == old(self)@[id].queue[0]
                    &&& final(self)@ == old(self)@.insert(
                        id,
                        PeerState {
                            addr: old(self)@[id].addr,
                            queue: old(self)@[id].queue.subrange(
                                1,
                                old(self)@[id].queue.len() as int,
                            ),
                        },
                    )
                },
                None => {
                    &&& final(self)@ == old(self)@
                    &&& (!old(self)@.contains_key(id) || old(self)@[id].queue.len() == 0)
                },
            },
            final(self).node_id() == old(self).node_id(),
    {
        proof {
            use_type_invariant(&*self);
            lemma_peers_map_index(self.peers@, id);
        }
        match self.find(id) {
            None => None,
            Some(i) => {
                let ghost s = self.peers@;
                let mut peers: Vec<Peer> = Vec::new();
                core::mem::swap(&mut peers, &mut self.peers);
                let mut p = peers.remove(i);
                proof {
                    lemma_peers_map_remove(s, i as int, id);
                }
                if p.queue.len() == 0 {
                    let ghost pv = peer_state(s[i as int]);
                    peers.push(p);
                    proof {
                        assert(peers@.drop_last() =~= s.remove(i as int));
                        assert(peer_state(peers@.last()) == pv);
                        assert(old(self)@.remove(id).insert(id, pv) =~= old(self)@);
                    }
                    core::mem::swap(&mut peers, &mut self.peers);
                    None
                } else {
                    let ghost oldq = p.queue@;
                    let msg = p.queue.remove(0);
                    proof {
                        assert(p.queue@ =~= oldq.subrange(1, oldq.len() as int));
                    }
                    let ghost pv = peer_state(p);
                    peers.push(p);
                    proof {
                        assert(peers@.drop_last() =~= s.remove(i as int));
                        assert(pv.queue =~= peer_state(s[i as int]).queue.subrange(
                            1,
                            peer_state(s[i as int]).queue.len() as int,
                        ));
                        assert((msg.data@, msg.is_snapshot) == peer_state(s[i as int]).queue[0]);
                        assert(old(self)@.remove(id).insert(id, pv) =~= old(self)@.insert(id, pv));
                    }
                    core::mem::swap(&mut peers, &mut self.peers);
                    Some(msg)
                }
            },
        }
    }

    /// The address a peer was made known under, if it still is known.
    pub fn peer_addr(&self, id: u64) -> (r: Option<Vec<u8>>)
        ensures
            match r {
                Some(a) => self@.contains_key(id) && a@ == self@[id].addr,
                None => !self@.contains_key(id),
            },
    {
        proof {
            use_type_invariant(&*self);
            lemma_peers_map_index(self.peers@, id);
        }
        match self.find(id) {
            Some(i) => Some(slice_to_vec(self.peers[i].addr.as_slice())),
            None => None,
        }
    }

    /// The ids of the currently known peers, for the network sender to poll.
    pub fn peer_ids(&self) -> (r: Vec<u64>)
        ensures
            r@.no_duplicates(),
            forall|i: int| 0 <= i < r@.len() ==> self@.contains_key(r@[i]),
            forall|id: u64| self@.contains_key(id) ==> r@.contains(id),
    {
        proof {
            use_type_invariant(&*self);
        }
        let n = self.peers.len();
        let mut out: Vec<u64> = Vec::new();
        let mut i: usize = 0;
        while i < n
            invariant
                n == self.peers@.len(),
                i <= n,
                unique_peer_ids(self.peers@),
                forall|j: int| 0 <= j < i ==> out@[j] == self.peers@[j].id,
                out@.len() == i,
            decreases n - i,
        {
            out.push(self.peers[i].id);
            i = i + 1;
        }
        proof {
            lemma_peers_map_index(self.peers@, 0);
            assert forall|j: int| 0 <= j < out@.len() implies self@.contains_key(out@[j]) by {
                lemma_peers_map_index(self.peers@, out@[j]);
            }
            assert forall|id: u64| self@.contains_key(id) implies out@.contains(id) by {
                lemma_peers_map_index(self.peers@, id);
                let i0 = choose|i0: int| 0 <= i0 < self.peers@.len() && self.peers@[i0].id == id;
                assert(out@[i0] == id);
            }
        }
        out
    }
}

/// The fold of [`Transport::add_peer`] over an initial cluster map.
pub open spec fn start_spec(
    peers: Map<u64, PeerState>,
    nodes: Seq<(u64, Vec<u8>)>,
    self_id: u64,
) -> Map<u64, PeerState>
    decreases nodes.len(),
{
    if nodes.len() == 0 {
        peers
    } else {
        let prev = start_spec(peers, nodes.drop_last(), self_id);
        let (id, addr) = nodes.last();
        if id == self_id {
            prev
        } else {
            prev.insert(id, PeerState { addr: addr@, queue: Seq::empty() })
        }
    }
}

/// What the network sender reports back after attempting one transmission:
/// a failure makes the peer count as unreachable, a failed snapshot-class
/// message additionally reports the snapshot transfer as failed, and a
/// successful snapshot-class transmission reports it as finished.
pub fn transmit_outcome(peer: u64, is_snapshot: bool, ok: bool) -> (r: Vec<CoreAction>)
    ensures
        r@ == if ok {
            if is_snapshot {
                seq![
                    CoreAction::ReportSnapshot { peer, outcome: SnapshotOutcome::Finish },
                ]
            } else {
                Seq::<CoreAction>::empty()
            }
        } else {
            if is_snapshot {
                seq![
                    CoreAction::ReportSnapshot { peer, outcome: SnapshotOutcome::Failure },
                    CoreAction::ReportUnreachable { peer },
                ]
            } else {
                seq![CoreAction::ReportUnreachable { peer }]
            }
        },
{
    let mut out: Vec<CoreAction> = Vec::new();
    if ok {
        if is_snapshot {
            out.push(CoreAction::ReportSnapshot { peer, outcome: SnapshotOutcome::Finish });
            assert(out@ =~= seq![
                CoreAction::ReportSnapshot { peer, outcome: SnapshotOutcome::Finish },
            ]);
        } else {
            assert(out@ =~= Seq::<CoreAction>::empty());
        }
    } else {
        if is_snapshot {
            out.push(CoreAction::ReportSnapshot { peer, outcome: SnapshotOutcome::Failure });
            out.push(CoreAction::ReportUnreachable { peer });
            assert(out@ =~= seq![
                CoreAction::ReportSnapshot { peer, outcome: SnapshotOutcome::Failure },
                CoreAction::ReportUnreachable { peer },
            ]);
        } else {
            out.push(CoreAction::ReportUnreachable { peer });
            assert(out@ =~= seq![CoreAction::ReportUnreachable { peer }]);
        }
    }
    out
}

/// Once a peer is removed, a send for it reaches no queue: the message is
/// dropped, and the peer map is unchanged — and whatever the removed queue
/// still held is gone with the queue.
pub proof fn lemma_removed_peer_gets_nothing(peers: Map<u64, PeerState>, m: OutboundView)
    ensures
        send_spec(peers.remove(m.to), m) == (peers.remove(m.to), SendOutcome::UnknownPeer),
        !peers.remove(m.to).contains_key(m.to),
{
}

} // verus!
