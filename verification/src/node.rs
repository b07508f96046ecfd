//! The node driver: the single-threaded event loop that turns client
//! proposals and peer consensus traffic into a deterministic, replicated
//! sequence of key-value mutations.  It owns the proposal registry, the
//! transport queues, the data namespace, and the applied index; the caller
//! owns the consensus core, the durable store and the network, and drives
//! this type with events and ready batches.
//!
//! A ready batch is processed in a fixed order: [`Node::prepare_ready`]
//! hands back the durable metadata writes and nothing else; only once the
//! caller has persisted them may it call [`Node::finish_ready`], which
//! installs the snapshot, queues the outbound messages, and applies the
//! committed entries in ascending index order — and only after that may the
//! caller advance the consensus core.

use vstd::prelude::*;
use crate::applier::{apply_request, apply_request_spec};
use crate::codec::{
    decode_conf_change, decode_conf_change_spec, decode_request, decode_request_spec,
    encode_request, encode_request_spec, entry_value_spec,
};
use crate::keys::{entry_key, entry_key_spec, hard_state_key, hard_state_key_spec, is_meta_key};
use crate::kv::KvStore;
use crate::registry::{deliver, Registry};
use crate::transport::{send_all_spec, PeerState, Transport};
use crate::types::{
    conf_change_views, ConfChange, ConfChangeKind, ConfChangeView, CoreAction, LogEntry,
    LogEntryView, Msg, Ready, ReadyView, ReqView, Response, StorageWrite, StorageWriteView,
};
use vstd::slice::slice_to_vec;

verus! {

/// The mathematical value of a [`Node`]: its id, the pending request ids,
/// the peer queues, the data namespace, the membership, the applied index,
/// and the ready batch being processed, if any.
pub struct NodeState {
    pub id: u64,
    pub pending: Set<u64>,
    pub peers: Map<u64, PeerState>,
    pub kv: Map<Seq<u8>, Seq<u8>>,
    pub members: Seq<u64>,
    pub applied: u64,
    pub ready: Option<ReadyView>,
}

/// `n` with another ready batch in progress.
pub open spec fn with_ready(n: NodeState, r: Option<ReadyView>) -> NodeState {
    NodeState {
        id: n.id,
        pending: n.pending,
        peers: n.peers,
        kv: n.kv,
        members: n.members,
        applied: n.applied,
        ready: r,
    }
}

/// `ms` without every occurrence of `id`, order otherwise kept.
pub open spec fn remove_member(ms: Seq<u64>, id: u64) -> Seq<u64>
    decreases ms.len(),
{
    if ms.len() == 0 {
        Seq::empty()
    } else if ms.last() == id {
        remove_member(ms.drop_last(), id)
    } else {
        remove_member(ms.drop_last(), id).push(ms.last())
    }
}

/// What applying one committed entry does to the node.  An entry at or
/// below the applied index is skipped (each index is applied exactly once);
/// any other entry advances the applied index.  A conf-change entry updates
/// the membership and the peer set; a request entry runs the applier and
/// drops the request id from the pending set; an undecodable entry does
/// nothing further.
pub open spec fn apply_entry_spec(n: NodeState, e: LogEntryView) -> NodeState {
    if e.index <= n.applied {
        n
    } else if e.is_conf_change {
        match decode_conf_change_spec(e.data) {
            None => NodeState {
                id: n.id,
                pending: n.pending,
                peers: n.peers,
                kv: n.kv,
                members: n.members,
                applied: e.index,
                ready: n.ready,
            },
            Some(cc) => if cc.kind == ConfChangeKind::RemoveNode {
                NodeState {
                    id: n.id,
                    pending: n.pending,
                    peers: n.peers.remove(cc.node_id),
                    kv: n.kv,
                    members: remove_member(n.members, cc.node_id),
                    applied: e.index,
                    ready: n.ready,
                }
            } else {
                NodeState {
                    id: n.id,
                    pending: n.pending,
                    peers: if cc.node_id == n.id {
                        n.peers
                    } else {
                        n.peers.insert(
                            cc.node_id,
                            PeerState { addr: cc.context, queue: Seq::empty() },
                        )
                    },
                    kv: n.kv,
                    members: if n.members.contains(cc.node_id) {
                        n.members
                    } else {
                        n.members.push(cc.node_id)
                    },
                    applied: e.index,
                    ready: n.ready,
                }
            },
        }
    } else {
        match decode_request_spec(e.data) {
            None => NodeState {
                id: n.id,
                pending: n.pending,
                peers: n.peers,
                kv: n.kv,
                members: n.members,
                applied: e.index,
                ready: n.ready,
            },
            Some(req) => NodeState {
                id: n.id,
                pending: n.pending.remove(req.id),
                peers: n.peers,
                kv: apply_request_spec(n.kv, n.members, req).0,
                members: n.members,
                applied: e.index,
                ready: n.ready,
            },
        }
    }
}

/// The node after applying a batch of committed entries, in order.
pub open spec fn apply_entries_spec(n: NodeState, es: Seq<LogEntryView>) -> NodeState
    decreases es.len(),
{
    if es.len() == 0 {
        n
    } else {
        apply_entry_spec(apply_entries_spec(n, es.drop_last()), es.last())
    }
}

/// The durable writes a ready batch demands before anything else may
/// happen: one per new log entry, keyed by its index, plus the hard-state
/// update when there is one.  All of them live in the metadata namespace.
pub open spec fn persist_writes_spec(r: ReadyView) -> Seq<StorageWriteView> {
    r.entries.map_values(
        |e: LogEntryView| StorageWriteView { key: entry_key_spec(e.index), value: entry_value_spec(e) },
    ) + match r.hard_state {
        Some(hs) => seq![StorageWriteView { key: hard_state_key_spec(), value: hs }],
        None => Seq::empty(),
    }
}

/// The persistence phase never touches the data namespace: every write it
/// asks for carries a metadata key.
pub proof fn lemma_persist_writes_stay_in_meta(r: ReadyView)
    ensures
        forall|i: int|
            0 <= i < persist_writes_spec(r).len() ==> is_meta_key(persist_writes_spec(r)[i].key),
{
    vstd::bytes::lemma_auto_spec_u64_to_from_le_bytes();
}

/// What finishing a ready batch does, in the fixed order: install the
/// snapshot (replacing the data namespace and the applied index), queue
/// every outbound message, then apply every committed entry in order.  The
/// second result lists the peers whose full queues rejected a message, for
/// the caller to report unreachable.
pub open spec fn finish_spec(n: NodeState) -> (NodeState, Seq<u64>)
    recommends
        n.ready is Some,
{
    let r = n.ready->Some_0;
    let after_snapshot = match r.snapshot {
        None => with_ready(n, None),
        Some(s) => NodeState {
            id: n.id,
            pending: n.pending,
            peers: n.peers,
            kv: s.contents,
            members: n.members,
            applied: s.index,
            ready: None,
        },
    };
    let sent = send_all_spec(after_snapshot.peers, r.messages);
    let after_send = NodeState {
        id: after_snapshot.id,
        pending: after_snapshot.pending,
        peers: sent.0,
        kv: after_snapshot.kv,
        members: after_snapshot.members,
        applied: after_snapshot.applied,
        ready: None,
    };
    (apply_entries_spec(after_send, r.committed), sent.1)
}

/// The membership changes a batch of committed entries carries, in order.
pub open spec fn conf_changes_spec(es: Seq<LogEntryView>) -> Seq<ConfChangeView>
    decreases es.len(),
{
    if es.len() == 0 {
        Seq::empty()
    } else {
        let prev = conf_changes_spec(es.drop_last());
        let e = es.last();
        if e.is_conf_change {
            match decode_conf_change_spec(e.data) {
                Some(cc) => prev.push(cc),
                None => prev,
            }
        } else {
            prev
        }
    }
}

/// A committed entry that carries the wire form of a proposed request
/// resolves exactly that proposal: once the entry applies, the request's id
/// is no longer pending, its operation has run against the data namespace,
/// and — the pending set having lost the id — no later entry can fire its
/// completion again.
pub proof fn lemma_commit_resolves_proposal(n: NodeState, req: ReqView, e: LogEntryView)
    requires
        crate::codec::req_fits(req),
        e.data == encode_request_spec(req),
        !e.is_conf_change,
        e.index > n.applied,
    ensures
        apply_entry_spec(n, e).pending == n.pending.remove(req.id),
        apply_entry_spec(n, e).kv == apply_request_spec(n.kv, n.members, req).0,
        !apply_entry_spec(n, e).pending.contains(req.id),
{
    crate::codec::lemma_request_round_trip(req);
}

/// The applied index never moves backwards: a committed batch leaves it at
/// or above where it was, every entry at or below it being skipped — so each
/// index is executed at most once, in ascending order.
pub proof fn lemma_applied_index_monotone(n: NodeState, es: Seq<LogEntryView>)
    ensures
        apply_entries_spec(n, es).applied >= n.applied,
    decreases es.len(),
{
    if es.len() > 0 {
        lemma_applied_index_monotone(n, es.drop_last());
    }
}

/// The node driver's state: everything the event loop owns.
pub struct Node {
    registry: Registry,
    transport: Transport,
    kv: KvStore,
    members: Vec<u64>,
    applied_index: u64,
    pending_ready: Option<Ready>,
}

impl View for Node {
    type V = NodeState;

    closed spec fn view(&self) -> NodeState {
        NodeState {
            id: self.transport.node_id(),
            pending: self.registry@,
            peers: self.transport@,
            kv: self.kv@,
            members: self.members@,
            applied: self.applied_index,
            ready: match self.pending_ready {
                Some(r) => Some(r@),
                None => None,
            },
        }
    }
}

/// Whether `ms` holds `id`.
fn contains_member(ms: &Vec<u64>, id: u64) -> (r: bool)
    ensures
        r == ms@.contains(id),
{
    let n = ms.len();
    let mut i: usize = 0;
    while i < n
        invariant
            n == ms@.len(),
            i <= n,
            forall|j: int| 0 <= j < i ==> ms@[j] != id,
        decreases n - i,
    {
        if ms[i] == id {
            assert(ms@[i as int] == id);
            return true;
        }
        i = i + 1;
    }
    false
}

/// `ms` without every occurrence of `id`.
fn remove_member_exec(ms: &Vec<u64>, id: u64) -> (r: Vec<u64>)
    ensures
        r@ == remove_member(ms@, id),
{
    let n = ms.len();
    let mut out: Vec<u64> = Vec::new();
    let mut i: usize = 0;
    while i < n
        invariant
            n == ms@.len(),
            i <= n,
            out@ == remove_member(ms@.take(i as int), id),
        decreases n - i,
    {
        if ms[i] != id {
            out.push(ms[i]);
        }
        proof {
            assert(ms@.take(i + 1).drop_last() =~= ms@.take(i as int));
            assert(ms@.take(i + 1).last() == ms@[i as int]);
        }
        i = i + 1;
    }
    proof {
        assert(ms@.take(n as int) =~= ms@);
    }
    out
}

impl Node {
    /// A fresh node with no peers, no members, nothing pending, an empty
    /// data namespace, and nothing applied.
    pub fn new(id: u64) -> (r: Self)
        ensures
            r@ == (NodeState {
                id,
                pending: Set::<u64>::empty(),
                peers: Map::<u64, PeerState>::empty(),
                kv: Map::<Seq<u8>, Seq<u8>>::empty(),
                members: Seq::<u64>::empty(),
                applied: 0,
                ready: None,
            }),
    {
        Node {
            registry: Registry::new(),
            transport: Transport::new(id),
            kv: KvStore::new(),
            members: Vec::new(),
            applied_index: 0,
            pending_ready: None,
        }
    }

    /// Record the initial cluster membership, as given on the command line.
    pub fn init_cluster(&mut self, members: &Vec<u64>)
        ensures
            final(self)@ == (NodeState {
                members: members@,
                ..old(self)@
            }),
    {
        self.members = slice_to_vec(members.as_slice());
    }

    /// Make every node of the initial cluster map a known peer, except this
    /// node itself.
    pub fn start(&mut self, nodes: &Vec<(u64, Vec<u8>)>)
        ensures
            final(self)@ == (NodeState {
                peers: crate::transport::start_spec(old(self)@.peers, nodes@, old(self)@.id),
                ..old(self)@
            }),
    {
        self.transport.start(nodes);
    }

    /// The non-replicated local-read bypass: read straight from this
    /// replica's data namespace.  It sees only what is already applied
    /// here, so it may observe a value strictly older than what a
    /// concurrently committing read through the log returns.
    pub fn local_get(&self, key: &[u8]) -> (r: Option<Vec<u8>>)
        ensures
            match r {
                Some(v) => self@.kv.contains_key(key@) && v@ == self@.kv[key@],
                None => !self@.kv.contains_key(key@),
            },
    {
        self.kv.get(key)
    }

    /// Take the oldest queued outbound message for a peer; the network
    /// sender owns the actual transmission.
    pub fn drain(&mut self, peer: u64) -> (r: Option<crate::transport::QueuedMessage>)
        ensures
            match r {
                Some(msg) => {
                    &&& old(self)@.peers.contains_key(peer)
                    &&& old(self)@.peers[peer].queue.len() > 0
                    &&& (msg.data@, msg.is_snapshot) == old(self)@.peers[peer].queue[0]
                    &&& final(self)@ == (NodeState {
                        peers: old(self)@.peers.insert(
                            peer,
                            PeerState {
                                addr: old(self)@.peers[peer].addr,
                                queue: old(self)@.peers[peer].queue.subrange(
                                    1,
                                    old(self)@.peers[peer].queue.len() as int,
                                ),
                            },
                        ),
                        ..old(self)@
                    })
                },
                None => final(self)@ == old(self)@ && (!old(self)@.peers.contains_key(peer)
                    || old(self)@.peers[peer].queue.len() == 0),
            },
    {
        self.transport.drain(peer)
    }

    /// The address a peer was made known under, if it still is known.
    pub fn peer_addr(&self, id: u64) -> (r: Option<Vec<u8>>)
        ensures
            match r {
                Some(a) => self@.peers.contains_key(id) && a@ == self@.peers[id].addr,
                None => !self@.peers.contains_key(id),
            },
    {
        self.transport.peer_addr(id)
    }

    /// The ids of the currently known peers, for the network sender to
    /// poll.
    pub fn peer_ids(&self) -> (r: Vec<u64>)
        ensures
            r@.no_duplicates(),
            forall|i: int| 0 <= i < r@.len() ==> self@.peers.contains_key(r@[i]),
            forall|id: u64| self@.peers.contains_key(id) ==> r@.contains(id),
    {
        self.transport.peer_ids()
    }

    /// Handle one driver event, returning what the caller must ask of the
    /// consensus core.  A proposal is registered and serialized; a proposal
    /// whose id collides with one already in flight is answered `ok: false`
    /// at once and not proposed.  Everything else is forwarded verbatim.
    pub fn handle_msg(&mut self, m: Msg) -> (r: Vec<CoreAction>)
        ensures
            match m {
                Msg::Propose { request, completion: _ } => if old(self)@.pending.contains(
                    request.id,
                ) {
                    final(self)@ == old(self)@ && r@.len() == 0
                } else {
                    &&& final(self)@ == (NodeState {
                        pending: old(self)@.pending.insert(request.id),
                        ..old(self)@
                    })
                    &&& r@.len() == 1
                    &&& match r@[0] {
                        CoreAction::Propose { id, data } => id == request.id && data@
                            == encode_request_spec(request@),
                        _ => false,
                    }
                },
                Msg::Raft { data } => final(self)@ == old(self)@ && r@.len() == 1 && match r@[0] {
                    CoreAction::Step { data: d } => d@ == data@,
                    _ => false,
                },
                Msg::ProposeConfChange { change } => final(self)@ == old(self)@ && r@.len() == 1
                    && match r@[0] {
                    CoreAction::ProposeConfChange { change: c } => c@ == change@,
                    _ => false,
                },
                Msg::ReportSnapshot { peer, outcome } => final(self)@ == old(self)@ && r@ == seq![
                    CoreAction::ReportSnapshot { peer, outcome },
                ],
                Msg::ReportUnreachable { peer } => final(self)@ == old(self)@ && r@ == seq![
                    CoreAction::ReportUnreachable { peer },
                ],
                Msg::Tick => final(self)@ == old(self)@ && r@ == seq![CoreAction::Tick],
            },
    {
        match m {
            Msg::Propose { request, completion } => {
                if self.registry.contains(request.id) {
                    deliver(&completion, Response { ok: false, value: None });
                    Vec::new()
                } else {
                    let data = encode_request(&request);
                    let rid = request.id;
                    let _registered = self.registry.register(rid, completion);
                    let mut out: Vec<CoreAction> = Vec::new();
                    out.push(CoreAction::Propose { id: rid, data });
                    out
                }
            },
            Msg::Raft { data } => {
                let mut out: Vec<CoreAction> = Vec::new();
                out.push(CoreAction::Step { data });
                out
            },
            Msg::ProposeConfChange { change } => {
                let mut out: Vec<CoreAction> = Vec::new();
                out.push(CoreAction::ProposeConfChange { change });
                out
            },
            Msg::ReportSnapshot { peer, outcome } => {
                let mut out: Vec<CoreAction> = Vec::new();
                out.push(CoreAction::ReportSnapshot { peer, outcome });
                proof {
                    assert(out@ =~= seq![CoreAction::ReportSnapshot { peer, outcome }]);
                }
                out
            },
            Msg::ReportUnreachable { peer } => {
                let mut out: Vec<CoreAction> = Vec::new();
                out.push(CoreAction::ReportUnreachable { peer });
                proof {
                    assert(out@ =~= seq![CoreAction::ReportUnreachable { peer }]);
                }
                out
            },
            Msg::Tick => {
                let mut out: Vec<CoreAction> = Vec::new();
                out.push(CoreAction::Tick);
                proof {
                    assert(out@ =~= seq![CoreAction::Tick]);
                }
                out
            },
        }
    }

    /// The consensus core rejected a proposal at submission (not leader, or
    /// its buffer is full): answer the submitter `ok: false` right away and
    /// drop the registry entry, so the caller never waits for a commit that
    /// will not happen.  Nothing else — not the data namespace, not the
    /// applied index — changes.
    pub fn propose_rejected(&mut self, id: u64) -> (fired: bool)
        ensures
            fired == old(self)@.pending.contains(id),
            final(self)@ == (NodeState { pending: old(self)@.pending.remove(id), ..old(self)@ }),
    {
        self.registry.resolve(id, Response { ok: false, value: None })
    }

    /// The membership changes a ready batch's committed entries carry, in
    /// order.  The caller hands each to the consensus core's own
    /// `apply_conf_change` alongside finishing the batch.
    pub fn committed_conf_changes(ready: &Ready) -> (r: Vec<ConfChange>)
        ensures
            conf_change_views(r@) == conf_changes_spec(ready@.committed),
    {
        let mut out: Vec<ConfChange> = Vec::new();
        let n = ready.committed.len();
        let mut i: usize = 0;
        while i < n
            invariant
                n == ready.committed@.len(),
                i <= n,
                conf_change_views(out@) == conf_changes_spec(ready@.committed.take(i as int)),
            decreases n - i,
        {
            let e = &ready.committed[i];
            let ghost before = conf_change_views(out@);
            if e.is_conf_change {
                match decode_conf_change(&e.data) {
                    Some(cc) => {
                        let ghost ccv = cc@;
                        out.push(cc);
                        proof {
                            assert(conf_change_views(out@) =~= before.push(ccv));
                        }
                    },
                    None => {},
                }
            }
            proof {
                assert(ready@.committed.take(i + 1).drop_last() =~= ready@.committed.take(
                    i as int,
                ));
                assert(ready@.committed.take(i + 1).last() == ready@.committed[i as int]);
            }
            i = i + 1;
        }
        proof {
            assert(ready@.committed.take(n as int) =~= ready@.committed);
        }
        out
    }

    /// Accept one ready batch from the consensus core and hand back the
    /// durable metadata writes it demands.  Nothing is sent and nothing is
    /// applied yet: the caller must persist the writes first and then call
    /// [`Node::finish_ready`].
    pub fn prepare_ready(&mut self, ready: Ready) -> (writes: Vec<StorageWrite>)
        requires
            old(self)@.ready is None,
        ensures
            final(self)@ == with_ready(old(self)@, Some(ready@)),
            writes@.map_values(|w: StorageWrite| w@) == persist_writes_spec(ready@),
    {
        let mut writes: Vec<StorageWrite> = Vec::new();
        let n = ready.entries.len();
        let mut i: usize = 0;
        while i < n
            invariant
                n == ready.entries@.len(),
                i <= n,
                writes@.len() == i,
                forall|j: int|
                    0 <= j < i ==> writes@[j]@ == (StorageWriteView {
                        key: entry_key_spec(ready@.entries[j].index),
                        value: entry_value_spec(ready@.entries[j]),
                    }),
            decreases n - i,
        {
            let e = &ready.entries[i];
            let key = entry_key(e.index);
            let mut value: Vec<u8> = Vec::new();
            value.push(if e.is_conf_change { 1 } else { 0 });
            let mut data = slice_to_vec(e.data.as_slice());
            value.append(&mut data);
            let w = StorageWrite { key, value };
            proof {
                assert(w@.value =~= entry_value_spec(ready@.entries[i as int]));
            }
            writes.push(w);
            i = i + 1;
        }
        match &ready.hard_state {
            Some(hs) => {
                let w = StorageWrite { key: hard_state_key(), value: slice_to_vec(hs.as_slice()) };
                writes.push(w);
                proof {
                    assert(writes@.map_values(|w: StorageWrite| w@) =~= persist_writes_spec(
                        ready@,
                    ));
                }
            },
            None => {
                proof {
                    assert(writes@.map_values(|w: StorageWrite| w@) =~= persist_writes_spec(
                        ready@,
                    ));
                }
            },
        }
        self.pending_ready = Some(ready);
        writes
    }

    /// Apply one committed entry.
    fn apply_one(&mut self, e: &LogEntry)
        ensures
            final(self)@ == apply_entry_spec(old(self)@, e@),
    {
        if e.index <= self.applied_index {
            return;
        }
        self.applied_index = e.index;
        if e.is_conf_change {
            match decode_conf_change(&e.data) {
                None => {},
                Some(cc) => {
                    if let ConfChangeKind::RemoveNode = cc.kind {
                        self.members = remove_member_exec(&self.members, cc.node_id);
                        self.transport.remove_peer(cc.node_id);
                    } else {
                        if !contains_member(&self.members, cc.node_id) {
                            self.members.push(cc.node_id);
                        }
                        self.transport.add_peer(cc.node_id, cc.context);
                    }
                },
            }
        } else {
            match decode_request(&e.data) {
                None => {},
                Some(req) => {
                    let rid = req.id;
                    let resp = apply_request(&mut self.kv, &self.members, req);
                    self.registry.resolve(rid, resp);
                },
            }
        }
    }

    /// Finish the ready batch accepted by [`Node::prepare_ready`].  The
    /// caller promises the returned writes are durable; this then installs
    /// the snapshot if one came, queues every outbound message, and applies
    /// every committed entry in ascending index order, resolving the
    /// proposals they answer.  Returns the peers whose full queues rejected
    /// a message, for the caller to report unreachable.
    pub fn finish_ready(&mut self) -> (rejected: Vec<u64>)
        requires
            old(self)@.ready is Some,
        ensures
            final(self)@ == finish_spec(old(self)@).0,
            rejected@ == finish_spec(old(self)@).1,
    {
        let taken = self.pending_ready.take();
        match taken {
            None => {
                proof {
                    assert(false);
                }
                Vec::new()
            },
            Some(ready) => {
                match &ready.snapshot {
                    Some(snap) => {
                        self.kv.install(&snap.pairs);
                        self.applied_index = snap.index;
                    },
                    None => {},
                }
                let rejected = self.transport.send_batch(&ready.messages);
                let ghost base = self@;
                let n = ready.committed.len();
                let mut i: usize = 0;
                while i < n
                    invariant
                        n == ready.committed@.len(),
                        i <= n,
                        self@ == apply_entries_spec(base, ready@.committed.take(i as int)),
                    decreases n - i,
                {
                    self.apply_one(&ready.committed[i]);
                    proof {
                        assert(ready@.committed.take(i + 1).drop_last() =~= ready@.committed.take(
                            i as int,
                        ));
                        assert(ready@.committed.take(i + 1).last() == ready@.committed[i as int]);
                    }
                    i = i + 1;
                }
                proof {
                    assert(ready@.committed.take(n as int) =~= ready@.committed);
                }
                rejected
            },
        }
    }
}

} // verus!
