//! The data model: client requests and responses, membership changes, and the
//! events and actions that flow between the node driver and its collaborators.

use vstd::prelude::*;
use crate::kv::pairs_map;

verus! {

/// The operation a client request asks for.
#[derive(Clone, Copy, PartialEq, Eq, Structural, Debug)]
pub enum Op {
    /// Read one key from the replicated data namespace.
    Get,
    /// Upsert one key in the replicated data namespace.
    Put,
    /// Remove one key from the replicated data namespace.
    Delete,
    /// Report the cluster membership.
    Status,
}

/// A client request, as carried through the consensus log.
///
/// The id is chosen by the submitter and must be unique among the requests
/// currently in flight at this node; it is not persisted and not global.
pub struct Request {
    pub id: u64,
    pub op: Op,
    pub key: Vec<u8>,
    pub value: Option<Vec<u8>>,
}

/// The mathematical value of a [`Request`].
pub struct ReqView {
    pub id: u64,
    pub op: Op,
    pub key: Seq<u8>,
    pub value: Option<Seq<u8>>,
}

impl View for Request {
    type V = ReqView;

    open spec fn view(&self) -> ReqView {
        ReqView {
            id: self.id,
            op: self.op,
            key: self.key@,
            value: match self.value {
                Some(v) => Some(v@),
                None => None,
            },
        }
    }
}

/// The answer produced for one committed request.
pub struct Response {
    pub ok: bool,
    pub value: Option<Vec<u8>>,
}

/// The mathematical value of a [`Response`].
pub struct RespView {
    pub ok: bool,
    pub value: Option<Seq<u8>>,
}

impl View for Response {
    type V = RespView;

    open spec fn view(&self) -> RespView {
        RespView {
            ok: self.ok,
            value: match self.value {
                Some(v) => Some(v@),
                None => None,
            },
        }
    }
}

/// The kind of a cluster membership change.
#[derive(Clone, Copy, PartialEq, Eq, Structural, Debug)]
pub enum ConfChangeKind {
    AddNode,
    RemoveNode,
    AddLearnerNode,
}

/// A membership change carried through the consensus log.  The context bytes
/// hold the address of the node being added.
pub struct ConfChange {
    pub kind: ConfChangeKind,
    pub node_id: u64,
    pub context: Vec<u8>,
}

/// The mathematical value of a [`ConfChange`].
pub struct ConfChangeView {
    pub kind: ConfChangeKind,
    pub node_id: u64,
    pub context: Seq<u8>,
}

impl View for ConfChange {
    type V = ConfChangeView;

    open spec fn view(&self) -> ConfChangeView {
        ConfChangeView { kind: self.kind, node_id: self.node_id, context: self.context@ }
    }
}

/// The outcome of one snapshot transfer to a peer, reported back into the
/// consensus core.
#[derive(Clone, Copy, PartialEq, Eq, Structural, Debug)]
pub enum SnapshotOutcome {
    Finish,
    Failure,
}

/// One log entry handed over by the consensus core, either to persist or to
/// apply.  A conf-change entry carries an encoded [`ConfChange`]; any other
/// non-empty entry carries an encoded [`Request`].
pub struct LogEntry {
    pub index: u64,
    pub is_conf_change: bool,
    pub data: Vec<u8>,
}

/// The mathematical value of a [`LogEntry`].
pub struct LogEntryView {
    pub index: u64,
    pub is_conf_change: bool,
    pub data: Seq<u8>,
}

impl View for LogEntry {
    type V = LogEntryView;

    open spec fn view(&self) -> LogEntryView {
        LogEntryView { index: self.index, is_conf_change: self.is_conf_change, data: self.data@ }
    }
}

/// One consensus message the core asks the node to transmit.
pub struct Outbound {
    pub to: u64,
    pub is_snapshot: bool,
    pub data: Vec<u8>,
}

/// The mathematical value of an [`Outbound`].
pub struct OutboundView {
    pub to: u64,
    pub is_snapshot: bool,
    pub data: Seq<u8>,
}

impl View for Outbound {
    type V = OutboundView;

    open spec fn view(&self) -> OutboundView {
        OutboundView { to: self.to, is_snapshot: self.is_snapshot, data: self.data@ }
    }
}

/// A snapshot of the whole data namespace, installed in place of replaying
/// the log up to `index`.
pub struct SnapshotData {
    pub index: u64,
    pub pairs: Vec<(Vec<u8>, Vec<u8>)>,
}

/// One batch of work produced by the consensus core: entries to persist, an
/// optional hard-state update, an optional snapshot to install, committed
/// entries to apply, and messages to send.
pub struct Ready {
    pub entries: Vec<LogEntry>,
    pub hard_state: Option<Vec<u8>>,
    pub snapshot: Option<SnapshotData>,
    pub committed: Vec<LogEntry>,
    pub messages: Vec<Outbound>,
}

/// The views of a vector of log entries.
pub open spec fn entry_views(s: Seq<LogEntry>) -> Seq<LogEntryView> {
    s.map_values(|e: LogEntry| e@)
}

/// The views of a vector of outbound messages.
pub open spec fn outbound_views(s: Seq<Outbound>) -> Seq<OutboundView> {
    s.map_values(|m: Outbound| m@)
}

/// The views of a vector of membership changes.
pub open spec fn conf_change_views(s: Seq<ConfChange>) -> Seq<ConfChangeView> {
    s.map_values(|c: ConfChange| c@)
}

/// The mathematical value of a [`SnapshotData`]: the snapshot index and the
/// map the pairs denote (a later pair for the same key wins).
pub struct SnapshotView {
    pub index: u64,
    pub contents: Map<Seq<u8>, Seq<u8>>,
}

impl View for SnapshotData {
    type V = SnapshotView;

    open spec fn view(&self) -> SnapshotView {
        SnapshotView { index: self.index, contents: pairs_map(self.pairs@) }
    }
}

/// The mathematical value of a [`Ready`].
pub struct ReadyView {
    pub entries: Seq<LogEntryView>,
    pub hard_state: Option<Seq<u8>>,
    pub snapshot: Option<SnapshotView>,
    pub committed: Seq<LogEntryView>,
    pub messages: Seq<OutboundView>,
}

impl View for Ready {
    type V = ReadyView;

    open spec fn view(&self) -> ReadyView {
        ReadyView {
            entries: entry_views(self.entries@),
            hard_state: match self.hard_state {
                Some(hs) => Some(hs@),
                None => None,
            },
            snapshot: match self.snapshot {
                Some(s) => Some(s@),
                None => None,
            },
            committed: entry_views(self.committed@),
            messages: outbound_views(self.messages@),
        }
    }
}

/// One event in the node driver's mailbox.  The gateway, the peer service,
/// the network senders, and the timer all speak to the driver through these.
pub enum Msg {
    /// A client request to replicate, with the one-shot completion handle
    /// its response is delivered through.
    Propose { request: Request, completion: crossbeam_channel::Sender<Response> },
    /// A verbatim consensus message from a peer.
    Raft { data: Vec<u8> },
    /// A membership change to replicate.
    ProposeConfChange { change: ConfChange },
    /// The outcome of a snapshot transfer to a peer.
    ReportSnapshot { peer: u64, outcome: SnapshotOutcome },
    /// A peer that could not be reached.
    ReportUnreachable { peer: u64 },
    /// The fixed-period timer fired.
    Tick,
}

/// One durable write the caller must make to the store before the matching
/// ready batch may proceed.
pub struct StorageWrite {
    pub key: Vec<u8>,
    pub value: Vec<u8>,
}

/// The mathematical value of a [`StorageWrite`].
pub struct StorageWriteView {
    pub key: Seq<u8>,
    pub value: Seq<u8>,
}

impl View for StorageWrite {
    type V = StorageWriteView;

    open spec fn view(&self) -> StorageWriteView {
        StorageWriteView { key: self.key@, value: self.value@ }
    }
}

/// What the node driver asks the consensus core to do in response to one
/// driver event.  The caller owns the core and performs these in order.
pub enum CoreAction {
    /// Call `propose` with these serialized request bytes.
    Propose { id: u64, data: Vec<u8> },
    /// Call `step` with this verbatim peer message.
    Step { data: Vec<u8> },
    /// Call `propose_conf_change` with this membership change.
    ProposeConfChange { change: ConfChange },
    /// Call `report_snapshot` for this peer.
    ReportSnapshot { peer: u64, outcome: SnapshotOutcome },
    /// Call `report_unreachable` for this peer.
    ReportUnreachable { peer: u64 },
    /// Call `tick` to drive election and heartbeat timers.
    Tick,
}

} // verus!
