//! The byte codec for everything this node puts into the consensus log or the
//! store: client requests, membership changes, persisted log entries, and the
//! membership list returned by a `Status` request.  Encoding and decoding are
//! exact inverses, which is what lets every replica decode a committed entry
//! to the same request.

use vstd::prelude::*;
use vstd::bytes::{
    lemma_auto_spec_u64_to_from_le_bytes, spec_u64_from_le_bytes, spec_u64_to_le_bytes,
    u64_from_le_bytes, u64_to_le_bytes,
};
use vstd::slice::{slice_subrange, slice_to_vec};
use crate::types::{ConfChange, ConfChangeKind, ConfChangeView, LogEntryView, Op, ReqView, Request};

verus! {

/// The operation code for each request kind on the wire.
pub open spec fn op_code_spec(op: Op) -> u8 {
    match op {
        Op::Get => 1,
        Op::Put => 2,
        Op::Delete => 3,
        Op::Status => 128,
    }
}

/// The inverse of [`op_code_spec`].
pub open spec fn decode_op_spec(b: u8) -> Option<Op> {
    if b == 1 {
        Some(Op::Get)
    } else if b == 2 {
        Some(Op::Put)
    } else if b == 3 {
        Some(Op::Delete)
    } else if b == 128 {
        Some(Op::Status)
    } else {
        None
    }
}

/// The code for each membership-change kind on the wire.
pub open spec fn conf_kind_code_spec(k: ConfChangeKind) -> u8 {
    match k {
        ConfChangeKind::AddNode => 0,
        ConfChangeKind::RemoveNode => 1,
        ConfChangeKind::AddLearnerNode => 2,
    }
}

/// The inverse of [`conf_kind_code_spec`].
pub open spec fn decode_conf_kind_spec(b: u8) -> Option<ConfChangeKind> {
    if b == 0 {
        Some(ConfChangeKind::AddNode)
    } else if b == 1 {
        Some(ConfChangeKind::RemoveNode)
    } else if b == 2 {
        Some(ConfChangeKind::AddLearnerNode)
    } else {
        None
    }
}

/// A request whose lengths fit the wire format's length fields.  Every
/// request built from in-memory vectors satisfies this.
pub open spec fn req_fits(r: ReqView) -> bool {
    &&& r.key.len() <= u64::MAX
    &&& match r.value {
        Some(v) => v.len() <= u64::MAX,
        None => true,
    }
}

/// The wire form of a request: an operation code, the request id, the
/// length-prefixed key, and the optionally present length-prefixed value.
pub open spec fn encode_request_spec(r: ReqView) -> Seq<u8> {
    seq![op_code_spec(r.op)] + spec_u64_to_le_bytes(r.id) + spec_u64_to_le_bytes(
        r.key.len() as u64,
    ) + r.key + (match r.value {
        Some(v) => seq![1u8] + spec_u64_to_le_bytes(v.len() as u64) + v,
        None => seq![0u8],
    })
}

/// The exact inverse of [`encode_request_spec`]: `Some` on precisely the byte
/// strings that some request encodes to, and then that request.
pub open spec fn decode_request_spec(b: Seq<u8>) -> Option<ReqView> {
    if b.len() < 18 {
        None
    } else {
        let op = decode_op_spec(b[0]);
        let id = spec_u64_from_le_bytes(b.subrange(1, 9));
        let klen = spec_u64_from_le_bytes(b.subrange(9, 17));
        if op is None || klen > b.len() - 18 {
            None
        } else {
            let key = b.subrange(17, 17 + klen as int);
            let rest = b.subrange(17 + klen as int, b.len() as int);
            if rest[0] == 0 {
                if rest.len() == 1 {
                    Some(ReqView { id, op: op->Some_0, key, value: None })
                } else {
                    None
                }
            } else if rest[0] == 1 {
                if rest.len() < 9 {
                    None
                } else {
                    let vlen = spec_u64_from_le_bytes(rest.subrange(1, 9));
                    if vlen == rest.len() - 9 {
                        Some(
                            ReqView {
                                id,
                                op: op->Some_0,
                                key,
                                value: Some(rest.subrange(9, rest.len() as int)),
                            },
                        )
                    } else {
                        None
                    }
                }
            } else {
                None
            }
        }
    }
}

/// Decoding undoes encoding: every request that fits the format comes back
/// unchanged from its own wire form.
pub proof fn lemma_request_round_trip(r: ReqView)
    requires
        req_fits(r),
    ensures
        decode_request_spec(encode_request_spec(r)) == Some(r),
{
    lemma_auto_spec_u64_to_from_le_bytes();
    let b = encode_request_spec(r);
    let klen = r.key.len() as int;
    assert(b.subrange(1, 9) =~= spec_u64_to_le_bytes(r.id));
    assert(b.subrange(9, 17) =~= spec_u64_to_le_bytes(r.key.len() as u64));
    assert(b.subrange(17, 17 + klen) =~= r.key);
    match r.value {
        Some(v) => {
            let rest = b.subrange(17 + klen, b.len() as int);
            assert(rest =~= seq![1u8] + spec_u64_to_le_bytes(v.len() as u64) + v);
            assert(rest.subrange(1, 9) =~= spec_u64_to_le_bytes(v.len() as u64));
            assert(rest.subrange(9, rest.len() as int) =~= v);
        },
        None => {
            let rest = b.subrange(17 + klen, b.len() as int);
            assert(rest =~= seq![0u8]);
        },
    }
}

/// Read the little-endian `u64` stored at `off`.
fn read_u64_at(b: &[u8], off: usize) -> (x: u64)
    requires
        off + 8 <= b@.len(),
    ensures
        x == spec_u64_from_le_bytes(b@.subrange(off as int, off as int + 8)),
{
    let total: usize = b.len();
    proof {
        assert(off + 8 <= total);
    }
    u64_from_le_bytes(slice_subrange(b, off, off + 8))
}

/// Serialize a request for the consensus log.
pub fn encode_request(r: &Request) -> (out: Vec<u8>)
    ensures
        out@ == encode_request_spec(r@),
{
    let mut out: Vec<u8> = Vec::new();
    let code: u8 = match r.op {
        Op::Get => 1,
        Op::Put => 2,
        Op::Delete => 3,
        Op::Status => 128,
    };
    out.push(code);
    let mut idb = u64_to_le_bytes(r.id);
    out.append(&mut idb);
    let mut klb = u64_to_le_bytes(r.key.len() as u64);
    out.append(&mut klb);
    let mut key = slice_to_vec(r.key.as_slice());
    out.append(&mut key);
    match &r.value {
        Some(v) => {
            out.push(1);
            let mut vlb = u64_to_le_bytes(v.len() as u64);
            out.append(&mut vlb);
            let mut val = slice_to_vec(v.as_slice());
            out.append(&mut val);
        },
        None => {
            out.push(0);
        },
    }
    assert(out@ =~= encode_request_spec(r@));
    out
}

/// Parse a committed log entry back into a request.  Returns `None` on
/// exactly the byte strings no request encodes to.
pub fn decode_request(b: &Vec<u8>) -> (r: Option<Request>)
    ensures
        match r {
            Some(req) => decode_request_spec(b@) == Some(req@),
            None => decode_request_spec(b@) is None,
        },
{
    let n = b.len();
    if n < 18 {
        return None;
    }
    let s = b.as_slice();
    let code = s[0];
    let op = if code == 1 {
        Op::Get
    } else if code == 2 {
        Op::Put
    } else if code == 3 {
        Op::Delete
    } else if code == 128 {
        Op::Status
    } else {
        return None;
    };
    let id = read_u64_at(s, 1);
    let klen = read_u64_at(s, 9);
    if klen > (n - 18) as u64 {
        return None;
    }
    let klen = klen as usize;
    let key = slice_to_vec(slice_subrange(s, 17, 17 + klen));
    assert(key@ =~= b@.subrange(17, 17 + klen as int));
    let rest_off = 17 + klen;
    let ghost rest = b@.subrange(rest_off as int, n as int);
    let tag = s[rest_off];
    assert(tag == rest[0]);
    if tag == 0 {
        if n == rest_off + 1 {
            return Some(Request { id, op, key, value: None });
        }
        return None;
    }
    if tag != 1 {
        return None;
    }
    if n - rest_off < 9 {
        return None;
    }
    let vlen = read_u64_at(s, rest_off + 1);
    assert(b@.subrange(rest_off + 1, rest_off + 9) =~= rest.subrange(1, 9));
    if vlen != (n - rest_off - 9) as u64 {
        return None;
    }
    let val = slice_to_vec(slice_subrange(s, rest_off + 9, n));
    assert(val@ =~= rest.subrange(9, rest.len() as int));
    Some(Request { id, op, key, value: Some(val) })
}

/// The wire form of a membership change: the change kind, the node id, and
/// the context bytes (the address of an added node).
pub open spec fn encode_conf_change_spec(c: ConfChangeView) -> Seq<u8> {
    seq![conf_kind_code_spec(c.kind)] + spec_u64_to_le_bytes(c.node_id) + c.context
}

/// The exact inverse of [`encode_conf_change_spec`].
pub open spec fn decode_conf_change_spec(b: Seq<u8>) -> Option<ConfChangeView> {
    if b.len() < 9 {
        None
    } else {
        match decode_conf_kind_spec(b[0]) {
            None => None,
            Some(kind) => Some(
                ConfChangeView {
                    kind,
                    node_id: spec_u64_from_le_bytes(b.subrange(1, 9)),
                    context: b.subrange(9, b.len() as int),
                },
            ),
        }
    }
}

/// Decoding undoes encoding for membership changes.
pub proof fn lemma_conf_change_round_trip(c: ConfChangeView)
    ensures
        decode_conf_change_spec(encode_conf_change_spec(c)) == Some(c),
{
    lemma_auto_spec_u64_to_from_le_bytes();
    let b = encode_conf_change_spec(c);
    assert(b.subrange(1, 9) =~= spec_u64_to_le_bytes(c.node_id));
    assert(b.subrange(9, b.len() as int) =~= c.context);
}

/// Serialize a membership change for the consensus log.
pub fn encode_conf_change(c: &ConfChange) -> (out: Vec<u8>)
    ensures
        out@ == encode_conf_change_spec(c@),
{
    let mut out: Vec<u8> = Vec::new();
    let code: u8 = match c.kind {
        ConfChangeKind::AddNode => 0,
        ConfChangeKind::RemoveNode => 1,
        ConfChangeKind::AddLearnerNode => 2,
    };
    out.push(code);
    let mut idb = u64_to_le_bytes(c.node_id);
    out.append(&mut idb);
    let mut ctx = slice_to_vec(c.context.as_slice());
    out.append(&mut ctx);
    assert(out@ =~= encode_conf_change_spec(c@));
    out
}

/// Parse a committed conf-change entry.
pub fn decode_conf_change(b: &Vec<u8>) -> (r: Option<ConfChange>)
    ensures
        match r {
            Some(c) => decode_conf_change_spec(b@) == Some(c@),
            None => decode_conf_change_spec(b@) is None,
        },
{
    let n = b.len();
    if n < 9 {
        return None;
    }
    let s = b.as_slice();
    let code = s[0];
    let kind = if code == 0 {
        ConfChangeKind::AddNode
    } else if code == 1 {
        ConfChangeKind::RemoveNode
    } else if code == 2 {
        ConfChangeKind::AddLearnerNode
    } else {
        return None;
    };
    let node_id = read_u64_at(s, 1);
    let context = slice_to_vec(slice_subrange(s, 9, n));
    assert(context@ =~= b@.subrange(9, n as int));
    Some(ConfChange { kind, node_id, context })
}

/// The value under which a log entry is persisted: a conf-change flag byte
/// followed by the entry's payload.
pub open spec fn entry_value_spec(e: LogEntryView) -> Seq<u8> {
    seq![if e.is_conf_change { 1u8 } else { 0u8 }] + e.data
}

/// The serialized membership list a `Status` request answers with: each
/// member id in order, little endian.
pub open spec fn encode_members_spec(ms: Seq<u64>) -> Seq<u8>
    decreases ms.len(),
{
    if ms.len() == 0 {
        Seq::empty()
    } else {
        encode_members_spec(ms.drop_last()) + spec_u64_to_le_bytes(ms.last())
    }
}

/// The exact inverse of [`encode_members_spec`]: defined on byte strings of
/// whole little-endian words.
pub open spec fn decode_members_spec(b: Seq<u8>) -> Option<Seq<u64>>
    decreases b.len(),
{
    if b.len() % 8 != 0 {
        None
    } else if b.len() == 0 {
        Some(Seq::empty())
    } else {
        match decode_members_spec(b.take(b.len() - 8)) {
            None => None,
            Some(ms) => Some(
                ms.push(spec_u64_from_le_bytes(b.subrange(b.len() - 8, b.len() as int))),
            ),
        }
    }
}

/// Decoding undoes encoding for membership lists.
pub proof fn lemma_members_round_trip(ms: Seq<u64>)
    ensures
        decode_members_spec(encode_members_spec(ms)) == Some(ms),
    decreases ms.len(),
{
    lemma_auto_spec_u64_to_from_le_bytes();
    if ms.len() == 0 {
        assert(encode_members_spec(ms).len() == 0);
    } else {
        lemma_members_round_trip(ms.drop_last());
        lemma_encode_members_len(ms.drop_last());
        lemma_encode_members_len(ms);
        let b = encode_members_spec(ms);
        assert(b.take(b.len() - 8) =~= encode_members_spec(ms.drop_last()));
        assert(b.subrange(b.len() - 8, b.len() as int) =~= spec_u64_to_le_bytes(ms.last()));
        assert(ms.drop_last().push(ms.last()) =~= ms);
    }
}

/// An encoded membership list is eight bytes per member.
pub proof fn lemma_encode_members_len(ms: Seq<u64>)
    ensures
        encode_members_spec(ms).len() == 8 * ms.len(),
    decreases ms.len(),
{
    vstd::bytes::lemma_auto_spec_u64_to_from_le_bytes();
    if ms.len() > 0 {
        lemma_encode_members_len(ms.drop_last());
    }
}

/// Serialize the membership list for a `Status` response.
pub fn encode_members(ms: &Vec<u64>) -> (out: Vec<u8>)
    ensures
        out@ == encode_members_spec(ms@),
{
    let mut out: Vec<u8> = Vec::new();
    let mut i: usize = 0;
    while i < ms.len()
        invariant
            i <= ms.len(),
            out@ == encode_members_spec(ms@.take(i as int)),
        decreases ms.len() - i,
    {
        let mut word = u64_to_le_bytes(ms[i]);
        out.append(&mut word);
        proof {
            assert(ms@.take(i + 1).drop_last() =~= ms@.take(i as int));
        }
        i = i + 1;
    }
    proof {
        assert(ms@.take(ms@.len() as int) =~= ms@);
    }
    out
}

/// Parse a `Status` response's membership list.
pub fn decode_members(b: &Vec<u8>) -> (r: Option<Vec<u64>>)
    ensures
        match r {
            Some(ms) => decode_members_spec(b@) == Some(ms@),
            None => decode_members_spec(b@) is None,
        },
{
    let n = b.len();
    if n % 8 != 0 {
        return None;
    }
    let s = b.as_slice();
    let mut out: Vec<u64> = Vec::new();
    let mut i: usize = 0;
    while i < n / 8
        invariant
            n == b@.len(),
            n % 8 == 0,
            i <= n / 8,
            decode_members_spec(b@.take(8 * i as int)) == Some(out@),
            s@ == b@,
        decreases n / 8 - i,
    {
        let word = read_u64_at(s, 8 * i);
        out.push(word);
        proof {
            let t = b@.take(8 * (i + 1) as int);
            assert(t.len() % 8 == 0);
            assert(t.take(t.len() - 8) =~= b@.take(8 * i as int));
            assert(t.subrange(t.len() - 8, t.len() as int) =~= b@.subrange(
                8 * i as int,
                8 * i as int + 8,
            ));
        }
        i = i + 1;
    }
    proof {
        assert(b@.take(8 * i as int) =~= b@);
    }
    Some(out)
}

} // verus!
