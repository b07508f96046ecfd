//! The applier: the deterministic interpreter that executes one committed
//! request against the data namespace and produces its response.  Because it
//! is a pure function of the current state and the request, every replica
//! that applies the same committed entries in the same order reaches the
//! same contents.

use vstd::prelude::*;
use crate::codec::{encode_members, encode_members_spec};
use crate::kv::KvStore;
use crate::types::{Op, ReqView, RespView, Request, Response};

verus! {

/// The value a `Put` writes: the request's value, or empty when absent.
pub open spec fn put_value(r: ReqView) -> Seq<u8> {
    match r.value {
        Some(v) => v,
        None => Seq::empty(),
    }
}

/// What one committed request does to the data namespace, and what it
/// answers: `Get` reads, `Put` upserts, `Delete` removes, `Status` reports
/// the membership; every operation answers `ok`.
pub open spec fn apply_request_spec(kv: Map<Seq<u8>, Seq<u8>>, members: Seq<u64>, r: ReqView) -> (
    Map<Seq<u8>, Seq<u8>>,
    RespView,
) {
    match r.op {
        Op::Get => (
            kv,
            RespView {
                ok: true,
                value: if kv.contains_key(r.key) {
                    Some(kv[r.key])
                } else {
                    None
                },
            },
        ),
        Op::Put => (kv.insert(r.key, put_value(r)), RespView { ok: true, value: None }),
        Op::Delete => (kv.remove(r.key), RespView { ok: true, value: None }),
        Op::Status => (kv, RespView { ok: true, value: Some(encode_members_spec(members)) }),
    }
}

/// The data namespace after a sequence of committed requests, applied in
/// order.
pub open spec fn apply_requests_spec(
    kv: Map<Seq<u8>, Seq<u8>>,
    members: Seq<u64>,
    reqs: Seq<ReqView>,
) -> Map<Seq<u8>, Seq<u8>>
    decreases reqs.len(),
{
    if reqs.len() == 0 {
        kv
    } else {
        apply_request_spec(apply_requests_spec(kv, members, reqs.drop_last()), members, reqs.last()).0
    }
}

/// Execute one committed request against the store.
pub fn apply_request(kv: &mut KvStore, members: &Vec<u64>, r: Request) -> (resp: Response)
    ensures
        final(kv)@ == apply_request_spec(old(kv)@, members@, r@).0,
        resp@ == apply_request_spec(old(kv)@, members@, r@).1,
{
    match r.op {
        Op::Get => {
            let value = kv.get(r.key.as_slice());
            Response { ok: true, value }
        },
        Op::Put => {
            let value = match r.value {
                Some(v) => v,
                None => Vec::new(),
            };
            kv.put(r.key, value);
            Response { ok: true, value: None }
        },
        Op::Delete => {
            kv.delete(r.key.as_slice());
            Response { ok: true, value: None }
        },
        Op::Status => {
            let value = encode_members(members);
            Response { ok: true, value: Some(value) }
        },
    }
}

/// The value a key holds in a map, as an option.
pub open spec fn map_val(m: Map<Seq<u8>, Seq<u8>>, k: Seq<u8>) -> Option<Seq<u8>> {
    if m.contains_key(k) {
        Some(m[k])
    } else {
        None
    }
}

/// The value the most recent committed write among `reqs` leaves under `k`:
/// the last `Put` for `k` wins, a later `Delete` for `k` clears it, and with
/// no write for `k` the initial value stands.
pub open spec fn committed_value(init: Option<Seq<u8>>, reqs: Seq<ReqView>, k: Seq<u8>) -> Option<
    Seq<u8>,
>
    decreases reqs.len(),
{
    if reqs.len() == 0 {
        init
    } else {
        let r = reqs.last();
        if r.op == Op::Put && r.key == k {
            Some(put_value(r))
        } else if r.op == Op::Delete && r.key == k {
            None
        } else {
            committed_value(init, reqs.drop_last(), k)
        }
    }
}

/// After any sequence of committed requests, each key holds exactly the
/// value of its most recent committed write — never an intermediate or
/// future value.
pub proof fn lemma_store_holds_latest_write(
    kv: Map<Seq<u8>, Seq<u8>>,
    members: Seq<u64>,
    reqs: Seq<ReqView>,
    k: Seq<u8>,
)
    ensures
        map_val(apply_requests_spec(kv, members, reqs), k) == committed_value(
            map_val(kv, k),
            reqs,
            k,
        ),
    decreases reqs.len(),
{
    if reqs.len() > 0 {
        lemma_store_holds_latest_write(kv, members, reqs.drop_last(), k);
    }
}

/// A `Get` routed through the log answers the most recent committed write
/// for its key.
pub proof fn lemma_get_sees_latest_write(
    kv: Map<Seq<u8>, Seq<u8>>,
    members: Seq<u64>,
    reqs: Seq<ReqView>,
    g: ReqView,
)
    requires
        g.op == Op::Get,
    ensures
        apply_request_spec(apply_requests_spec(kv, members, reqs), members, g).1.value
            == committed_value(map_val(kv, g.key), reqs, g.key),
{
    lemma_store_holds_latest_write(kv, members, reqs, g.key);
}

/// The applier is deterministic: two replicas that start from the same
/// data-namespace contents and apply the same committed requests in the same
/// order end with identical contents.
pub proof fn lemma_replicas_converge(
    kv1: Map<Seq<u8>, Seq<u8>>,
    kv2: Map<Seq<u8>, Seq<u8>>,
    members: Seq<u64>,
    reqs: Seq<ReqView>,
)
    requires
        kv1 == kv2,
    ensures
        apply_requests_spec(kv1, members, reqs) == apply_requests_spec(kv2, members, reqs),
{
}

} // verus!
