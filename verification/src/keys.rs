//! Key namespacing.  The store holds two disjoint key ranges: user data,
//! written only by the applier, and consensus metadata (log entries and hard
//! state), written only by the node driver.  A one-byte prefix keeps the two
//! from ever colliding.

use vstd::prelude::*;
use vstd::bytes::{spec_u64_to_le_bytes, u64_to_le_bytes};
use vstd::slice::slice_to_vec;

verus! {

/// The byte that prefixes every key of the user data namespace.
pub const DATA_PREFIX: u8 = 100;

/// The byte that prefixes every key of the consensus metadata namespace.
pub const META_PREFIX: u8 = 109;

/// The metadata tag under which a log entry is persisted.
pub const ENTRY_TAG: u8 = 101;

/// The metadata tag under which the hard state is persisted.
pub const HARD_STATE_TAG: u8 = 104;

/// The storage key that holds the user value for `k`.
pub open spec fn data_key_spec(k: Seq<u8>) -> Seq<u8> {
    seq![DATA_PREFIX] + k
}

/// The storage key that holds the persisted log entry at `index`.
pub open spec fn entry_key_spec(index: u64) -> Seq<u8> {
    seq![META_PREFIX, ENTRY_TAG] + spec_u64_to_le_bytes(index)
}

/// The storage key that holds the consensus core's hard state.
pub open spec fn hard_state_key_spec() -> Seq<u8> {
    seq![META_PREFIX, HARD_STATE_TAG]
}

/// True of every key of the consensus metadata namespace.
pub open spec fn is_meta_key(k: Seq<u8>) -> bool {
    k.len() > 0 && k[0] == META_PREFIX
}

/// Prefix a user key into the data namespace.
pub fn data_key(k: &[u8]) -> (r: Vec<u8>)
    ensures
        r@ == data_key_spec(k@),
{
    let mut out: Vec<u8> = Vec::new();
    out.push(DATA_PREFIX);
    let mut tail = slice_to_vec(k);
    out.append(&mut tail);
    assert(out@ =~= data_key_spec(k@));
    out
}

/// The storage key for the persisted log entry at `index`.
pub fn entry_key(index: u64) -> (r: Vec<u8>)
    ensures
        r@ == entry_key_spec(index),
{
    let mut out: Vec<u8> = Vec::new();
    out.push(META_PREFIX);
    out.push(ENTRY_TAG);
    let mut tail = u64_to_le_bytes(index);
    out.append(&mut tail);
    assert(out@ =~= entry_key_spec(index));
    out
}

/// The storage key for the consensus core's hard state.
pub fn hard_state_key() -> (r: Vec<u8>)
    ensures
        r@ == hard_state_key_spec(),
{
    let mut out: Vec<u8> = Vec::new();
    out.push(META_PREFIX);
    out.push(HARD_STATE_TAG);
    assert(out@ =~= hard_state_key_spec());
    out
}

/// The two namespaces never collide: no data key equals a metadata key, and
/// prefixing is injective, so distinct user keys stay distinct.
pub proof fn lemma_namespaces_disjoint(k: Seq<u8>, index: u64)
    ensures
        data_key_spec(k) != entry_key_spec(index),
        data_key_spec(k) != hard_state_key_spec(),
        !is_meta_key(data_key_spec(k)),
        is_meta_key(entry_key_spec(index)),
        is_meta_key(hard_state_key_spec()),
{
    assert(data_key_spec(k)[0] == DATA_PREFIX);
    assert(entry_key_spec(index)[0] == META_PREFIX);
    assert(hard_state_key_spec()[0] == META_PREFIX);
}

/// Prefixing user keys is injective: equal data keys come from equal keys.
pub proof fn lemma_data_key_injective(k1: Seq<u8>, k2: Seq<u8>)
    requires
        data_key_spec(k1) == data_key_spec(k2),
    ensures
        k1 == k2,
{
    assert(k1 =~= data_key_spec(k1).subrange(1, data_key_spec(k1).len() as int));
    assert(k2 =~= data_key_spec(k2).subrange(1, data_key_spec(k2).len() as int));
}

} // verus!
