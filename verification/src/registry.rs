//! The proposal registry: the in-flight client requests awaiting
//! replication, each keyed by its request id and bound to a one-shot
//! completion channel.  An entry is resolved at most once — at apply time,
//! or synchronously when the proposal is rejected — and resolving an unknown
//! id is a no-op, which is what a follower or a timed-out submitter sees.

use vstd::prelude::*;
use crate::types::Response;

verus! {

#[verifier::external_type_specification]
#[verifier::external_body]
#[verifier::reject_recursive_types(T)]
pub struct ExSender<T>(crossbeam_channel::Sender<T>);

/// Hand a response to the submitter that is blocked on this completion
/// channel.
///
/// Relies on `crossbeam_channel::Sender::send`: on a channel with no
/// capacity bound it never blocks, and it has an effect only on the channel,
/// none on this process's state; when the submitter has already gone (its
/// receiver dropped), the response is simply discarded.
#[verifier::external_body]
pub(crate) fn deliver(completion: &crossbeam_channel::Sender<Response>, resp: Response) {
    let _ = completion.send(resp);
}

/// One in-flight proposal: the submitter-chosen request id and the one-shot
/// completion handle the response is delivered through.
pub struct PendingProposal {
    pub id: u64,
    pub completion: crossbeam_channel::Sender<Response>,
}

/// The set of request ids a sequence of pending proposals holds.
pub open spec fn pending_ids(s: Seq<PendingProposal>) -> Set<u64> {
    Set::new(|id: u64| exists|i: int| 0 <= i < s.len() && s[i].id == id)
}

/// No two entries share an id.
pub open spec fn unique_ids(s: Seq<PendingProposal>) -> bool {
    forall|i: int, j: int| 0 <= i < j < s.len() ==> s[i].id != s[j].id
}

/// The in-flight proposals of this node, viewed as the set of pending
/// request ids.
pub struct Registry {
    entries: Vec<PendingProposal>,
}

impl View for Registry {
    type V = Set<u64>;

    closed spec fn view(&self) -> Set<u64> {
        pending_ids(self.entries@)
    }
}

impl Registry {
    #[verifier::type_invariant]
    spec fn wf(self) -> bool {
        unique_ids(self.entries@)
    }

    /// An empty registry.
    pub fn new() -> (r: Self)
        ensures
            r@ == Set::<u64>::empty(),
    {
        let r = Registry { entries: Vec::new() };
        proof {
            assert(r@ =~= Set::<u64>::empty());
        }
        r
    }

    /// The index of the entry for `id`, if any.
    fn find(&self, id: u64) -> (r: Option<usize>)
        ensures
            match r {
                Some(i) => i < self.entries@.len() && self.entries@[i as int].id == id,
                None => forall|i: int| 0 <= i < self.entries@.len() ==> self.entries@[i].id != id,
            },
    {
        let n = self.entries.len();
        let mut i: usize = 0;
        while i < n
            invariant
                n == self.entries@.len(),
                i <= n,
                forall|j: int| 0 <= j < i ==> self.entries@[j].id != id,
            decreases n - i,
        {
            if self.entries[i].id == id {
                return Some(i);
            }
            i = i + 1;
        }
        None
    }

    /// Whether `id` is pending.
    pub fn contains(&self, id: u64) -> (r: bool)
        ensures
            r == self@.contains(id),
    {
        self.find(id).is_some()
    }

    /// Register an in-flight proposal.  Fails — a caller-visible collision —
    /// exactly when `id` is already pending, and then changes nothing.
    pub fn register(&mut self, id: u64, completion: crossbeam_channel::Sender<Response>) -> (ok:
        bool)
        ensures
            ok == !old(self)@.contains(id),
            final(self)@ == if ok {
                old(self)@.insert(id)
            } else {
                old(self)@
            },
    {
        proof {
            use_type_invariant(&*self);
        }
        match self.find(id) {
            Some(_) => false,
            None => {
                let ghost s = self.entries@;
                let mut entries: Vec<PendingProposal> = Vec::new();
                core::mem::swap(&mut entries, &mut self.entries);
                entries.push(PendingProposal { id, completion });
                proof {
                    assert(entries@.drop_last() =~= s);
                    assert(entries@[s.len() as int].id == id);
                    assert forall|x: u64| pending_ids(entries@).contains(x) implies pending_ids(
                        s,
                    ).insert(id).contains(x) by {
                        let i = choose|i: int| 0 <= i < entries@.len() && entries@[i].id == x;
                        if i < s.len() {
                            assert(s[i].id == x);
                        }
                    }
                    assert forall|x: u64| pending_ids(s).insert(id).contains(x)
                        implies pending_ids(entries@).contains(x) by {
                        if x == id {
                            assert(entries@[s.len() as int].id == x);
                        } else {
                            let i = choose|i: int| 0 <= i < s.len() && s[i].id == x;
                            assert(entries@[i].id == x);
                        }
                    }
                    assert(pending_ids(entries@) =~= pending_ids(s).insert(id));
                }
                core::mem::swap(&mut entries, &mut self.entries);
                true
            },
        }
    }

    /// Resolve a proposal: deliver `resp` through its completion handle and
    /// drop the entry.  Fires exactly when `id` is pending; resolving an
    /// unknown id is a no-op.
    pub fn resolve(&mut self, id: u64, resp: Response) -> (fired: bool)
        ensures
            fired == old(self)@.contains(id),
            final(self)@ == old(self)@.remove(id),
    {
        proof {
            use_type_invariant(&*self);
        }
        match self.find(id) {
            Some(i) => {
                let ghost s = self.entries@;
                let mut entries: Vec<PendingProposal> = Vec::new();
                core::mem::swap(&mut entries, &mut self.entries);
                let entry = entries.remove(i);
                deliver(&entry.completion, resp);
                proof {
                    let t = entries@;
                    assert forall|a: int, b: int| 0 <= a < b < t.len() implies t[a].id != t[b].id
                        by {
                        let a0 = if a < i { a } else { a + 1 };
                        let b0 = if b < i { b } else { b + 1 };
                        assert(t[a] == s[a0]);
                        assert(t[b] == s[b0]);
                    }
                    assert forall|x: u64| pending_ids(t).contains(x) implies pending_ids(s).remove(
                        id,
                    ).contains(x) by {
                        let j = choose|j: int| 0 <= j < t.len() && t[j].id == x;
                        let j0 = if j < i { j } else { j + 1 };
                        assert(t[j] == s[j0]);
                        assert(s[j0].id == x);
                        assert(x != id);
                    }
                    assert forall|x: u64| pending_ids(s).remove(id).contains(x)
                        implies pending_ids(t).contains(x) by {
                        let j0 = choose|j0: int| 0 <= j0 < s.len() && s[j0].id == x;
                        if j0 < i {
                            assert(t[j0].id == x);
                        } else {
                            assert(j0 != i);
                            assert(t[j0 - 1].id == x);
                        }
                    }
                    assert(pending_ids(t) =~= pending_ids(s).remove(id));
                }
                core::mem::swap(&mut entries, &mut self.entries);
                true
            },
            None => {
                proof {
                    assert(!self@.contains(id));
                    assert(self@.remove(id) =~= self@);
                }
                false
            },
        }
    }
}

/// A pending proposal's completion fires at most once: `resolve` fires only
/// when the id is pending, and it leaves the id no longer pending, so under
/// any interleaving of commit and timeout a second resolution of the same id
/// finds nothing to fire.
pub proof fn lemma_callback_fires_at_most_once(pending: Set<u64>, id: u64)
    ensures
        !pending.remove(id).contains(id),
{
}

} // verus!
