//! The static cluster map given on the command line:
//! `id=ip:raft_port:http_port,...` — one entry per node, each naming the
//! consensus address and the client-facing port.

use vstd::prelude::*;
use vstd::string::*;
use std::collections::HashMap;

verus! {

broadcast use vstd::std_specs::hash::group_hash_axioms;

/// Where one node listens: its client-facing port and its consensus
/// address (`ip:raft_port`).
#[derive(Clone)]
pub struct Addr {
    pub http_port: u16,
    pub raft_addr: String,
}

/// The mathematical value of an [`Addr`].
pub struct AddrView {
    pub http_port: u16,
    pub raft_addr: Seq<char>,
}

impl View for Addr {
    type V = AddrView;

    open spec fn view(&self) -> AddrView {
        AddrView { http_port: self.http_port, raft_addr: self.raft_addr@ }
    }
}

/// A decimal digit.
pub open spec fn is_digit(c: char) -> bool {
    48 <= c as int <= 57
}

/// A non-empty, all-digit string.
pub open spec fn all_digits(s: Seq<char>) -> bool {
    s.len() > 0 && forall|i: int| 0 <= i < s.len() ==> is_digit(s[i])
}

/// The number an all-digit string denotes.
pub open spec fn dec_val(s: Seq<char>) -> int
    decreases s.len(),
{
    if s.len() == 0 {
        0
    } else {
        dec_val(s.drop_last()) * 10 + (s.last() as int - 48)
    }
}

/// The number an all-digit string denotes, when it fits a `u64`.
pub open spec fn parse_u64_spec(s: Seq<char>) -> Option<u64> {
    if all_digits(s) && dec_val(s) <= u64::MAX {
        Some(dec_val(s) as u64)
    } else {
        None
    }
}

/// The number an all-digit string denotes, when it fits a `u16`.
pub open spec fn parse_u16_spec(s: Seq<char>) -> Option<u16> {
    if all_digits(s) && dec_val(s) <= u16::MAX {
        Some(dec_val(s) as u16)
    } else {
        None
    }
}

/// The first index at or after `from` holding `sep`, if any.
pub open spec fn find_char(s: Seq<char>, sep: char, from: int) -> Option<int>
    decreases s.len() - from,
{
    if from < 0 || from >= s.len() {
        None
    } else if s[from] == sep {
        Some(from)
    } else {
        find_char(s, sep, from + 1)
    }
}

/// One `id=ip:raft_port:http_port` entry: the node id and its address.
/// Text past a second `=`, or past a third `:` in the address, is ignored,
/// as the splitting it is read with ignores it.
pub open spec fn parse_item_spec(s: Seq<char>) -> Option<(u64, AddrView)> {
    match find_char(s, '=', 0) {
        None => None,
        Some(eq) => {
            let vend = match find_char(s, '=', eq + 1) {
                Some(j) => j,
                None => s.len() as int,
            };
            let addr = s.subrange(eq + 1, vend);
            match parse_u64_spec(s.subrange(0, eq)) {
                None => None,
                Some(id) => match find_char(addr, ':', 0) {
                    None => None,
                    Some(c1) => match find_char(addr, ':', c1 + 1) {
                        None => None,
                        Some(c2) => {
                            let pend = match find_char(addr, ':', c2 + 1) {
                                Some(j) => j,
                                None => addr.len() as int,
                            };
                            match parse_u16_spec(addr.subrange(c2 + 1, pend)) {
                                None => None,
                                Some(port) => Some(
                                    (
                                        id,
                                        AddrView {
                                            http_port: port,
                                            raft_addr: addr.subrange(0, c2),
                                        },
                                    ),
                                ),
                            }
                        },
                    },
                },
            }
        },
    }
}

/// The cluster map read from `s` starting at `from`, with `acc` already
/// read: comma-separated entries, a later entry for the same id winning.
pub open spec fn parse_cluster_from(s: Seq<char>, from: int, acc: Map<u64, AddrView>) -> Option<
    Map<u64, AddrView>,
>
    decreases s.len() - from,
{
    let found = match find_char(s, ',', from) {
        Some(j) => j,
        None => s.len() as int,
    };
    let end = if found < from {
        from
    } else if found > s.len() {
        s.len() as int
    } else {
        found
    };
    match parse_item_spec(s.subrange(from, end)) {
        None => None,
        Some((id, a)) => if end >= s.len() {
            Some(acc.insert(id, a))
        } else {
            parse_cluster_from(s, end + 1, acc.insert(id, a))
        },
    }
}

/// The whole cluster map a command-line string denotes, if well formed.
pub open spec fn parse_cluster_spec(s: Seq<char>) -> Option<Map<u64, AddrView>> {
    parse_cluster_from(s, 0, Map::empty())
}

/// The views of the entries of an address map.
pub open spec fn addr_views(m: Map<u64, Addr>) -> Map<u64, AddrView> {
    Map::new(|id: u64| m.contains_key(id), |id: u64| m[id]@)
}

proof fn lemma_find_char_found(s: Seq<char>, sep: char, from: int, i: int)
    requires
        0 <= from <= i < s.len(),
        s[i] == sep,
        forall|j: int| from <= j < i ==> s[j] != sep,
    ensures
        find_char(s, sep, from) == Some(i),
    decreases i - from,
{
    if from < i {
        lemma_find_char_found(s, sep, from + 1, i);
    }
}

proof fn lemma_find_char_none(s: Seq<char>, sep: char, from: int)
    requires
        0 <= from,
        forall|j: int| from <= j < s.len() ==> s[j] != sep,
    ensures
        find_char(s, sep, from) is None,
    decreases s.len() - from,
{
    if from < s.len() {
        lemma_find_char_none(s, sep, from + 1);
    }
}

proof fn lemma_dec_val_nonneg(s: Seq<char>)
    requires
        forall|i: int| 0 <= i < s.len() ==> is_digit(s[i]),
    ensures
        dec_val(s) >= 0,
    decreases s.len(),
{
    if s.len() > 0 {
        lemma_dec_val_nonneg(s.drop_last());
    }
}

proof fn lemma_dec_val_monotone(s: Seq<char>, i: int)
    requires
        0 <= i <= s.len(),
        forall|j: int| 0 <= j < s.len() ==> is_digit(s[j]),
    ensures
        dec_val(s.take(i)) <= dec_val(s),
    decreases s.len() - i,
{
    if i == s.len() {
        assert(s.take(i) =~= s);
    } else {
        assert(s.take(i + 1).drop_last() =~= s.take(i));
        assert(s.take(i + 1).last() == s[i]);
        lemma_dec_val_nonneg(s.take(i));
        lemma_dec_val_monotone(s, i + 1);
    }
}

/// The first index at or after `from` holding `sep`, if any.
fn find_char_exec(s: &str, sep: char, from: usize) -> (r: Option<usize>)
    requires
        from <= s@.len(),
    ensures
        match r {
            Some(i) => from <= i < s@.len() && find_char(s@, sep, from as int) == Some(i as int),
            None => find_char(s@, sep, from as int) is None,
        },
{
    let n = s.unicode_len();
    let mut i: usize = from;
    while i < n
        invariant
            from <= i <= n,
            n == s@.len(),
            forall|j: int| from <= j < i ==> s@[j] != sep,
        decreases n - i,
    {
        if s.get_char(i) == sep {
            proof {
                lemma_find_char_found(s@, sep, from as int, i as int);
            }
            return Some(i);
        }
        i = i + 1;
    }
    proof {
        lemma_find_char_none(s@, sep, from as int);
    }
    None
}

/// Read the decimal number in `s[from..to]`, if that range is all digits
/// and the value fits.
fn parse_u64_exec(s: &str, from: usize, to: usize) -> (r: Option<u64>)
    requires
        from <= to <= s@.len(),
    ensures
        match r {
            Some(v) => parse_u64_spec(s@.subrange(from as int, to as int)) == Some(v),
            None => parse_u64_spec(s@.subrange(from as int, to as int)) is None,
        },
{
    let ghost sub = s@.subrange(from as int, to as int);
    if from == to {
        return None;
    }
    let mut acc: u64 = 0;
    let mut i: usize = from;
    while i < to
        invariant
            from <= i <= to <= s@.len(),
            sub == s@.subrange(from as int, to as int),
            forall|j: int| 0 <= j < i - from ==> is_digit(sub[j]),
            acc as int == dec_val(sub.take(i - from)),
        decreases to - i,
    {
        let c = s.get_char(i);
        let d = c as u32;
        proof {
            assert(sub[i - from] == s@[i as int]);
            assert(sub.take(i - from + 1).drop_last() =~= sub.take(i - from));
            assert(sub.take(i - from + 1).last() == sub[i - from]);
        }
        if d < 48 || d > 57 {
            proof {
                assert(!is_digit(sub[i - from]));
                assert(!all_digits(sub));
            }
            return None;
        }
        let dv: u64 = (d - 48) as u64;
        if acc > (u64::MAX - dv) / 10 {
            proof {
                assert(acc as int * 10 + dv as int > u64::MAX as int) by (nonlinear_arith)
                    requires
                        acc as int > (u64::MAX as int - dv as int) / 10,
                        0 <= dv as int <= 9,
                ;
                assert(dec_val(sub.take(i - from + 1)) > u64::MAX as int);
                if all_digits(sub) {
                    lemma_dec_val_monotone(sub, i - from + 1);
                    assert(dec_val(sub) > u64::MAX as int);
                }
            }
            return None;
        }
        acc = acc * 10 + dv;
        i = i + 1;
    }
    proof {
        assert(sub.take(to - from) =~= sub);
        assert(all_digits(sub));
    }
    Some(acc)
}

/// Read the decimal number in `s[from..to]`, if it fits a `u16`.
fn parse_u16_exec(s: &str, from: usize, to: usize) -> (r: Option<u16>)
    requires
        from <= to <= s@.len(),
    ensures
        match r {
            Some(v) => parse_u16_spec(s@.subrange(from as int, to as int)) == Some(v),
            None => parse_u16_spec(s@.subrange(from as int, to as int)) is None,
        },
{
    let ghost sub = s@.subrange(from as int, to as int);
    match parse_u64_exec(s, from, to) {
        None => None,
        Some(v) => {
            proof {
                assert(all_digits(sub));
                lemma_dec_val_nonneg(sub);
                assert(dec_val(sub) == v as int);
            }
            if v <= 65535 {
                proof {
                    assert(dec_val(sub) <= u16::MAX);
                    assert(dec_val(sub) as u16 == v as u16);
                }
                Some(v as u16)
            } else {
                proof {
                    assert(dec_val(sub) > u16::MAX);
                }
                None
            }
        },
    }
}

/// Read one `id=ip:raft_port:http_port` entry.
fn parse_item_exec(item: &str) -> (r: Option<(u64, Addr)>)
    ensures
        match r {
            Some(p) => parse_item_spec(item@) == Some((p.0, p.1@)),
            None => parse_item_spec(item@) is None,
        },
{
    let len = item.unicode_len();
    let eq = match find_char_exec(item, '=', 0) {
        None => {
            return None;
        },
        Some(i) => i,
    };
    let vend = match find_char_exec(item, '=', eq + 1) {
        Some(j) => j,
        None => len,
    };
    let id = match parse_u64_exec(item, 0, eq) {
        None => {
            return None;
        },
        Some(v) => v,
    };
    let addr = item.substring_char(eq + 1, vend);
    let alen = addr.unicode_len();
    let c1 = match find_char_exec(addr, ':', 0) {
        None => {
            return None;
        },
        Some(i) => i,
    };
    let c2 = match find_char_exec(addr, ':', c1 + 1) {
        None => {
            return None;
        },
        Some(i) => i,
    };
    let pend = match find_char_exec(addr, ':', c2 + 1) {
        Some(j) => j,
        None => alen,
    };
    let port = match parse_u16_exec(addr, c2 + 1, pend) {
        None => {
            return None;
        },
        Some(v) => v,
    };
    let raft_addr = String::from_str(addr.substring_char(0, c2));
    Some((id, Addr { http_port: port, raft_addr }))
}

/// Read the whole cluster map: comma-separated `id=ip:raft_port:http_port`
/// entries.  `None` on exactly the strings the format does not cover; the
/// reference reader fails on those.
pub fn parse_cluster(cluster: &str) -> (r: Option<HashMap<u64, Addr>>)
    ensures
        match r {
            Some(m) => parse_cluster_spec(cluster@) == Some(addr_views(m@)),
            None => parse_cluster_spec(cluster@) is None,
        },
{
    let len = cluster.unicode_len();
    let mut m: HashMap<u64, Addr> = HashMap::new();
    let mut pos: usize = 0;
    proof {
        assert(addr_views(m@) =~= Map::<u64, AddrView>::empty());
    }
    loop
        invariant
            pos <= len,
            len == cluster@.len(),
            parse_cluster_spec(cluster@) == parse_cluster_from(
                cluster@,
                pos as int,
                addr_views(m@),
            ),
        decreases len - pos,
    {
        let end = match find_char_exec(cluster, ',', pos) {
            Some(j) => j,
            None => len,
        };
        let item = cluster.substring_char(pos, end);
        match parse_item_exec(item) {
            None => {
                return None;
            },
            Some((id, addr)) => {
                let ghost a = addr@;
                let ghost before = addr_views(m@);
                m.insert(id, addr);
                proof {
                    assert(addr_views(m@) =~= before.insert(id, a));
                }
                if end == len {
                    return Some(m);
                }
                pos = end + 1;
            },
        }
    }
}

} // verus!
