//! Membership state of a running session.
//!
//! Peers are identified by the textual form of their peer identifier. The
//! two peer collections are kept as vectors without duplicates, in
//! insertion order; listen addresses are an append-only list of the
//! textual multiaddresses, taken as bytes.

use vstd::prelude::*;

verus! {

/// The identifier at position `i`, as a character sequence.
pub open spec fn id_at(v: Seq<String>, i: int) -> Seq<char> {
    v[i]@
}

/// Some entry of `v` is the identifier `id`.
pub open spec fn has_id(v: Seq<String>, id: Seq<char>) -> bool {
    exists|i: int| 0 <= i < v.len() && id_at(v, i) == id
}

/// No identifier occurs twice in `v`.
pub open spec fn unique_ids(v: Seq<String>) -> bool {
    forall|i: int, j: int| 0 <= i < j < v.len() ==> id_at(v, i) != id_at(v, j)
}

/// In a collection without duplicates, an identifier that occurs at all
/// occurs at exactly one position: no peer ever holds two entries.
pub proof fn lemma_at_most_one_entry(v: Seq<String>, id: Seq<char>)
    requires
        unique_ids(v),
    ensures
        forall|i: int, j: int|
            (0 <= i < v.len() && 0 <= j < v.len() && id_at(v, i) == id && id_at(v, j) == id) ==> i
                == j,
{
}

/// Whether `id` occurs in `v`.
pub fn contains_id(v: &Vec<String>, id: &String) -> (r: bool)
    ensures
        r == has_id(v@, id@),
{
    let mut i: usize = 0;
    while i < v.len()
        invariant
            0 <= i <= v.len(),
            forall|j: int| 0 <= j < i ==> id_at(v@, j) != id@,
        decreases v.len() - i,
    {
        if v[i].eq(id) {
            proof {
                assert(id_at(v@, i as int) == id@);
            }
            return true;
        }
        i += 1;
    }
    false
}

/// Adds `id` unless it is already present; keeps the entries unique and
/// their order unchanged.
pub fn insert_id(v: &mut Vec<String>, id: String)
    requires
        unique_ids(old(v)@),
    ensures
        unique_ids(final(v)@),
        has_id(old(v)@, id@) ==> final(v)@ == old(v)@,
        !has_id(old(v)@, id@) ==> final(v)@ == old(v)@.push(id),
        forall|x: Seq<char>| has_id(final(v)@, x) <==> has_id(old(v)@, x) || x == id@,
{
    if !contains_id(v, &id) {
        let ghost gid = id@;
        let ghost pre = v@;
        v.push(id);
        proof {
            assert(id_at(v@, pre.len() as int) == gid);
            assert(has_id(v@, gid));
            assert forall|i: int, j: int| 0 <= i < j < v@.len() implies id_at(v@, i) != id_at(
                v@,
                j,
            ) by {
                if j < pre.len() {
                    assert(id_at(v@, i) == id_at(pre, i) && id_at(v@, j) == id_at(pre, j));
                } else {
                    assert(id_at(v@, j) == gid);
                    if id_at(v@, i) == gid {
                        assert(id_at(pre, i) == gid);
                        assert(has_id(pre, gid));
                    }
                }
            }
            assert forall|x: Seq<char>| has_id(v@, x) implies has_id(pre, x) || x == gid by {
                let w = choose|w: int| 0 <= w < v@.len() && id_at(v@, w) == x;
                if w < pre.len() {
                    assert(id_at(pre, w) == x);
                }
            }
            assert forall|x: Seq<char>| has_id(pre, x) implies has_id(v@, x) by {
                let w = choose|w: int| 0 <= w < pre.len() && id_at(pre, w) == x;
                assert(id_at(v@, w) == x);
            }
        }
    }
}

/// Removes `id` if present; keeps the entries unique and the order of the
/// others unchanged.
pub fn remove_id(v: &mut Vec<String>, id: &String)
    requires
        unique_ids(old(v)@),
    ensures
        unique_ids(final(v)@),
        !has_id(final(v)@, id@),
        forall|x: Seq<char>| x != id@ ==> (has_id(final(v)@, x) <==> has_id(old(v)@, x)),
        has_id(old(v)@, id@) ==> exists|k: int|
            0 <= k < old(v)@.len() && id_at(old(v)@, k) == id@ && final(v)@ == old(v)@.remove(k),
        !has_id(old(v)@, id@) ==> final(v)@ == old(v)@,
{
    let ghost pre = v@;
    let mut i: usize = 0;
    while i < v.len()
        invariant
            v@ == pre,
            pre == old(v)@,
            unique_ids(pre),
            0 <= i <= v.len(),
            forall|j: int| 0 <= j < i ==> id_at(pre, j) != id@,
        decreases v.len() - i,
    {
        if v[i].eq(id) {
            let ghost k = i as int;
            let ghost gid = id@;
            v.remove(i);
            proof {
                assert(v@ == pre.remove(k));
                assert forall|j: int| 0 <= j < v@.len() implies id_at(v@, j) == (if j < k {
                    id_at(pre, j)
                } else {
                    id_at(pre, j + 1)
                }) by {
                    assert(pre.remove(k)[j] == (if j < k {
                        pre[j]
                    } else {
                        pre[j + 1]
                    }));
                }
                assert forall|j: int| 0 <= j < v@.len() implies id_at(v@, j) != gid by {
                    if j < k {
                        assert(id_at(pre, j) != gid);
                    } else {
                        assert(id_at(pre, j + 1) != id_at(pre, k));
                    }
                }
                assert(!has_id(v@, gid));
                assert forall|i2: int, j2: int| 0 <= i2 < j2 < v@.len() implies id_at(v@, i2)
                    != id_at(v@, j2) by {
                    let a = if i2 < k { i2 } else { i2 + 1 };
                    let b = if j2 < k { j2 } else { j2 + 1 };
                    assert(id_at(v@, i2) == id_at(pre, a) && id_at(v@, j2) == id_at(pre, b));
                    assert(id_at(pre, a) != id_at(pre, b));
                }
                assert forall|x: Seq<char>| x != gid implies (has_id(v@, x) <==> has_id(
                    pre,
                    x,
                )) by {
                    if has_id(v@, x) {
                        let w = choose|w: int| 0 <= w < v@.len() && id_at(v@, w) == x;
                        if w < k {
                            assert(id_at(pre, w) == x);
                        } else {
                            assert(id_at(pre, w + 1) == x);
                        }
                    }
                    if has_id(pre, x) {
                        let w = choose|w: int| 0 <= w < pre.len() && id_at(pre, w) == x;
                        if w < k {
                            assert(id_at(v@, w) == x);
                        } else if w > k {
                            assert(id_at(v@, w - 1) == x);
                        }
                    }
                }
                assert(0 <= k < pre.len() && id_at(pre, k) == gid && v@ == pre.remove(k));
            }
            return;
        }
        i += 1;
    }
}

/// Shared membership view of one running session.
pub struct PeerState {
    /// Peers whose join request awaits a decision.
    pub pending_invites: Vec<String>,
    /// Peers that receive fan-out traffic.
    pub active_peers: Vec<String>,
    /// The local peer identifier, once the identity is known.
    pub local_peer_id: Option<String>,
    /// Every address this session has listened on, in order of appearance.
    pub local_addrs: Vec<Vec<u8>>,
}

impl PeerState {
    /// Both peer collections hold each identifier at most once.
    pub open spec fn wf(self) -> bool {
        unique_ids(self.pending_invites@) && unique_ids(self.active_peers@)
    }

    /// An empty membership state.
    pub fn new() -> (s: PeerState)
        ensures
            s.wf(),
            s.pending_invites@ == Seq::<String>::empty(),
            s.active_peers@ == Seq::<String>::empty(),
            s.local_peer_id is None,
            s.local_addrs@ == Seq::<Vec<u8>>::empty(),
    {
        PeerState {
            pending_invites: Vec::new(),
            active_peers: Vec::new(),
            local_peer_id: None,
            local_addrs: Vec::new(),
        }
    }
}

} // verus!
