//! Properties that hold across the operations of the registry and the
//! protocol.

use vstd::prelude::*;
use crate::registry::{
    addrs_of, broadcast_set, entries_wf, evicted, failed_of, names_of, reaches, reserved_name,
    username_verdict, PeerAddr, Registry, UsernameError,
};
use crate::seq_facts::{lemma_filter_all, lemma_filter_member, lemma_filter_out_key, lemma_filter_pairwise};
use crate::text::{ascii_fold, eq_ignore_ascii_case, lemma_ascii_encoded_len, trim};

verus! {

/// Every registry that the operations build has usernames that are pairwise
/// distinct ignoring ASCII case, and none of them is `System` in any case:
/// `new` starts well formed and `insert`, `remove`, `evict` and
/// `finish_broadcast` keep it so.
pub proof fn registered_names_distinct(r: &Registry)
    requires
        r.wf(),
    ensures
        forall|i: int, j: int|
            0 <= i < j < names_of(r.entries()).len() ==> !eq_ignore_ascii_case(
                #[trigger] names_of(r.entries())[i],
                #[trigger] names_of(r.entries())[j],
            ),
        forall|i: int|
            0 <= i < names_of(r.entries()).len() ==> !eq_ignore_ascii_case(
                #[trigger] names_of(r.entries())[i],
                reserved_name(),
            ),
{
    let e = r.entries();
    assert forall|i: int, j: int| 0 <= i < j < names_of(e).len() implies !eq_ignore_ascii_case(
        #[trigger] names_of(e)[i],
        #[trigger] names_of(e)[j],
    ) by {
        assert(names_of(e)[i] == e[i].1 && names_of(e)[j] == e[j].1);
    }
    assert forall|i: int| 0 <= i < names_of(e).len() implies !eq_ignore_ascii_case(
        #[trigger] names_of(e)[i],
        reserved_name(),
    ) by {
        assert(names_of(e)[i] == e[i].1);
    }
}

/// A username that trims to `System`, in any case, is refused whatever is
/// registered.
pub proof fn system_always_refused(e: Seq<(PeerAddr, Seq<char>)>, raw: Seq<char>)
    requires
        eq_ignore_ascii_case(trim(raw), reserved_name()),
    ensures
        username_verdict(e, raw) == Err::<Seq<char>, UsernameError>(UsernameError::Reserved),
{
    let t = trim(raw);
    assert forall|i: int| 0 <= i < t.len() implies (#[trigger] t[i] as u32) < 128 by {
        let r = reserved_name();
        assert(r[0] == 'S' && r[1] == 'y' && r[2] == 's' && r[3] == 't' && r[4] == 'e' && r[5] == 'm');
        assert(ascii_fold(t[i]) == ascii_fold(r[i]));
    }
    lemma_ascii_encoded_len(t);
}

/// A broadcast that includes the sender is written to every registered
/// address, in order of admission; so the roster line reaches every member.
pub proof fn full_broadcast_reaches_all(
    e: Seq<(PeerAddr, Seq<char>)>,
    sender: PeerAddr,
)
    ensures
        broadcast_set(e, sender, true) == addrs_of(e),
{
    lemma_filter_all(e, |x: (PeerAddr, Seq<char>)| reaches(sender, true, x));
}

proof fn lemma_failed_none(t: Seq<PeerAddr>, d: Seq<bool>)
    requires
        t.len() == d.len(),
        forall|i: int| 0 <= i < d.len() ==> d[i],
    ensures
        failed_of(t, d) == Seq::<PeerAddr>::empty(),
    decreases t.len(),
{
    if t.len() > 0 {
        lemma_failed_none(t.drop_last(), d.drop_last());
    }
}

proof fn lemma_failed_one(t: Seq<PeerAddr>, d: Seq<bool>, k: int)
    requires
        t.len() == d.len(),
        0 <= k < t.len(),
        !d[k],
        forall|i: int| 0 <= i < d.len() && i != k ==> d[i],
    ensures
        failed_of(t, d) == seq![t[k]],
    decreases t.len(),
{
    if k == t.len() - 1 {
        lemma_failed_none(t.drop_last(), d.drop_last());
        assert(Seq::<PeerAddr>::empty().push(t[k]) =~= seq![t[k]]);
    } else {
        lemma_failed_one(t.drop_last(), d.drop_last(), k);
    }
}

/// When exactly one write of a broadcast pass to `n` targets fails, that
/// target alone is evicted: the registry loses exactly its entry, and the
/// other `n - 1` targets, all written to, stay registered.
pub proof fn one_failed_write_evicts_one_peer(
    e: Seq<(PeerAddr, Seq<char>)>,
    sender: PeerAddr,
    include_sender: bool,
    delivered: Seq<bool>,
    k: int,
)
    requires
        entries_wf(e),
        delivered.len() == broadcast_set(e, sender, include_sender).len(),
        0 <= k < delivered.len(),
        !delivered[k],
        forall|i: int| 0 <= i < delivered.len() && i != k ==> delivered[i],
    ensures
        ({
            let t = broadcast_set(e, sender, include_sender);
            let after = evicted(e, failed_of(t, delivered));
            &&& failed_of(t, delivered) == seq![t[k]]
            &&& after.len() == e.len() - 1
            &&& !addrs_of(after).contains(t[k])
            &&& forall|i: int| 0 <= i < t.len() && i != k ==> addrs_of(after).contains(#[trigger] t[i])
        }),
{
    let p = |x: (PeerAddr, Seq<char>)| reaches(sender, include_sender, x);
    let f = e.filter(p);
    let t = broadcast_set(e, sender, include_sender);
    let a = t[k];
    lemma_failed_one(t, delivered, k);
    let failed = seq![a];
    let q = |x: (PeerAddr, Seq<char>)| !failed.contains(x.0);
    assert forall|x: (PeerAddr, Seq<char>)| #[trigger] q(x) <==> x.0 != a by {
        if x.0 == a {
            assert(failed[0] == x.0);
        }
    }
    // the failed target has an entry in the registry
    assert(t[k] == f[k].0);
    lemma_filter_member(e, p, k);
    let m = choose|m: int| 0 <= m < e.len() && e[m] == f[k];
    lemma_filter_out_key(e, a, q, m);
    let after = evicted(e, failed);
    assert(after == e.remove(m));
    assert(!addrs_of(after).contains(a)) by {
        if addrs_of(after).contains(a) {
            let j = choose|j: int| 0 <= j < addrs_of(after).len() && addrs_of(after)[j] == a;
            if j < m {
                assert(e[j].0 == e[m].0);
            } else {
                assert(e[j + 1].0 == e[m].0);
            }
        }
    }
    assert forall|i: int| 0 <= i < t.len() && i != k implies addrs_of(after).contains(#[trigger] t[i]) by {
        lemma_filter_member(e, p, i);
        let mi = choose|mi: int| 0 <= mi < e.len() && e[mi] == f[i];
        if mi == m {
            // two positions of the filtered sequence hold one entry
            lemma_filter_distinct_keys(e, p);
            assert(f[i].0 == f[k].0);
        }
        if mi < m {
            assert(addrs_of(after)[mi] == t[i]);
        } else {
            assert(addrs_of(after)[mi - 1] == t[i]);
        }
    }
}

proof fn lemma_filter_distinct_keys(
    e: Seq<(PeerAddr, Seq<char>)>,
    p: spec_fn((PeerAddr, Seq<char>)) -> bool,
)
    requires
        entries_wf(e),
    ensures
        forall|i: int, j: int| 0 <= i < j < e.filter(p).len() ==> e.filter(p)[i].0 != e.filter(p)[j].0,
{
    lemma_filter_pairwise(
        e,
        p,
        |x: (PeerAddr, Seq<char>), y: (PeerAddr, Seq<char>)| x.0 != y.0,
    );
}

} // verus!
