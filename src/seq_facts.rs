//! Facts about `Seq::filter` that the registry's proofs need.

use vstd::prelude::*;

verus! {

pub proof fn lemma_filter_member<A>(s: Seq<A>, p: spec_fn(A) -> bool, i: int)
    requires
        0 <= i < s.filter(p).len(),
    ensures
        exists|k: int| 0 <= k < s.len() && s[k] == s.filter(p)[i],
        p(s.filter(p)[i]),
{
    broadcast use Seq::lemma_filter_pred;
    assert(s.filter(p).contains(s.filter(p)[i]));
    s.lemma_filter_contains_rev(p, s.filter(p)[i]);
}

pub proof fn lemma_filter_all<A>(s: Seq<A>, p: spec_fn(A) -> bool)
    requires
        forall|i: int| 0 <= i < s.len() ==> p(s[i]),
    ensures
        s.filter(p) == s,
    decreases s.len(),
{
    reveal(Seq::filter);
    if s.len() > 0 {
        lemma_filter_all(s.drop_last(), p);
        assert(s.drop_last().push(s.last()) =~= s);
    }
}

pub proof fn lemma_filter_filter<A>(s: Seq<A>, p: spec_fn(A) -> bool, q: spec_fn(A) -> bool)
    ensures
        s.filter(p).filter(q) == s.filter(|x: A| p(x) && q(x)),
    decreases s.len(),
{
    reveal(Seq::filter);
    if s.len() > 0 {
        lemma_filter_filter(s.drop_last(), p, q);
        let f = s.drop_last().filter(p);
        if p(s.last()) {
            assert(f.push(s.last()).drop_last() =~= f);
        }
    }
}

pub proof fn lemma_filter_pairwise<A>(s: Seq<A>, p: spec_fn(A) -> bool, rel: spec_fn(A, A) -> bool)
    requires
        forall|i: int, j: int| 0 <= i < j < s.len() ==> rel(s[i], s[j]),
    ensures
        forall|i: int, j: int|
            0 <= i < j < s.filter(p).len() ==> rel(s.filter(p)[i], s.filter(p)[j]),
    decreases s.len(),
{
    reveal(Seq::filter);
    if s.len() > 0 {
        let d = s.drop_last();
        lemma_filter_pairwise(d, p, rel);
        let f = d.filter(p);
        let g = s.filter(p);
        assert forall|i: int, j: int| 0 <= i < j < g.len() implies rel(g[i], g[j]) by {
            if p(s.last()) && j == f.len() {
                lemma_filter_member(d, p, i);
                let k = choose|k: int| 0 <= k < d.len() && d[k] == f[i];
                assert(rel(s[k], s[s.len() - 1]));
            } else {
                assert(g[i] == f[i] && g[j] == f[j]);
            }
        }
    }
}

/// With the keys of `s` distinct, filtering out the key of entry `m` removes
/// that entry alone.
pub proof fn lemma_filter_out_key<K, V>(s: Seq<(K, V)>, a: K, p: spec_fn((K, V)) -> bool, m: int)
    requires
        forall|x: (K, V)| #[trigger] p(x) <==> x.0 != a,
        forall|i: int, j: int| 0 <= i < j < s.len() ==> s[i].0 != s[j].0,
        0 <= m < s.len(),
        s[m].0 == a,
    ensures
        s.filter(p) == s.remove(m),
    decreases s.len(),
{
    reveal(Seq::filter);
    let d = s.drop_last();
    if m == s.len() - 1 {
        lemma_filter_all(d, p);
        assert(s.remove(m) =~= d);
    } else {
        lemma_filter_out_key(d, a, p, m);
        assert(s[m].0 != s[s.len() - 1].0);
        assert(d.remove(m).push(s.last()) =~= s.remove(m));
    }
}

} // verus!
