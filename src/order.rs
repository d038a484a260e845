//! Byte-wise lexicographic order on strings and on key/value pairs, and a
//! sort of parameter lists under that order.
use vstd::prelude::*;
use vstd::multiset::Multiset;
use vstd::relations::{sorted_by, total_ordering};

verus! {

broadcast use vstd::seq_lib::group_to_multiset_ensures;

/// Lexicographic order on byte strings (a proper prefix comes first), the
/// order in which Rust compares `String`s.
pub open spec fn bytes_leq(a: Seq<u8>, b: Seq<u8>) -> bool
    decreases a.len(),
{
    if a.len() == 0 {
        true
    } else if b.len() == 0 {
        false
    } else if a[0] != b[0] {
        a[0] < b[0]
    } else {
        bytes_leq(a.drop_first(), b.drop_first())
    }
}

/// Order on parameters: by key, and by value where the keys are equal.
pub open spec fn pair_leq(p: (Seq<u8>, Seq<u8>), q: (Seq<u8>, Seq<u8>)) -> bool {
    if p.0 == q.0 {
        bytes_leq(p.1, q.1)
    } else {
        bytes_leq(p.0, q.0)
    }
}

pub open spec fn pair_order() -> spec_fn((Seq<u8>, Seq<u8>), (Seq<u8>, Seq<u8>)) -> bool {
    |p: (Seq<u8>, Seq<u8>), q: (Seq<u8>, Seq<u8>)| pair_leq(p, q)
}

/// The parameters in canonical order: the unique sorted arrangement of the
/// same multiset.
pub open spec fn canonical_order(s: Seq<(Seq<u8>, Seq<u8>)>) -> Seq<(Seq<u8>, Seq<u8>)> {
    s.sort_by(pair_order())
}

pub proof fn lemma_bytes_leq_reflexive(a: Seq<u8>)
    ensures
        bytes_leq(a, a),
    decreases a.len(),
{
    if a.len() > 0 {
        lemma_bytes_leq_reflexive(a.drop_first());
    }
}

pub proof fn lemma_bytes_leq_total(a: Seq<u8>, b: Seq<u8>)
    ensures
        bytes_leq(a, b) || bytes_leq(b, a),
    decreases a.len(),
{
    if a.len() > 0 && b.len() > 0 && a[0] == b[0] {
        lemma_bytes_leq_total(a.drop_first(), b.drop_first());
    }
}

pub proof fn lemma_bytes_leq_antisymmetric(a: Seq<u8>, b: Seq<u8>)
    requires
        bytes_leq(a, b),
        bytes_leq(b, a),
    ensures
        a == b,
    decreases a.len(),
{
    if a.len() > 0 && b.len() > 0 {
        lemma_bytes_leq_antisymmetric(a.drop_first(), b.drop_first());
        assert(a =~= seq![a[0]] + a.drop_first());
        assert(b =~= seq![b[0]] + b.drop_first());
    }
}

pub proof fn lemma_bytes_leq_transitive(a: Seq<u8>, b: Seq<u8>, c: Seq<u8>)
    requires
        bytes_leq(a, b),
        bytes_leq(b, c),
    ensures
        bytes_leq(a, c),
    decreases a.len(),
{
    if a.len() > 0 && b.len() > 0 && c.len() > 0 && a[0] == b[0] && b[0] == c[0] {
        lemma_bytes_leq_transitive(a.drop_first(), b.drop_first(), c.drop_first());
    }
}

/// The pair order is a total order.
pub proof fn lemma_pair_order_total()
    ensures
        total_ordering(pair_order()),
{
    assert forall|p: (Seq<u8>, Seq<u8>)| #[trigger] pair_order()(p, p) by {
        lemma_bytes_leq_reflexive(p.1);
    }
    assert forall|p: (Seq<u8>, Seq<u8>), q: (Seq<u8>, Seq<u8>)|
        #[trigger] pair_order()(p, q) && #[trigger] pair_order()(q, p) implies p == q by {
        if p.0 == q.0 {
            lemma_bytes_leq_antisymmetric(p.1, q.1);
        } else {
            lemma_bytes_leq_antisymmetric(p.0, q.0);
        }
    }
    assert forall|p: (Seq<u8>, Seq<u8>), q: (Seq<u8>, Seq<u8>)|
        #[trigger] pair_order()(p, q) || #[trigger] pair_order()(q, p) by {
        lemma_bytes_leq_total(p.0, q.0);
        lemma_bytes_leq_total(p.1, q.1);
    }
    assert forall|p: (Seq<u8>, Seq<u8>), q: (Seq<u8>, Seq<u8>), r: (Seq<u8>, Seq<u8>)|
        #[trigger] pair_order()(p, q) && #[trigger] pair_order()(q, r) implies pair_order()(
        p,
        r,
    ) by {
        if p.0 == q.0 && q.0 == r.0 {
            lemma_bytes_leq_transitive(p.1, q.1, r.1);
        } else if p.0 == q.0 || q.0 == r.0 {
        } else {
            lemma_bytes_leq_transitive(p.0, q.0, r.0);
            if p.0 == r.0 {
                lemma_bytes_leq_antisymmetric(p.0, q.0);
            }
        }
    }
}

/// A sorted arrangement of `s` is its canonical order.
pub proof fn lemma_sorted_is_canonical(s: Seq<(Seq<u8>, Seq<u8>)>, t: Seq<(Seq<u8>, Seq<u8>)>)
    requires
        sorted_by(t, pair_order()),
        t.to_multiset() == s.to_multiset(),
    ensures
        t == canonical_order(s),
{
    lemma_pair_order_total();
    s.lemma_sort_by_ensures(pair_order());
    vstd::seq_lib::lemma_sorted_unique(t, canonical_order(s), pair_order());
}

/// The canonical order depends on the multiset of parameters alone: the
/// order in which they were supplied does not matter.
pub proof fn lemma_canonical_order_permutation(a: Seq<(Seq<u8>, Seq<u8>)>, b: Seq<(Seq<u8>, Seq<u8>)>)
    requires
        a.to_multiset() == b.to_multiset(),
    ensures
        canonical_order(a) == canonical_order(b),
{
    lemma_pair_order_total();
    a.lemma_sort_by_ensures(pair_order());
    lemma_sorted_is_canonical(b, canonical_order(a));
}

/// Compares two byte strings lexicographically.
pub fn bytes_le(a: &Vec<u8>, b: &Vec<u8>) -> (r: bool)
    ensures
        r == bytes_leq(a@, b@),
{
    let mut i: usize = 0;
    assert(a@.skip(0) =~= a@);
    assert(b@.skip(0) =~= b@);
    while i < a.len() && i < b.len()
        invariant
            i <= a.len(),
            i <= b.len(),
            bytes_leq(a@, b@) == bytes_leq(a@.skip(i as int), b@.skip(i as int)),
        decreases a.len() - i,
    {
        if a[i] != b[i] {
            return a[i] < b[i];
        }
        assert(a@.skip(i as int).drop_first() =~= a@.skip(i + 1));
        assert(b@.skip(i as int).drop_first() =~= b@.skip(i + 1));
        i = i + 1;
    }
    i == a.len()
}

/// Compares two parameters: by key, then by value.
pub fn pair_le(p: &(Vec<u8>, Vec<u8>), q: &(Vec<u8>, Vec<u8>)) -> (r: bool)
    ensures
        r == pair_leq(p@, q@),
{
    let k1 = bytes_le(&p.0, &q.0);
    let k2 = bytes_le(&q.0, &p.0);
    proof {
        if k1 && k2 {
            lemma_bytes_leq_antisymmetric(p.0@, q.0@);
        }
        if p.0@ == q.0@ {
            lemma_bytes_leq_reflexive(p.0@);
        }
    }
    if k1 && k2 {
        bytes_le(&p.1, &q.1)
    } else {
        k1
    }
}

pub open spec fn pairs_view(v: Seq<(Vec<u8>, Vec<u8>)>) -> Seq<(Seq<u8>, Seq<u8>)> {
    v.map_values(|p: (Vec<u8>, Vec<u8>)| p@)
}

/// Sorts parameters into canonical order (insertion sort).
pub fn sort_pairs(v: Vec<(Vec<u8>, Vec<u8>)>) -> (r: Vec<(Vec<u8>, Vec<u8>)>)
    ensures
        pairs_view(r@) == canonical_order(pairs_view(v@)),
{
    let ghost orig = pairs_view(v@);
    let mut rest = v;
    let mut out: Vec<(Vec<u8>, Vec<u8>)> = Vec::new();
    proof {
        lemma_pair_order_total();
        assert(pairs_view(rest@) =~= orig);
        assert(pairs_view(out@).to_multiset() =~= Multiset::empty());
    }
    while rest.len() > 0
        invariant
            total_ordering(pair_order()),
            sorted_by(pairs_view(out@), pair_order()),
            pairs_view(out@).to_multiset().add(pairs_view(rest@).to_multiset()) == orig.to_multiset(),
        decreases rest.len(),
    {
        let ghost before_rest = pairs_view(rest@);
        let ghost before_out = pairs_view(out@);
        let x = rest.pop().unwrap();
        proof {
            assert(before_rest =~= pairs_view(rest@).push(x@));
            vstd::seq_lib::to_multiset_build(pairs_view(rest@), x@);
        }
        let mut j: usize = 0;
        while j < out.len() && pair_le(&out[j], &x)
            invariant
                j <= out.len(),
                pairs_view(out@) == before_out,
                forall|i: int| 0 <= i < j ==> pair_leq(#[trigger] before_out[i], x@),
            decreases out.len() - j,
        {
            j = j + 1;
        }
        proof {
            if j < out.len() {
                assert(!pair_leq(before_out[j as int], x@));
                assert(pair_order()(before_out[j as int], x@) || pair_order()(x@, before_out[j as int]));
                assert(pair_order()(x@, before_out[j as int]));
            }
        }
        out.insert(j, x);
        proof {
            let nv = pairs_view(out@);
            assert(nv =~= before_out.insert(j as int, x@));
            vstd::seq_lib::to_multiset_insert(before_out, j as int, x@);
            assert forall|a: int, b: int| 0 <= a < b < nv.len() implies #[trigger] pair_order()(
                nv[a],
                nv[b],
            ) by {
                if b < j {
                } else if a < j && b == j {
                    assert(pair_leq(before_out[a], x@));
                } else if a < j {
                    assert(pair_order()(before_out[a], before_out[b - 1]));
                } else if a == j {
                    assert(pair_order()(x@, before_out[j as int]));
                    if b - 1 > j {
                        assert(pair_order()(before_out[j as int], before_out[b - 1]));
                    }
                } else {
                    assert(pair_order()(before_out[a - 1], before_out[b - 1]));
                }
            }
            assert(nv.to_multiset().add(pairs_view(rest@).to_multiset()) =~= orig.to_multiset());
        }
    }
    proof {
        assert(pairs_view(rest@).to_multiset() =~= Multiset::empty());
        assert(pairs_view(out@).to_multiset() =~= orig.to_multiset());
        lemma_sorted_is_canonical(orig, pairs_view(out@));
    }
    out
}

} // verus!
