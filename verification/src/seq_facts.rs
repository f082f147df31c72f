//! Facts about sequences that the sorting and filtering proofs share.
use vstd::prelude::*;

verus! {

broadcast use vstd::seq_lib::group_to_multiset_ensures;

/// Mapping keeps two sequences with the same elements the same as multisets.
pub proof fn lemma_map_multiset<A, B>(s1: Seq<A>, s2: Seq<A>, f: spec_fn(A) -> B)
    requires
        s1.to_multiset() == s2.to_multiset(),
    ensures
        s1.map_values(f).to_multiset() == s2.map_values(f).to_multiset(),
    decreases s1.len(),
{
    broadcast use vstd::multiset::group_multiset_axioms;

    if s1.len() == 0 {
        assert(s2.to_multiset().len() == 0);
        assert(s2.len() == 0);
        assert(s1.map_values(f) =~= s2.map_values(f));
    } else {
        let a = s1[0];
        assert(s1.contains(a));
        assert(s2.to_multiset().count(a) > 0);
        assert(s2.contains(a));
        let j = choose|j: int| 0 <= j < s2.len() && s2[j] == a;
        let t1 = s1.remove(0);
        let t2 = s2.remove(j);
        assert(t1.to_multiset() == s1.to_multiset().remove(a));
        assert(t2.to_multiset() == s2.to_multiset().remove(a));
        lemma_map_multiset(t1, t2, f);
        let m1 = s1.map_values(f);
        let m2 = s2.map_values(f);
        assert(m1.remove(0) =~= t1.map_values(f));
        assert(m2.remove(j) =~= t2.map_values(f));
        assert(m1.remove(0).to_multiset() == m1.to_multiset().remove(f(a)));
        assert(m2.remove(j).to_multiset() == m2.to_multiset().remove(f(a)));
        assert(m1.contains(f(a))) by {
            assert(m1[0] == f(a));
        }
        assert(m2.contains(f(a))) by {
            assert(m2[j] == f(a));
        }
        assert(m1.to_multiset() =~= m1.to_multiset().remove(f(a)).insert(f(a)));
        assert(m2.to_multiset() =~= m2.to_multiset().remove(f(a)).insert(f(a)));
    }
}

/// A sequence with the same elements as one without duplicates has none either,
/// and holds the same set.
pub proof fn lemma_multiset_no_dup<A>(s1: Seq<A>, s2: Seq<A>)
    requires
        s1.to_multiset() == s2.to_multiset(),
        s1.no_duplicates(),
    ensures
        s2.no_duplicates(),
        s1.to_set() == s2.to_set(),
{
    broadcast use vstd::multiset::group_multiset_axioms;

    s1.lemma_multiset_has_no_duplicates();
    assert forall|i: int, j: int| 0 <= i < s2.len() && 0 <= j < s2.len() && i != j implies s2[i]
        != s2[j] by {
        if s2[i] == s2[j] {
            let x = s2[i];
            assert(s2.contains(x));
            let r = s2.remove(i);
            assert(r.to_multiset() == s2.to_multiset().remove(x));
            let j2 = if j < i {
                j
            } else {
                j - 1
            };
            assert(r[j2] == x);
            assert(r.contains(x));
            assert(r.to_multiset().count(x) > 0);
            assert(s2.to_multiset().count(x) >= 2);
            assert(s1.to_multiset().contains(x));
        }
    }
    assert forall|x: A| s1.to_set().contains(x) == s2.to_set().contains(x) by {
        assert(s1.contains(x) == (s1.to_multiset().count(x) > 0));
        assert(s2.contains(x) == (s2.to_multiset().count(x) > 0));
    }
    assert(s1.to_set() =~= s2.to_set());
}

/// The elements of `v` in the opposite order.
pub fn reversed<T>(v: Vec<T>) -> (r: Vec<T>)
    ensures
        r.len() == v.len(),
        forall|j: int| 0 <= j < r.len() ==> r@[j] == v@[v.len() - 1 - j],
{
    let ghost orig = v@;
    let mut rest = v;
    let mut r: Vec<T> = Vec::new();
    while rest.len() > 0
        invariant
            rest.len() + r.len() == orig.len(),
            forall|j: int| 0 <= j < rest.len() ==> rest@[j] == orig[j],
            forall|j: int| 0 <= j < r.len() ==> r@[j] == orig[orig.len() - 1 - j],
        decreases rest.len(),
    {
        let x = rest.pop().unwrap();
        r.push(x);
    }
    r
}

} // verus!
