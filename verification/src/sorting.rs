//! Sorting by a total preorder, keeping every element.
use vstd::prelude::*;
use vstd::multiset::Multiset;

verus! {

broadcast use vstd::seq_lib::group_to_multiset_ensures;

/// A total preorder on `T`, with an executable comparison.
pub trait SortOrder<T> {
    spec fn leq(&self, a: T, b: T) -> bool;

    fn leq_exec(&self, a: &T, b: &T) -> (r: bool)
        ensures
            r == self.leq(*a, *b),
    ;

    proof fn lemma_total(&self, a: T, b: T)
        ensures
            self.leq(a, b) || self.leq(b, a),
    ;

    proof fn lemma_trans(&self, a: T, b: T, c: T)
        requires
            self.leq(a, b),
            self.leq(b, c),
        ensures
            self.leq(a, c),
    ;
}

/// Every element is at most every later one.
pub open spec fn sorted_by<T, O: SortOrder<T>>(o: &O, s: Seq<T>) -> bool {
    forall|i: int, j: int| 0 <= i < j < s.len() ==> o.leq(#[trigger] s[i], #[trigger] s[j])
}

/// `r` is `v` rearranged by the positions `p`: `r[k]` is `v[p[k]]`, each
/// position of `v` used once, and of two elements where the later one is at
/// most the earlier one by `leq`, the earlier one came first in `v` too.
pub open spec fn stable_rearrangement<T, O: SortOrder<T>>(
    o: &O,
    v: Seq<T>,
    r: Seq<T>,
    p: Seq<int>,
) -> bool {
    &&& p.len() == v.len()
    &&& r.len() == v.len()
    &&& forall|k: int| 0 <= k < p.len() ==> 0 <= #[trigger] p[k] < v.len() && r[k] == v[p[k]]
    &&& forall|a: int, b: int| 0 <= a < b < p.len() ==> #[trigger] p[a] != #[trigger] p[b]
    &&& forall|a: int, b: int|
        0 <= a < b < p.len() && o.leq(#[trigger] r[b], #[trigger] r[a]) ==> p[a] < p[b]
}

/// Sorts `v` by `o`: the result holds the same elements, in order.
/// Elements that compare equal keep their relative order.
pub fn sort_by_order<T, O: SortOrder<T>>(v: Vec<T>, o: &O) -> (r: Vec<T>)
    ensures
        r@.to_multiset() == v@.to_multiset(),
        sorted_by(o, r@),
        exists|p: Seq<int>| #[trigger] stable_rearrangement(o, v@, r@, p),
{
    let ghost orig = v@;
    let mut rest = v;
    let mut out: Vec<T> = Vec::new();
    let ghost mut pos: Seq<int> = Seq::empty();
    while rest.len() > 0
        invariant
            rest@.to_multiset().add(out@.to_multiset()) == orig.to_multiset(),
            sorted_by(o, out@),
            rest@ == orig.take(rest@.len() as int),
            rest@.len() <= orig.len(),
            pos.len() == out@.len(),
            pos.len() + rest@.len() == orig.len(),
            forall|k: int|
                0 <= k < pos.len() ==> rest@.len() <= #[trigger] pos[k] < orig.len() && out@[k]
                    == orig[pos[k]],
            forall|a: int, b: int| 0 <= a < b < pos.len() ==> #[trigger] pos[a] != #[trigger] pos[b],
            forall|a: int, b: int|
                0 <= a < b < pos.len() && o.leq(#[trigger] out@[b], #[trigger] out@[a]) ==> pos[a]
                    < pos[b],
        decreases rest.len(),
    {
        let ghost old_rest = rest@;
        let ghost old_out = out@;
        let ghost old_pos = pos;
        let x = rest.pop().unwrap();
        let ghost m = rest@.len() as int;
        proof {
            assert(old_rest =~= rest@.push(x));
            assert(rest@ =~= orig.take(m));
            assert(x == orig[m]);
        }
        // The first position whose element is not below `x`.
        let n = out.len();
        let mut j: usize = 0;
        while j < n && !o.leq_exec(&x, &out[j])
            invariant
                n == out.len(),
                j <= n,
                out@ == old_out,
                forall|k: int| 0 <= k < j ==> !o.leq(x, #[trigger] out@[k]),
            decreases n - j,
        {
            j = j + 1;
        }
        out.insert(j, x);
        proof {
            let s = out@;
            assert(s =~= old_out.insert(j as int, x));
            pos = old_pos.insert(j as int, m);
            assert forall|k: int| 0 <= k < pos.len() implies rest@.len() <= #[trigger] pos[k]
                < orig.len() && out@[k] == orig[pos[k]] by {
                if k < j {
                    assert(pos[k] == old_pos[k]);
                } else if k > j {
                    assert(pos[k] == old_pos[k - 1]);
                }
            }
            assert forall|a: int, b: int| 0 <= a < b < pos.len() implies #[trigger] pos[a]
                != #[trigger] pos[b] by {
                if a < j && b < j {
                } else if a < j && b == j {
                    assert(old_pos[a] >= m + 1);
                } else if a < j {
                    assert(pos[b] == old_pos[b - 1]);
                } else if a == j {
                    assert(pos[b] == old_pos[b - 1]);
                    assert(old_pos[b - 1] >= m + 1);
                } else {
                    assert(pos[a] == old_pos[a - 1] && pos[b] == old_pos[b - 1]);
                }
            }
            assert forall|a: int, b: int|
                0 <= a < b < pos.len() && o.leq(#[trigger] s[b], #[trigger] s[a]) implies pos[a]
                < pos[b] by {
                if a < j && b < j {
                    assert(s[a] == old_out[a] && s[b] == old_out[b]);
                } else if a < j && b == j {
                    assert(s[a] == old_out[a]);
                    assert(!o.leq(x, old_out[a]));
                } else if a < j {
                    assert(s[a] == old_out[a] && s[b] == old_out[b - 1]);
                    assert(pos[b] == old_pos[b - 1]);
                } else if a == j {
                    assert(pos[b] == old_pos[b - 1]);
                    assert(old_pos[b - 1] >= m + 1);
                } else {
                    assert(s[a] == old_out[a - 1] && s[b] == old_out[b - 1]);
                    assert(pos[a] == old_pos[a - 1] && pos[b] == old_pos[b - 1]);
                }
            }
            assert forall|a: int, b: int| 0 <= a < b < s.len() implies o.leq(
                #[trigger] s[a],
                #[trigger] s[b],
            ) by {
                if a < j && b < j {
                    assert(s[a] == old_out[a] && s[b] == old_out[b]);
                } else if a < j && b == j {
                    o.lemma_total(x, old_out[a]);
                } else if a < j && b > j {
                    assert(s[a] == old_out[a] && s[b] == old_out[b - 1]);
                } else if a == j {
                    // b > j: out[j] (old) is at least x, and the rest is sorted after it.
                    assert(j < n);
                    assert(o.leq(x, old_out[j as int]));
                    if b - 1 > j {
                        assert(o.leq(old_out[j as int], old_out[b - 1]));
                        o.lemma_trans(x, old_out[j as int], old_out[b - 1]);
                    }
                } else {
                    assert(s[a] == old_out[a - 1] && s[b] == old_out[b - 1]);
                }
            }
        }
    }
    proof {
        assert(rest@.to_multiset() =~= Multiset::empty());
        assert(out@.to_multiset() =~= orig.to_multiset());
        assert(stable_rearrangement(o, orig, out@, pos));
    }
    out
}

/// A total relation on `T` (any two elements compare one way or the other),
/// with an executable comparison.
pub trait TotalRelation<T> {
    spec fn leq(&self, a: T, b: T) -> bool;

    fn leq_exec(&self, a: &T, b: &T) -> (r: bool)
        ensures
            r == self.leq(*a, *b),
    ;

    proof fn lemma_total(&self, a: T, b: T)
        ensures
            self.leq(a, b) || self.leq(b, a),
    ;
}

/// Each element is at most the next one.
pub open spec fn adjacent_sorted<T, O: TotalRelation<T>>(o: &O, s: Seq<T>) -> bool {
    forall|i: int| 0 <= i < s.len() - 1 ==> o.leq(#[trigger] s[i], s[i + 1])
}

/// As `stable_rearrangement`, for a total relation.
pub open spec fn stable_rearrangement_by<T, O: TotalRelation<T>>(
    o: &O,
    v: Seq<T>,
    r: Seq<T>,
    p: Seq<int>,
) -> bool {
    &&& p.len() == v.len()
    &&& r.len() == v.len()
    &&& forall|k: int| 0 <= k < p.len() ==> 0 <= #[trigger] p[k] < v.len() && r[k] == v[p[k]]
    &&& forall|a: int, b: int| 0 <= a < b < p.len() ==> #[trigger] p[a] != #[trigger] p[b]
    &&& forall|a: int, b: int|
        0 <= a < b < p.len() && o.leq(#[trigger] r[b], #[trigger] r[a]) ==> p[a] < p[b]
}

/// Sorts `v` by a total relation: the result holds the same elements, each
/// at most the next. Elements that compare equal keep their relative order.
pub fn sort_by_relation<T, O: TotalRelation<T>>(v: Vec<T>, o: &O) -> (r: Vec<T>)
    ensures
        r@.to_multiset() == v@.to_multiset(),
        adjacent_sorted(o, r@),
        exists|p: Seq<int>| #[trigger] stable_rearrangement_by(o, v@, r@, p),
{
    let ghost orig = v@;
    let mut rest = v;
    let mut out: Vec<T> = Vec::new();
    let ghost mut pos: Seq<int> = Seq::empty();
    while rest.len() > 0
        invariant
            rest@.to_multiset().add(out@.to_multiset()) == orig.to_multiset(),
            adjacent_sorted(o, out@),
            rest@ == orig.take(rest@.len() as int),
            rest@.len() <= orig.len(),
            pos.len() == out@.len(),
            pos.len() + rest@.len() == orig.len(),
            forall|k: int|
                0 <= k < pos.len() ==> rest@.len() <= #[trigger] pos[k] < orig.len() && out@[k]
                    == orig[pos[k]],
            forall|a: int, b: int| 0 <= a < b < pos.len() ==> #[trigger] pos[a] != #[trigger] pos[b],
            forall|a: int, b: int|
                0 <= a < b < pos.len() && o.leq(#[trigger] out@[b], #[trigger] out@[a]) ==> pos[a]
                    < pos[b],
        decreases rest.len(),
    {
        let ghost old_rest = rest@;
        let ghost old_out = out@;
        let ghost old_pos = pos;
        let x = rest.pop().unwrap();
        let ghost m = rest@.len() as int;
        proof {
            assert(old_rest =~= rest@.push(x));
            assert(rest@ =~= orig.take(m));
            assert(x == orig[m]);
        }
        let n = out.len();
        let mut j: usize = 0;
        while j < n && !o.leq_exec(&x, &out[j])
            invariant
                n == out.len(),
                j <= n,
                out@ == old_out,
                forall|k: int| 0 <= k < j ==> !o.leq(x, #[trigger] out@[k]),
            decreases n - j,
        {
            j = j + 1;
        }
        out.insert(j, x);
        proof {
            let s = out@;
            assert(s =~= old_out.insert(j as int, x));
            pos = old_pos.insert(j as int, m);
            assert forall|k: int| 0 <= k < pos.len() implies rest@.len() <= #[trigger] pos[k]
                < orig.len() && out@[k] == orig[pos[k]] by {
                if k < j {
                    assert(pos[k] == old_pos[k]);
                } else if k > j {
                    assert(pos[k] == old_pos[k - 1]);
                }
            }
            assert forall|a: int, b: int| 0 <= a < b < pos.len() implies #[trigger] pos[a]
                != #[trigger] pos[b] by {
                if a < j && b < j {
                } else if a < j && b == j {
                    assert(old_pos[a] >= m + 1);
                } else if a < j {
                    assert(pos[b] == old_pos[b - 1]);
                } else if a == j {
                    assert(pos[b] == old_pos[b - 1]);
                    assert(old_pos[b - 1] >= m + 1);
                } else {
                    assert(pos[a] == old_pos[a - 1] && pos[b] == old_pos[b - 1]);
                }
            }
            assert forall|a: int, b: int|
                0 <= a < b < pos.len() && o.leq(#[trigger] s[b], #[trigger] s[a]) implies pos[a]
                < pos[b] by {
                if a < j && b < j {
                    assert(s[a] == old_out[a] && s[b] == old_out[b]);
                } else if a < j && b == j {
                    assert(s[a] == old_out[a]);
                    assert(!o.leq(x, old_out[a]));
                } else if a < j {
                    assert(s[a] == old_out[a] && s[b] == old_out[b - 1]);
                    assert(pos[b] == old_pos[b - 1]);
                } else if a == j {
                    assert(pos[b] == old_pos[b - 1]);
                    assert(old_pos[b - 1] >= m + 1);
                } else {
                    assert(s[a] == old_out[a - 1] && s[b] == old_out[b - 1]);
                    assert(pos[a] == old_pos[a - 1] && pos[b] == old_pos[b - 1]);
                }
            }
            assert forall|a: int| 0 <= a < s.len() - 1 implies o.leq(#[trigger] s[a], s[a + 1]) by {
                if a + 1 < j {
                    assert(s[a] == old_out[a] && s[a + 1] == old_out[a + 1]);
                } else if a + 1 == j {
                    assert(s[a] == old_out[a]);
                    o.lemma_total(x, old_out[a]);
                } else if a == j {
                    assert(s[a + 1] == old_out[j as int]);
                } else {
                    assert(s[a] == old_out[a - 1] && s[a + 1] == old_out[a]);
                }
            }
        }
    }
    proof {
        assert(rest@.to_multiset() =~= Multiset::empty());
        assert(out@.to_multiset() =~= orig.to_multiset());
        assert(stable_rearrangement_by(o, orig, out@, pos));
    }
    out
}

} // verus!
