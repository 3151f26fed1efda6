use vstd::prelude::*;
use crate::text::{lex_le, lemma_lex_le_total, lemma_lex_le_trans, str_le};

verus! {

broadcast use vstd::seq_lib::group_to_multiset_ensures;

/// A total order, with an executable comparison that agrees with it.
pub trait TotalOrder: Sized {
    spec fn le(self, other: Self) -> bool;

    proof fn lemma_total(a: Self, b: Self)
        ensures
            a.le(b) || b.le(a),
    ;

    proof fn lemma_trans(a: Self, b: Self, c: Self)
        requires
            a.le(b),
            b.le(c),
        ensures
            a.le(c),
    ;

    fn is_le(&self, other: &Self) -> (r: bool)
        ensures
            r == self.le(*other),
    ;
}

/// Every element is at most every later one.
pub open spec fn sorted<T: TotalOrder>(s: Seq<T>) -> bool {
    forall|i: int, j: int| 0 <= i < j < s.len() ==> s[i].le(s[j])
}

/// The elements of `v` in ascending order.
pub fn sort_vec<T: TotalOrder>(v: Vec<T>) -> (r: Vec<T>)
    ensures
        sorted(r@),
        r@.to_multiset() == v@.to_multiset(),
{
    let mut src = v;
    let mut out: Vec<T> = Vec::new();
    while src.len() > 0
        invariant
            sorted(out@),
            out@.to_multiset().add(src@.to_multiset()) == v@.to_multiset(),
        decreases src@.len(),
    {
        let ghost src0 = src@;
        let x = src.remove(0);
        let mut j: usize = 0;
        while j < out.len() && out[j].is_le(&x)
            invariant
                j <= out@.len(),
                forall|k: int| 0 <= k < j ==> (#[trigger] out@[k]).le(x),
            decreases out@.len() - j,
        {
            j = j + 1;
        }
        let ghost out0 = out@;
        proof {
            if j < out0.len() {
                T::lemma_total(out0[j as int], x);
                assert forall|k: int| j <= k < out0.len() implies x.le(#[trigger] out0[k]) by {
                    if k > j {
                        T::lemma_trans(x, out0[j as int], out0[k]);
                    }
                }
            }
        }
        out.insert(j, x);
        proof {
            out0.insert_ensures(j as int, x);
            assert forall|a: int, b: int| 0 <= a < b < out@.len() implies out@[a].le(out@[b]) by {
                if b < j {
                } else if a < j && b == j {
                } else if a < j {
                    assert(out@[b] == out0[b - 1]);
                    T::lemma_trans(out@[a], x, out0[b - 1]);
                } else if a == j {
                    assert(out@[b] == out0[b - 1]);
                } else {
                    assert(out@[a] == out0[a - 1]);
                    assert(out@[b] == out0[b - 1]);
                }
            }
            assert(src0.remove(0).to_multiset() == src0.to_multiset().remove(x));
            assert(src0.to_multiset().count(x) > 0) by {
                assert(src0.contains(x)) by {
                    assert(src0[0] == x);
                }
            }
            assert(out@.to_multiset() == out0.to_multiset().insert(x));
            assert(out@.to_multiset().add(src@.to_multiset()) =~= out0.to_multiset().add(
                src0.to_multiset(),
            ));
        }
    }
    proof {
        assert(src@.to_multiset() =~= vstd::multiset::Multiset::empty());
        assert(out@.to_multiset().add(src@.to_multiset()) =~= out@.to_multiset());
    }
    out
}

/// Sorts `v` in place.
pub fn sort_in_place<T: TotalOrder>(v: &mut Vec<T>)
    ensures
        sorted(final(v)@),
        final(v)@.to_multiset() == old(v)@.to_multiset(),
{
    let mut tmp: Vec<T> = Vec::new();
    std::mem::swap(v, &mut tmp);
    *v = sort_vec(tmp);
}

impl TotalOrder for String {
    open spec fn le(self, other: Self) -> bool {
        lex_le(self@, other@)
    }

    proof fn lemma_total(a: Self, b: Self) {
        lemma_lex_le_total(a@, b@);
    }

    proof fn lemma_trans(a: Self, b: Self, c: Self) {
        lemma_lex_le_trans(a@, b@, c@);
    }

    fn is_le(&self, other: &Self) -> (r: bool) {
        str_le(self.as_str(), other.as_str())
    }
}

} // verus!
