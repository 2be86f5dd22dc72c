//! The orderings of the report: every table is sorted by a rank, then by
//! name.
use vstd::prelude::*;
use crate::text::{lemma_text_lt_irreflexive, lemma_text_lt_transitive, text_less, text_lt};

verus! {

broadcast use vstd::std_specs::vec::group_vec_axioms, vstd::seq_lib::group_to_multiset_ensures;

/// The sort key of an item: its rank, then its name.
pub open spec fn key_of<T>(x: (u64, String, T)) -> (u64, Seq<char>) {
    (x.0, x.1@)
}

/// Whether key `a` sorts strictly before key `b`.
pub open spec fn key_lt(a: (u64, Seq<char>), b: (u64, Seq<char>)) -> bool {
    a.0 < b.0 || (a.0 == b.0 && text_lt(a.1, b.1))
}

/// No item sorts strictly before an earlier one.
pub open spec fn sorted_by_key<T>(s: Seq<(u64, String, T)>) -> bool {
    forall|i: int, j: int| 0 <= i < j < s.len() ==> !key_lt(key_of(s[j]), key_of(s[i]))
}

proof fn lemma_key_lt_transitive(a: (u64, Seq<char>), b: (u64, Seq<char>), c: (u64, Seq<char>))
    requires
        key_lt(a, b),
        key_lt(b, c),
    ensures
        key_lt(a, c),
{
    if a.0 == b.0 && b.0 == c.0 {
        lemma_text_lt_transitive(a.1, b.1, c.1);
    }
}

/// Whether `a` sorts strictly before `b`.
fn key_less<T>(a: &(u64, String, T), b: &(u64, String, T)) -> (r: bool)
    ensures
        r == key_lt(key_of(*a), key_of(*b)),
{
    if a.0 != b.0 {
        a.0 < b.0
    } else {
        text_less(a.1.as_str(), b.1.as_str())
    }
}

/// Sorts items by rank, then name.
pub fn sort_by_key<T>(items: Vec<(u64, String, T)>) -> (r: Vec<(u64, String, T)>)
    ensures
        sorted_by_key(r@),
        r@.to_multiset() == items@.to_multiset(),
{
    let ghost orig = items@;
    let mut out: Vec<(u64, String, T)> = Vec::new();
    let mut src = reversed(items);
    proof {
        orig.lemma_reverse_to_multiset();
    }
    while src.len() > 0
        invariant
            sorted_by_key(out@),
            out@.to_multiset().add(src@.to_multiset()) == orig.to_multiset(),
        decreases src@.len(),
    {
        let ghost before = src@;
        let x = src.pop().unwrap();
        proof {
            assert(before =~= src@.push(x));
        }
        let mut p: usize = 0;
        while p < out.len() && !key_less(&x, &out[p])
            invariant
                p <= out@.len(),
                forall|k: int| 0 <= k < p ==> !key_lt(key_of(x), key_of(out@[k])),
            decreases out@.len() - p,
        {
            p = p + 1;
        }
        let ghost old_out = out@;
        out.insert(p, x);
        proof {
            assert forall|i: int, j: int| 0 <= i < j < out@.len() implies !key_lt(
                key_of(out@[j]),
                key_of(out@[i]),
            ) by {
                if i < p as int && j == p as int {
                } else if i == p as int && j > p as int {
                    if key_lt(key_of(out@[j]), key_of(x)) {
                        lemma_key_lt_transitive(key_of(out@[j]), key_of(x), key_of(old_out[p as int]));
                        if j - 1 == p as int {
                            lemma_text_lt_irreflexive(key_of(old_out[p as int]).1);
                        }
                    }
                } else {
                    let oi = if i < p as int { i } else { i - 1 };
                    let oj = if j < p as int { j } else { j - 1 };
                    assert(out@[i] == old_out[oi]);
                    assert(out@[j] == old_out[oj]);
                }
            }
        }
    }
    out
}

/// The items of a vector in reverse order.
pub(crate) fn reversed<T>(v: Vec<T>) -> (r: Vec<T>)
    ensures
        r@.len() == v@.len(),
        forall|k: int| 0 <= k < r@.len() ==> #[trigger] r@[k] == v@[v@.len() - 1 - k],
        r@ == v@.reverse(),
{
    let ghost orig = v@;
    let mut rest = v;
    let mut out: Vec<T> = Vec::new();
    while rest.len() > 0
        invariant
            rest@.len() + out@.len() == orig.len(),
            rest@ == orig.subrange(0, rest@.len() as int),
            forall|k: int| 0 <= k < out@.len() ==> #[trigger] out@[k] == orig[orig.len() - 1 - k],
        decreases rest@.len(),
    {
        let x = rest.pop().unwrap();
        out.push(x);
        proof {
            assert(rest@ =~= orig.subrange(0, rest@.len() as int));
        }
    }
    assert(out@ =~= orig.reverse());
    out
}

} // verus!
