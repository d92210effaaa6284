//! Ordering reports by due date: a stable sort, with undated items first.
use vstd::prelude::*;

use crate::date::Date;

verus! {

/// Dates in calendar order, an absent date before every date.
pub open spec fn due_le(a: Option<Date>, b: Option<Date>) -> bool {
    match (a, b) {
        (None, _) => true,
        (Some(_), None) => false,
        (Some(x), Some(y)) => {
            let (p, q) = (x.ymd(), y.ymd());
            p.0 < q.0 || (p.0 == q.0 && (p.1 < q.1 || (p.1 == q.1 && p.2 <= q.2)))
        },
    }
}

pub fn due_before_or_same(a: &Option<Date>, b: &Option<Date>) -> (r: bool)
    ensures
        r == due_le(*a, *b),
{
    match (a, b) {
        (None, _) => true,
        (Some(_), None) => false,
        (Some(x), Some(y)) => {
            let (p0, p1, p2) = (x.year(), x.month(), x.day());
            let (q0, q1, q2) = (y.year(), y.month(), y.day());
            p0 < q0 || (p0 == q0 && (p1 < q1 || (p1 == q1 && p2 <= q2)))
        },
    }
}

/// `order` lists each index below `n` once.
pub open spec fn is_permutation(order: Seq<usize>, n: int) -> bool {
    &&& order.len() == n
    &&& forall|i: int| 0 <= i < n ==> (#[trigger] order[i]) < n
    &&& forall|i: int, j: int| 0 <= i < j < n ==> order[i] != order[j]
}

/// Following `order`, the keys never go down, and items with equal keys keep their order.
pub open spec fn stably_sorted(keys: Seq<Option<Date>>, order: Seq<usize>) -> bool {
    forall|i: int, j: int|
        0 <= i < j < order.len() ==> {
            &&& due_le(keys[#[trigger] order[i] as int], keys[#[trigger] order[j] as int])
            &&& (due_le(keys[order[j] as int], keys[order[i] as int]) ==> order[i] < order[j])
        }
}

proof fn lemma_due_le_trans(a: Option<Date>, b: Option<Date>, c: Option<Date>)
    requires
        due_le(a, b),
        due_le(b, c),
    ensures
        due_le(a, c),
{
}

proof fn lemma_due_le_total(a: Option<Date>, b: Option<Date>)
    ensures
        due_le(a, b) || due_le(b, a),
{
}

/// The order in which to list items with these due dates: by date, undated first, items with
/// the same date (or none) in the order given.
pub fn due_order(keys: &Vec<Option<Date>>) -> (r: Vec<usize>)
    ensures
        is_permutation(r@, keys@.len() as int),
        stably_sorted(keys@, r@),
{
    let mut out: Vec<usize> = Vec::new();
    let mut k: usize = 0;
    while k < keys.len()
        invariant
            k <= keys@.len(),
            out@.len() == k,
            forall|i: int| 0 <= i < k ==> (#[trigger] out@[i]) < k,
            forall|i: int, j: int| 0 <= i < j < k ==> out@[i] != out@[j],
            stably_sorted(keys@, out@),
        decreases keys@.len() - k,
    {
        let mut p = out.len();
        while p > 0 && !due_before_or_same(&keys[out[p - 1]], &keys[k])
            invariant
                p <= out@.len(),
                out@.len() == k,
                k < keys@.len(),
                forall|i: int| 0 <= i < k ==> (#[trigger] out@[i]) < k,
                forall|q: int| p <= q < out@.len() ==> !due_le(keys@[out@[q] as int], keys@[k as int]),
            decreases p,
        {
            p = p - 1;
        }
        let ghost s = out@;
        let ghost kk = k as int;
        proof {
            assert forall|q: int| 0 <= q < p implies due_le(keys@[s[q] as int], keys@[kk]) by {
                if q < p - 1 {
                    assert(due_le(keys@[s[q] as int], keys@[s[p - 1] as int]));
                    lemma_due_le_trans(keys@[s[q] as int], keys@[s[p - 1] as int], keys@[kk]);
                }
            }
            assert forall|q: int| p <= q < s.len() implies !due_le(keys@[s[q] as int], keys@[kk])
                && due_le(keys@[kk], keys@[s[q] as int]) by {
                lemma_due_le_total(keys@[s[q] as int], keys@[kk]);
            }
        }
        out.insert(p, k);
        proof {
            let t = out@;
            assert(t =~= s.insert(p as int, k));
            assert forall|i: int| 0 <= i < k + 1 implies (#[trigger] t[i]) < k + 1 by {
                if i < p {
                    assert(t[i] == s[i]);
                } else if i > p {
                    assert(t[i] == s[i - 1]);
                }
            }
            assert forall|i: int, j: int| 0 <= i < j < k + 1 implies t[i] != t[j] by {
                if i < p && j > p {
                    assert(t[i] == s[i] && t[j] == s[j - 1]);
                } else if i > p {
                    assert(t[i] == s[i - 1] && t[j] == s[j - 1]);
                } else if j < p {
                    assert(t[i] == s[i] && t[j] == s[j]);
                } else if i == p {
                    assert(t[j] == s[j - 1]);
                } else {
                    assert(t[i] == s[i]);
                }
            }
            assert forall|i: int, j: int| 0 <= i < j < t.len() implies {
                &&& due_le(keys@[#[trigger] t[i] as int], keys@[#[trigger] t[j] as int])
                &&& (due_le(keys@[t[j] as int], keys@[t[i] as int]) ==> t[i] < t[j])
            } by {
                if i < p && j < p {
                    assert(t[i] == s[i] && t[j] == s[j]);
                } else if i < p && j == p {
                    assert(t[i] == s[i]);
                } else if i < p && j > p {
                    assert(t[i] == s[i] && t[j] == s[j - 1]);
                    assert(due_le(keys@[s[i] as int], keys@[s[j - 1] as int]));
                } else if i == p {
                    assert(t[j] == s[j - 1]);
                } else {
                    assert(t[i] == s[i - 1] && t[j] == s[j - 1]);
                }
            }
        }
        k = k + 1;
    }
    out
}

} // verus!
