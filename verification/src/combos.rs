//! Lexicographic enumeration of index combinations, as produced by
//! `itertools::Itertools::combinations` over a range of positions.
use itertools::Itertools;
use vstd::prelude::*;

verus! {

/// `c` picks `k` distinct positions below `n`, listed in increasing order.
pub open spec fn is_combination(c: Seq<usize>, n: nat, k: nat) -> bool {
    &&& c.len() == k
    &&& forall|i: int| 0 <= i < c.len() ==> #[trigger] c[i] < n
    &&& forall|i: int, j: int| 0 <= i < j < c.len() ==> c[i] < c[j]
}

/// Strict lexicographic order on index sequences.
pub open spec fn lex_lt(a: Seq<usize>, b: Seq<usize>) -> bool {
    exists|i: int|
        #![trigger a[i], b[i]]
        0 <= i < a.len() && i < b.len() && a[i] < b[i] && (forall|j: int|
            0 <= j < i ==> a[j] == b[j])
}

/// `s` lists every `k`-combination of positions below `n` exactly once, in
/// strictly increasing lexicographic order.
pub open spec fn all_combinations_in_order(s: Seq<Seq<usize>>, n: nat, k: nat) -> bool {
    &&& forall|i: int| 0 <= i < s.len() ==> is_combination(#[trigger] s[i], n, k)
    &&& forall|c: Seq<usize>| is_combination(c, n, k) ==> #[trigger] s.contains(c)
    &&& forall|i: int, j: int| 0 <= i < j < s.len() ==> lex_lt(#[trigger] s[i], #[trigger] s[j])
}

/// No sequence precedes itself, and two sequences cannot precede each other.
pub proof fn lemma_lex_lt_asymmetric(a: Seq<usize>, b: Seq<usize>)
    ensures
        !(lex_lt(a, b) && lex_lt(b, a)),
        !lex_lt(a, a),
{
    if lex_lt(a, b) && lex_lt(b, a) {
        let i = choose|i: int|
            #![trigger a[i], b[i]]
            0 <= i < a.len() && i < b.len() && a[i] < b[i] && (forall|j: int|
                0 <= j < i ==> a[j] == b[j]);
        let k = choose|k: int|
            #![trigger b[k], a[k]]
            0 <= k < b.len() && k < a.len() && b[k] < a[k] && (forall|j: int|
                0 <= j < k ==> b[j] == a[j]);
        if i < k {
            assert(b[i] == a[i]);
        } else if k < i {
            assert(a[k] == b[k]);
        }
    }
}

/// A lazily advancing enumeration of the `k`-combinations of `0..n`.
#[verifier::external_body]
pub struct IndexCombinations {
    iter: itertools::Combinations<std::ops::Range<usize>>,
}

/// The combinations that the enumeration has yet to hand out, in order.
pub uninterp spec fn pending_combinations(c: IndexCombinations) -> Seq<Seq<usize>>;

/// `(0..n).combinations(k)`: an enumeration that will hand out every
/// `k`-combination of the positions `0..n` once, in lexicographic order
/// (itertools increments the index vector from the right, starting at
/// `[0, 1, .., k - 1]`; with `k > n` it hands out nothing).
#[verifier::external_body]
pub(crate) fn index_combinations(n: usize, k: usize) -> (c: IndexCombinations)
    ensures
        all_combinations_in_order(pending_combinations(c), n as nat, k as nat),
{
    IndexCombinations { iter: (0..n).combinations(k) }
}

/// `Iterator::next` on the enumeration: hands out the first pending
/// combination and drops it from the pending ones, or `None` once none is
/// left.
#[verifier::external_body]
pub(crate) fn next_combination(c: &mut IndexCombinations) -> (r: Option<Vec<usize>>)
    ensures
        pending_combinations(*old(c)).len() == 0 ==> r is None,
        pending_combinations(*old(c)).len() > 0 ==> {
            &&& r is Some
            &&& r->0@ == pending_combinations(*old(c))[0]
            &&& pending_combinations(*final(c)) == pending_combinations(*old(c)).drop_first()
        },
{
    c.iter.next()
}

} // verus!
