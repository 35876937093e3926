//! Stable sorting by string keys, as an arrangement of positions.

use vstd::prelude::*;
use crate::text::{lex_less, str_less, lemma_lex_less_asymmetric, lemma_lex_less_chain,
    lemma_lex_less_total, lemma_lex_less_transitive};

verus! {

/// The character sequences of a list of strings.
pub open spec fn key_views(keys: Seq<String>) -> Seq<Seq<char>> {
    Seq::new(keys.len(), |i: int| keys[i]@)
}

/// Whether key `a` has to stand strictly before key `b` in the chosen direction.
pub open spec fn before(a: Seq<char>, b: Seq<char>, descending: bool) -> bool {
    if descending {
        lex_less(b, a)
    } else {
        lex_less(a, b)
    }
}

/// Whether `order` names the position `x`.
pub open spec fn names_position(order: Seq<usize>, x: int) -> bool {
    exists|i: int| 0 <= i < order.len() && #[trigger] order[i] == x
}

/// `order` arranges the first `n` positions of `keys`: it names each of them
/// once, no key stands after one that it has to precede, and keys that tie
/// keep the order of their positions.
pub open spec fn arranges_prefix(
    keys: Seq<Seq<char>>,
    descending: bool,
    order: Seq<usize>,
    n: int,
) -> bool {
    &&& order.len() == n
    &&& n <= keys.len()
    &&& forall|i: int| 0 <= i < n ==> 0 <= #[trigger] order[i] < n
    &&& forall|i: int, j: int| 0 <= i < j < n ==> #[trigger] order[i] != #[trigger] order[j]
    &&& forall|x: int| 0 <= x < n ==> #[trigger] names_position(order, x)
    &&& forall|i: int, j: int|
        0 <= i < j < n ==> !before(
            keys[#[trigger] order[j] as int],
            keys[#[trigger] order[i] as int],
            descending,
        )
    &&& forall|i: int, j: int|
        0 <= i < j < n && !before(
            keys[#[trigger] order[i] as int],
            keys[#[trigger] order[j] as int],
            descending,
        ) ==> order[i] < order[j]
}

/// `order` is the stable sort of all positions of `keys`.
pub open spec fn is_stable_order(keys: Seq<Seq<char>>, descending: bool, order: Seq<usize>) -> bool {
    arranges_prefix(keys, descending, order, keys.len() as int)
}

/// What has to precede `b` also has to precede whatever need not precede `b`,
/// and is not preceded by it.
pub proof fn lemma_before_chain(a: Seq<char>, b: Seq<char>, c: Seq<char>, descending: bool)
    requires
        before(a, b, descending),
        !before(c, b, descending),
    ensures
        before(a, c, descending),
        !before(c, a, descending),
{
    if descending {
        // b < a, and c is not above b
        if lex_less(c, b) {
            lemma_lex_less_transitive(c, b, a);
        } else {
            lemma_lex_less_total(b, c);
        }
        lemma_lex_less_asymmetric(c, a);
    } else {
        lemma_lex_less_chain(a, b, c);
        lemma_lex_less_asymmetric(a, c);
    }
}

/// Whether `a` has to stand strictly before `b` in the chosen direction.
pub fn key_before(a: &str, b: &str, descending: bool) -> (r: bool)
    ensures
        r == before(a@, b@, descending),
{
    if descending {
        str_less(b, a)
    } else {
        str_less(a, b)
    }
}

/// The stable sort of `keys`, ascending or descending, as the list of
/// positions in sorted order.
pub fn stable_order(keys: &Vec<String>, descending: bool) -> (order: Vec<usize>)
    ensures
        is_stable_order(key_views(keys@), descending, order@),
{
    let ghost kv = key_views(keys@);
    let mut order: Vec<usize> = Vec::new();
    let mut k: usize = 0;
    while k < keys.len()
        invariant
            k <= keys.len(),
            kv == key_views(keys@),
            arranges_prefix(kv, descending, order@, k as int),
        decreases keys.len() - k,
    {
        let mut p: usize = 0;
        while p < k && !key_before(keys[k].as_str(), keys[order[p]].as_str(), descending)
            invariant
                p <= k,
                k < keys.len(),
                kv == key_views(keys@),
                arranges_prefix(kv, descending, order@, k as int),
                forall|i: int| 0 <= i < p ==> !before(kv[k as int], kv[#[trigger] order@[i] as int], descending),
            decreases k - p,
        {
            p = p + 1;
        }
        let ghost prev = order@;
        proof {
            assert forall|j: int| p <= j < k implies before(
                kv[k as int],
                kv[#[trigger] prev[j] as int],
                descending,
            ) && !before(kv[prev[j] as int], kv[k as int], descending) by {
                if j > p {
                    lemma_before_chain(kv[k as int], kv[prev[p as int] as int], kv[prev[j] as int], descending);
                } else {
                    if descending {
                        lemma_lex_less_asymmetric(kv[prev[j] as int], kv[k as int]);
                    } else {
                        lemma_lex_less_asymmetric(kv[k as int], kv[prev[j] as int]);
                    }
                }
            }
        }
        order.insert(p, k);
        proof {
            let next = order@;
            assert(next.len() == k + 1);
            assert forall|i: int| 0 <= i < k + 1 implies
                #[trigger] next[i] == (if i < p { prev[i] } else if i == p { k } else { prev[i - 1] }) by {}
            assert forall|x: int| 0 <= x < k + 1 implies #[trigger] names_position(next, x) by {
                if x == k {
                    assert(next[p as int] == x);
                } else {
                    assert(names_position(prev, x));
                    let i = choose|i: int| 0 <= i < prev.len() && #[trigger] prev[i] == x;
                    if i < p {
                        assert(next[i] == x);
                    } else {
                        assert(next[i + 1] == x);
                    }
                }
            }
            assert(arranges_prefix(kv, descending, next, k + 1));
        }
        k = k + 1;
    }
    order
}


/// Two arrangements of the same keys agree on their first `upto` places.
proof fn lemma_orders_agree(
    keys: Seq<Seq<char>>,
    descending: bool,
    a: Seq<usize>,
    b: Seq<usize>,
    n: int,
    upto: int,
)
    requires
        arranges_prefix(keys, descending, a, n),
        arranges_prefix(keys, descending, b, n),
        0 <= upto <= n,
    ensures
        forall|j: int| 0 <= j < upto ==> #[trigger] a[j] == b[j],
    decreases upto,
{
    if upto > 0 {
        lemma_orders_agree(keys, descending, a, b, n, upto - 1);
        let i = upto - 1;
        let x = a[i];
        let y = b[i];
        if x != y {
            assert(names_position(b, x as int));
            let m = choose|m: int| 0 <= m < b.len() && #[trigger] b[m] == x as int;
            if m < i {
                assert(a[m] == b[m]);
                assert(a[m] != a[i]);
            }
            assert(names_position(a, y as int));
            let l = choose|l: int| 0 <= l < a.len() && #[trigger] a[l] == y as int;
            if l < i {
                assert(b[l] == a[l]);
                assert(b[l] != b[i]);
            }
            assert(i < m && i < l);
            assert(!before(keys[b[m] as int], keys[b[i] as int], descending));
            assert(!before(keys[a[l] as int], keys[a[i] as int], descending));
            assert(b[i] < b[m]);
            assert(a[i] < a[l]);
        }
    }
}

/// The stable sort is one: two orders that both are the stable sort of the
/// same keys are the same order.
pub proof fn lemma_stable_order_unique(keys: Seq<Seq<char>>, descending: bool, a: Seq<usize>, b: Seq<usize>)
    requires
        is_stable_order(keys, descending, a),
        is_stable_order(keys, descending, b),
    ensures
        a == b,
{
    lemma_orders_agree(keys, descending, a, b, keys.len() as int, keys.len() as int);
    assert(a =~= b);
}

} // verus!
