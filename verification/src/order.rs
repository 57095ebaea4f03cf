//! Levels (exact averages) and stable ordering by descending level.

use vstd::prelude::*;

verus! {

/// An exact average: `sum` over `count` readings. A single value has count 1.
#[derive(Debug, Clone, Copy, PartialEq, Eq, Structural)]
pub struct Level {
    pub sum: i64,
    pub count: u64,
}

/// A single value.
pub open spec fn single(value: int) -> Level {
    Level { sum: value as i64, count: 1 }
}

/// The level is an average over at least one reading.
pub open spec fn is_level(a: Level) -> bool {
    a.count > 0
}

/// `a` is a higher level than `b`: `a.sum / a.count > b.sum / b.count`.
pub open spec fn higher(a: Level, b: Level) -> bool {
    a.sum * b.count > b.sum * a.count
}

/// Being at least as high is transitive.
pub proof fn lemma_not_higher_trans(a: Level, b: Level, c: Level)
    requires
        is_level(a),
        is_level(b),
        is_level(c),
        !higher(b, a),
        !higher(c, b),
    ensures
        !higher(c, a),
{
    let (x, y, z) = (a.sum as int, b.sum as int, c.sum as int);
    let (p, q, r) = (a.count as int, b.count as int, c.count as int);
    assert(x * q >= y * p);
    assert(y * r >= z * q);
    assert(x * r >= z * p) by (nonlinear_arith)
        requires
            x * q >= y * p,
            y * r >= z * q,
            p > 0,
            q > 0,
            r > 0,
    {
        assert((x * q) * r >= (y * p) * r);
        assert((y * r) * p >= (z * q) * p);
        assert((x * r) * q >= (z * p) * q);
    }
}

/// Single values compare as numbers.
pub proof fn lemma_single_higher(a: Level, b: Level)
    requires
        a.count == 1,
        b.count == 1,
    ensures
        higher(a, b) <==> a.sum > b.sum,
{
    assert(a.sum * b.count == a.sum) by (nonlinear_arith)
        requires
            b.count == 1,
    ;
    assert(b.sum * a.count == b.sum) by (nonlinear_arith)
        requires
            a.count == 1,
    ;
}

/// Whether one level is higher than another.
pub fn is_higher(a: Level, b: Level) -> (r: bool)
    ensures
        r == higher(a, b),
{
    let (x, y) = (a.sum as i128, b.sum as i128);
    let (p, q) = (a.count as i128, b.count as i128);
    assert(-0x8000_0000_0000_0000 * 0xffff_ffff_ffff_ffff <= x * q <= 0x7fff_ffff_ffff_ffff
        * 0xffff_ffff_ffff_ffff) by (nonlinear_arith)
        requires
            -0x8000_0000_0000_0000 <= x <= 0x7fff_ffff_ffff_ffff,
            0 <= q <= 0xffff_ffff_ffff_ffff,
    ;
    assert(-0x8000_0000_0000_0000 * 0xffff_ffff_ffff_ffff <= y * p <= 0x7fff_ffff_ffff_ffff
        * 0xffff_ffff_ffff_ffff) by (nonlinear_arith)
        requires
            -0x8000_0000_0000_0000 <= y <= 0x7fff_ffff_ffff_ffff,
            0 <= p <= 0xffff_ffff_ffff_ffff,
    ;
    x * q > y * p
}

/// Item `i` comes before item `j`: it has the higher level, or it is not lower
/// and has the earlier place.
pub open spec fn before(keys: Seq<Level>, i: int, j: int) -> bool {
    higher(keys[i], keys[j]) || (!higher(keys[j], keys[i]) && i < j)
}

/// Every key is a level.
pub open spec fn all_levels(keys: Seq<Level>) -> bool {
    forall|i: int| 0 <= i < keys.len() ==> is_level(#[trigger] keys[i])
}

/// `perm` lists every index of `keys` once.
pub open spec fn is_permutation(perm: Seq<int>, n: nat) -> bool {
    &&& perm.len() == n
    &&& forall|a: int| 0 <= a < perm.len() ==> 0 <= #[trigger] perm[a] < n
    &&& forall|i: int| 0 <= i < n ==> #[trigger] perm.contains(i)
}

/// `perm` lists every index of `keys` once, higher levels first and equal ones
/// in their given order.
pub open spec fn is_descending(keys: Seq<Level>, perm: Seq<int>) -> bool {
    &&& is_permutation(perm, keys.len())
    &&& forall|a: int, b: int|
        0 <= a < b < perm.len() ==> before(keys, #[trigger] perm[a], #[trigger] perm[b])
}

/// The indices of `keys`, higher levels first and equal ones in their given
/// order.
pub open spec fn descending(keys: Seq<Level>) -> Seq<int> {
    choose|perm: Seq<int>| is_descending(keys, perm)
}

/// There is only one such order.
pub proof fn lemma_descending_unique(keys: Seq<Level>, p: Seq<int>, q: Seq<int>)
    requires
        is_descending(keys, p),
        is_descending(keys, q),
    ensures
        p == q,
{
    assert forall|k: int| 0 <= k < p.len() implies p[k] == q[k] by {
        lemma_same_prefix(keys, p, q, k + 1);
    }
    assert(p =~= q);
}

proof fn lemma_same_prefix(keys: Seq<Level>, p: Seq<int>, q: Seq<int>, n: int)
    requires
        is_descending(keys, p),
        is_descending(keys, q),
        0 <= n <= p.len(),
    ensures
        forall|k: int| 0 <= k < n ==> p[k] == q[k],
    decreases n,
{
    if n > 0 {
        let k = n - 1;
        lemma_same_prefix(keys, p, q, k);
        if p[k] != q[k] {
            assert(q.contains(p[k]));
            let m = choose|m: int| 0 <= m < q.len() && q[m] == p[k];
            if m < k {
                assert(before(keys, p[m], p[k]));
            } else {
                assert(before(keys, q[k], q[m]));
            }
            assert(p.contains(q[k]));
            let l = choose|l: int| 0 <= l < p.len() && p[l] == q[k];
            if l < k {
                assert(before(keys, q[l], q[k]));
            } else {
                assert(before(keys, p[k], p[l]));
            }
        }
    }
}

/// Any such order is *the* order.
pub proof fn lemma_is_descending(keys: Seq<Level>, perm: Seq<int>)
    requires
        is_descending(keys, perm),
    ensures
        perm == descending(keys),
{
    lemma_descending_unique(keys, perm, descending(keys));
}

pub open spec fn as_ints(v: Seq<usize>) -> Seq<int> {
    v.map_values(|i: usize| i as int)
}

/// The indices of `keys` ordered by descending level, stably.
pub fn order_descending(keys: &Vec<Level>) -> (r: Vec<usize>)
    requires
        all_levels(keys@),
    ensures
        as_ints(r@) == descending(keys@),
        is_descending(keys@, as_ints(r@)),
{
    let mut r: Vec<usize> = Vec::new();
    let n: usize = keys.len();
    for i in 0..n
        invariant
            n == keys@.len(),
            all_levels(keys@),
            is_descending(keys@.take(i as int), as_ints(r@)),
    {
        let ghost old_perm = as_ints(r@);
        let ghost old_keys = keys@.take(i as int);
        let ghost new_keys = keys@.take(i + 1);
        assert forall|a: int| 0 <= a < i implies 0 <= #[trigger] r@[a] < i && r@[a] as int
            == old_perm[a] by {
            assert(0 <= old_perm[a] < i);
        }
        let mut at: usize = i;
        while at > 0 && is_higher(keys[i], keys[r[at - 1]])
            invariant
                i < n,
                n == keys@.len(),
                at <= i,
                r@.len() == i,
                old_perm == as_ints(r@),
                old_keys == keys@.take(i as int),
                is_descending(old_keys, old_perm),
                forall|a: int|
                    0 <= a < i ==> 0 <= #[trigger] r@[a] < i && r@[a] as int == old_perm[a],
                forall|a: int|
                    at <= a < i ==> higher(keys@[i as int], keys@[#[trigger] old_perm[a]]),
            decreases at,
        {
            assert(r@[at - 1] as int == old_perm[at - 1]);
            at = at - 1;
        }
        proof {
            if at > 0 {
                assert(r@[at - 1] as int == old_perm[at - 1]);
            }
        }
        r.insert(at, i);
        proof {
            let perm = as_ints(r@);
            assert(perm =~= old_perm.insert(at as int, i as int));
            assert forall|x: int| 0 <= x < new_keys.len() implies #[trigger] perm.contains(x) by {
                if x == i {
                    assert(perm[at as int] == x);
                } else {
                    assert(old_perm.contains(x));
                    let a = choose|a: int| 0 <= a < old_perm.len() && old_perm[a] == x;
                    if a < at {
                        assert(perm[a] == x);
                    } else {
                        assert(perm[a + 1] == x);
                    }
                }
            }
            assert forall|a: int| 0 <= a < perm.len() implies 0 <= #[trigger] perm[a]
                < new_keys.len() by {
                if a < at {
                    assert(perm[a] == old_perm[a]);
                } else if a > at {
                    assert(perm[a] == old_perm[a - 1]);
                }
            }
            assert forall|a: int, b: int| 0 <= a < b < perm.len() implies before(
                new_keys,
                #[trigger] perm[a],
                #[trigger] perm[b],
            ) by {
                let a2 = if a < at {
                    a
                } else {
                    a - 1
                };
                let b2 = if b < at {
                    b
                } else {
                    b - 1
                };
                if a != at && b != at {
                    assert(perm[a] == old_perm[a2] && perm[b] == old_perm[b2]);
                    assert(before(old_keys, old_perm[a2], old_perm[b2]));
                } else if a == at {
                    assert(perm[b] == old_perm[b2]);
                } else {
                    assert(perm[a] == old_perm[a2]);
                    if a2 < at - 1 {
                        assert(before(old_keys, old_perm[a2], old_perm[at - 1]));
                        lemma_not_higher_trans(
                            keys@[old_perm[a2]],
                            keys@[old_perm[at - 1]],
                            keys@[i as int],
                        );
                    }
                }
            }
        }
    }
    assert(keys@.take(n as int) =~= keys@);
    proof {
        lemma_is_descending(keys@, as_ints(r@));
    }
    r
}

/// A sequence in another order.
pub open spec fn reorder<T>(s: Seq<T>, perm: Seq<int>) -> Seq<T> {
    perm.map_values(|i: int| s[i])
}

/// In descending order no item is higher than one in front of it.
pub proof fn law_descending_is_sorted(keys: Seq<Level>, perm: Seq<int>)
    requires
        is_descending(keys, perm),
    ensures
        forall|a: int, b: int|
            0 <= a < b < perm.len() ==> !higher(
                #[trigger] reorder(keys, perm)[b],
                #[trigger] reorder(keys, perm)[a],
            ),
{
    assert forall|a: int, b: int| 0 <= a < b < perm.len() implies !higher(
        #[trigger] reorder(keys, perm)[b],
        #[trigger] reorder(keys, perm)[a],
    ) by {
        assert(before(keys, perm[a], perm[b]));
    }
}

/// Levels compare as the averages they stand for: an average above a value is
/// higher than one at or below it, and never the other way round.
pub proof fn law_levels_compare_as_averages(a: Level, b: Level, value: int)
    requires
        is_level(a),
        is_level(b),
    ensures
        a.sum > value * a.count && b.sum <= value * b.count ==> higher(a, b) && !higher(b, a),
        a.sum >= value * a.count && b.sum <= value * b.count ==> !higher(b, a),
        a.sum == value * a.count && b.sum == value * b.count ==> !higher(a, b) && !higher(b, a),
{
    let (x, y, v) = (a.sum as int, b.sum as int, value);
    let (p, q) = (a.count as int, b.count as int);
    if x >= v * p && y <= v * q {
        assert(x * q >= y * p) by (nonlinear_arith)
            requires
                x >= v * p,
                y <= v * q,
                p > 0,
                q > 0,
        {
            assert(x * q >= (v * p) * q);
            assert(y * p <= (v * q) * p);
            assert((v * p) * q == (v * q) * p);
        }
    }
    if x > v * p && y <= v * q {
        assert(x * q > y * p) by (nonlinear_arith)
            requires
                x > v * p,
                y <= v * q,
                p > 0,
                q > 0,
        {
            assert(x * q > (v * p) * q);
            assert(y * p <= (v * q) * p);
            assert((v * p) * q == (v * q) * p);
        }
    }
    if x == v * p && y == v * q {
        assert(x * q == y * p) by (nonlinear_arith)
            requires
                x == v * p,
                y == v * q,
        ;
    }
}

/// Of two items that neither has the higher level, the earlier one comes first;
/// of others the higher one does, wherever they stand.
pub proof fn law_ties_keep_their_order(keys: Seq<Level>, perm: Seq<int>, a: int, b: int)
    requires
        is_descending(keys, perm),
        0 <= a < b < perm.len(),
    ensures
        !higher(keys[perm[a]], keys[perm[b]]) ==> perm[a] < perm[b],
        perm[a] > perm[b] ==> higher(keys[perm[a]], keys[perm[b]]),
        perm[a] != perm[b],
{
    assert(before(keys, perm[a], perm[b]));
}

/// Levels over the same number of readings compare as their sums.
pub proof fn law_equal_counts(a: Level, b: Level)
    requires
        is_level(a),
        a.count == b.count,
    ensures
        higher(a, b) <==> a.sum > b.sum,
{
    let (x, y, n) = (a.sum as int, b.sum as int, a.count as int);
    if x > y {
        assert(x * n > y * n) by (nonlinear_arith)
            requires
                x > y,
                n > 0,
        ;
    } else {
        assert(x * n <= y * n) by (nonlinear_arith)
            requires
                x <= y,
                n > 0,
        ;
    }
}

/// A level does not change with how often its readings are counted: as many
/// times the sum over as many times the number is the same level.
pub proof fn law_scaled_levels(a: Level, scaled: Level, b: Level, k: int)
    requires
        k > 0,
        scaled.sum == k * a.sum,
        scaled.count == k * a.count,
    ensures
        higher(scaled, b) <==> higher(a, b),
        higher(b, scaled) <==> higher(b, a),
{
    let (x, y) = (a.sum as int, b.sum as int);
    let (p, q) = (a.count as int, b.count as int);
    assert((k * x) * q == k * (x * q)) by (nonlinear_arith);
    assert(y * (k * p) == k * (y * p)) by (nonlinear_arith);
    let (u, v) = (x * q, y * p);
    assert(k * u > k * v <==> u > v) by (nonlinear_arith)
        requires
            k > 0,
    ;
    assert(k * v > k * u <==> v > u) by (nonlinear_arith)
        requires
            k > 0,
    ;
}

} // verus!
