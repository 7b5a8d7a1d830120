//! How the space that the fixed panes leave is shared among the flexible
//! ones.
//!
//! A flexible pane of weight `w` receives the share `budget * w / total` of
//! the budget, rounded down, where `total` is the sum of the weights. What
//! the rounding leaves over goes to the last pane that has a weight, so that
//! the shares add up to the budget.

use vstd::prelude::*;
use crate::split::ChildView;

verus! {

/// The weight with which pane `k` takes part in the sharing: its weight
/// where it is flexible, 0 where it is fixed.
pub open spec fn weight_at(panes: Seq<ChildView>, k: int) -> int {
    if panes[k].flex {
        panes[k].params as int
    } else {
        0
    }
}

/// The sum of the weights of the first `n` panes.
pub open spec fn weight_sum(panes: Seq<ChildView>, n: int) -> int
    decreases n,
{
    if n <= 0 || n > panes.len() {
        0
    } else {
        weight_sum(panes, n - 1) + weight_at(panes, n - 1)
    }
}

/// The sum of the weights of all panes.
pub open spec fn total_weight(panes: Seq<ChildView>) -> int {
    weight_sum(panes, panes.len() as int)
}

/// The share of `budget` that falls to `weight` out of `total`, rounded
/// down; nothing where no pane has a weight.
pub open spec fn floor_share(budget: int, weight: int, total: int) -> int {
    if total <= 0 {
        0
    } else {
        budget * weight / total
    }
}

/// The rounded-down share of pane `k`.
pub open spec fn floor_share_at(panes: Seq<ChildView>, budget: int, k: int) -> int {
    floor_share(budget, weight_at(panes, k), total_weight(panes))
}

/// The sum of the rounded-down shares of the first `n` panes.
pub open spec fn floor_sum(panes: Seq<ChildView>, budget: int, n: int) -> int
    decreases n,
{
    if n <= 0 || n > panes.len() {
        0
    } else {
        floor_sum(panes, budget, n - 1) + floor_share_at(panes, budget, n - 1)
    }
}

/// What the rounding leaves of `budget`.
pub open spec fn remainder(panes: Seq<ChildView>, budget: int) -> int {
    budget - floor_sum(panes, budget, panes.len() as int)
}

/// The index of the last of the first `n` panes that is flexible and has a
/// weight above 0, or -1 where there is none.
pub open spec fn last_weighted(panes: Seq<ChildView>, n: int) -> int
    decreases n,
{
    if n <= 0 || n > panes.len() {
        -1
    } else if weight_at(panes, n - 1) > 0 {
        n - 1
    } else {
        last_weighted(panes, n - 1)
    }
}

/// The extent that pane `k` receives out of `budget`: its rounded-down
/// share, and what the rounding leaves where it is the last pane with a
/// weight. A fixed pane receives nothing.
pub open spec fn flex_extent(panes: Seq<ChildView>, budget: int, k: int) -> int {
    if k == last_weighted(panes, panes.len() as int) {
        floor_share_at(panes, budget, k) + remainder(panes, budget)
    } else {
        floor_share_at(panes, budget, k)
    }
}

/// The sum of the extents that the first `n` panes receive.
pub open spec fn extent_sum(panes: Seq<ChildView>, budget: int, n: int) -> int
    decreases n,
{
    if n <= 0 || n > panes.len() {
        0
    } else {
        extent_sum(panes, budget, n - 1) + flex_extent(panes, budget, n - 1)
    }
}

/// The weights add up to more and more.
pub proof fn lemma_weight_sum_monotonic(panes: Seq<ChildView>, m: int, n: int)
    requires
        0 <= m <= n <= panes.len(),
    ensures
        0 <= weight_sum(panes, m) <= weight_sum(panes, n),
        weight_sum(panes, n) <= n * u32::MAX,
    decreases n,
{
    if n > 0 {
        if m < n {
            lemma_weight_sum_monotonic(panes, m, n - 1);
        } else {
            lemma_weight_sum_monotonic(panes, m - 1, n - 1);
        }
    }
}

/// A single weight is part of the sum.
pub proof fn lemma_weight_in_total(panes: Seq<ChildView>, k: int)
    requires
        0 <= k < panes.len(),
    ensures
        0 <= weight_at(panes, k) <= total_weight(panes),
{
    lemma_weight_sum_monotonic(panes, k, k + 1);
    lemma_weight_sum_monotonic(panes, k + 1, panes.len() as int);
}

/// A rounded-down share is between nothing and the budget.
pub proof fn lemma_floor_share_bounds(budget: int, weight: int, total: int)
    requires
        0 <= budget,
        0 <= weight <= total,
    ensures
        0 <= floor_share(budget, weight, total) <= budget,
        total > 0 ==> floor_share(budget, weight, total) * total <= budget * weight,
{
    if total > 0 {
        let x = budget * weight;
        assert(0 <= x <= budget * total) by (nonlinear_arith)
            requires
                0 <= budget,
                0 <= weight <= total,
                x == budget * weight,
        ;
        assert(0 <= x / total && (x / total) * total <= x) by (nonlinear_arith)
            requires
                0 <= x,
                total > 0,
        ;
        assert(x / total <= budget) by (nonlinear_arith)
            requires
                0 <= x <= budget * total,
                total > 0,
                (x / total) * total <= x,
        ;
    }
}

/// The rounded-down shares never take more than their part of the budget.
pub proof fn lemma_floor_sum_bound(panes: Seq<ChildView>, budget: int, n: int)
    requires
        0 <= budget,
        0 <= n <= panes.len(),
    ensures
        0 <= floor_sum(panes, budget, n) <= budget,
        floor_sum(panes, budget, n) * total_weight(panes) <= budget * weight_sum(panes, n),
    decreases n,
{
    let total = total_weight(panes);
    lemma_weight_sum_monotonic(panes, n, panes.len() as int);
    if n > 0 {
        lemma_floor_sum_bound(panes, budget, n - 1);
        lemma_weight_in_total(panes, n - 1);
        lemma_floor_share_bounds(budget, weight_at(panes, n - 1), total);
        let before = floor_sum(panes, budget, n - 1);
        let share = floor_share_at(panes, budget, n - 1);
        let w = weight_at(panes, n - 1);
        let ws = weight_sum(panes, n - 1);
        if total > 0 {
            assert((before + share) * total <= budget * (ws + w)) by (nonlinear_arith)
                requires
                    before * total <= budget * ws,
                    share * total <= budget * w,
            ;
            assert(before + share <= budget) by (nonlinear_arith)
                requires
                    (before + share) * total <= budget * (ws + w),
                    0 <= ws + w <= total,
                    total > 0,
                    0 <= budget,
            ;
        }
    } else {
        assert(0 * total == 0);
        assert(budget * 0 == 0);
    }
}

/// The sums of rounded-down shares grow with the number of panes.
pub proof fn lemma_floor_sum_monotonic(panes: Seq<ChildView>, budget: int, m: int, n: int)
    requires
        0 <= budget,
        0 <= m <= n <= panes.len(),
    ensures
        floor_sum(panes, budget, m) <= floor_sum(panes, budget, n),
    decreases n,
{
    if m < n {
        lemma_floor_sum_monotonic(panes, budget, m, n - 1);
        lemma_weight_in_total(panes, n - 1);
        lemma_floor_share_bounds(budget, weight_at(panes, n - 1), total_weight(panes));
    }
}

/// The last pane with a weight is a pane, is flexible and has a weight; and
/// where the weights add up to more than nothing, there is one.
pub proof fn lemma_last_weighted(panes: Seq<ChildView>, n: int)
    requires
        0 <= n <= panes.len(),
    ensures
        -1 <= last_weighted(panes, n) < n,
        last_weighted(panes, n) >= 0 ==> weight_at(panes, last_weighted(panes, n)) > 0,
        forall|j: int| last_weighted(panes, n) < j < n ==> weight_at(panes, j) == 0,
        weight_sum(panes, n) > 0 ==> last_weighted(panes, n) >= 0,
    decreases n,
{
    if n > 0 {
        lemma_last_weighted(panes, n - 1);
        lemma_weight_sum_monotonic(panes, n - 1, n);
    }
}

/// What a pane receives is between nothing and the budget.
pub proof fn lemma_flex_extent_bounds(panes: Seq<ChildView>, budget: int, k: int)
    requires
        0 <= budget,
        0 <= k < panes.len(),
    ensures
        0 <= flex_extent(panes, budget, k) <= budget,
{
    let n = panes.len() as int;
    lemma_weight_in_total(panes, k);
    lemma_floor_share_bounds(budget, weight_at(panes, k), total_weight(panes));
    lemma_floor_sum_bound(panes, budget, n);
    lemma_floor_sum_monotonic(panes, budget, k + 1, n);
    lemma_floor_sum_bound(panes, budget, k);
}

/// Up to the last pane with a weight the extents add up to the rounded-down
/// shares, and from it on to these and what the rounding left.
pub proof fn lemma_extent_sum(panes: Seq<ChildView>, budget: int, n: int)
    requires
        0 <= n <= panes.len(),
    ensures
        extent_sum(panes, budget, n) == floor_sum(panes, budget, n) + if last_weighted(
            panes,
            panes.len() as int,
        ) < n && last_weighted(panes, panes.len() as int) >= 0 {
            remainder(panes, budget)
        } else {
            0
        },
    decreases n,
{
    if n > 0 {
        lemma_extent_sum(panes, budget, n - 1);
        lemma_last_weighted(panes, panes.len() as int);
    }
}

/// Flex conservation: where some pane has a weight, the extents that the
/// panes receive add up to the budget, exactly.
pub proof fn lemma_flex_conservation(panes: Seq<ChildView>, budget: int)
    requires
        0 <= budget,
        total_weight(panes) > 0,
    ensures
        extent_sum(panes, budget, panes.len() as int) == budget,
{
    lemma_extent_sum(panes, budget, panes.len() as int);
    lemma_last_weighted(panes, panes.len() as int);
}

/// Without a weight anywhere, no pane receives anything.
pub proof fn lemma_no_weight_no_extent(panes: Seq<ChildView>, budget: int, k: int)
    requires
        total_weight(panes) == 0,
        0 <= k < panes.len(),
    ensures
        flex_extent(panes, budget, k) == 0,
{
    lemma_last_weighted(panes, panes.len() as int);
    lemma_weight_in_total(panes, k);
}

/// Whether all panes are flexible and have the same weight `w`.
pub open spec fn equal_weights(panes: Seq<ChildView>, w: int) -> bool {
    forall|k: int| 0 <= k < panes.len() ==> (#[trigger] panes[k]).flex && panes[k].params == w
}

/// With equal weights the weights of the first `n` panes add up to `n`
/// times the weight.
pub proof fn lemma_equal_weight_sum(panes: Seq<ChildView>, w: int, n: int)
    requires
        equal_weights(panes, w),
        0 <= n <= panes.len(),
    ensures
        weight_sum(panes, n) == n * w,
    decreases n,
{
    if n > 0 {
        lemma_equal_weight_sum(panes, w, n - 1);
        assert(panes[n - 1].flex && panes[n - 1].params == w);
        assert((n - 1) * w + w == n * w) by (nonlinear_arith);
    } else {
        assert(0 * w == 0);
    }
}

/// With equal weights the first `n` rounded-down shares add up to `n` times
/// the budget divided by the number of panes.
pub proof fn lemma_equal_floor_sum(panes: Seq<ChildView>, w: int, budget: int, n: int)
    requires
        equal_weights(panes, w),
        w > 0,
        0 <= budget,
        0 <= n <= panes.len(),
    ensures
        floor_sum(panes, budget, n) == n * (budget / (panes.len() as int)),
    decreases n,
{
    let count = panes.len() as int;
    if n > 0 {
        lemma_equal_floor_sum(panes, w, budget, n - 1);
        lemma_equal_share(panes, w, budget, n - 1);
        assert((n - 1) * (budget / count) + budget / count == n * (budget / count))
            by (nonlinear_arith);
    } else {
        assert(0 * (budget / count) == 0);
    }
}

/// With equal weights every rounded-down share is the budget divided by the
/// number of panes.
pub proof fn lemma_equal_share(panes: Seq<ChildView>, w: int, budget: int, k: int)
    requires
        equal_weights(panes, w),
        w > 0,
        0 <= budget,
        0 <= k < panes.len(),
    ensures
        floor_share_at(panes, budget, k) == budget / (panes.len() as int),
{
    let count = panes.len() as int;
    lemma_equal_weight_sum(panes, w, count);
    assert(panes[k].flex && panes[k].params == w);
    assert(count * w > 0) by (nonlinear_arith)
        requires
            count > 0,
            w > 0,
    ;
    vstd::arithmetic::div_mod::lemma_div_multiples_vanish_quotient(w, budget, count);
    assert(w * budget == budget * w) by (nonlinear_arith);
    assert(w * count == count * w) by (nonlinear_arith);
}

/// Equal weights: every pane but the last receives the budget divided by the
/// number of panes, rounded down, and the last receives that and the
/// remainder of the division.
pub proof fn lemma_equal_weights_extents(panes: Seq<ChildView>, w: int, budget: int, k: int)
    requires
        equal_weights(panes, w),
        w > 0,
        0 <= budget,
        0 <= k < panes.len(),
    ensures
        k < panes.len() - 1 ==> flex_extent(panes, budget, k) == budget / (panes.len() as int),
        k == panes.len() - 1 ==> flex_extent(panes, budget, k) == budget / (panes.len() as int)
            + budget % (panes.len() as int),
        extent_sum(panes, budget, panes.len() as int) == budget,
{
    let count = panes.len() as int;
    lemma_equal_share(panes, w, budget, k);
    lemma_equal_floor_sum(panes, w, budget, count);
    lemma_equal_weight_sum(panes, w, count);
    assert(count * w > 0) by (nonlinear_arith)
        requires
            count > 0,
            w > 0,
    ;
    assert(panes[count - 1].flex && panes[count - 1].params == w);
    assert(last_weighted(panes, count) == count - 1);
    vstd::arithmetic::div_mod::lemma_fundamental_div_mod(budget, count);
    assert(count * (budget / count) == (budget / count) * count) by (nonlinear_arith);
    lemma_flex_conservation(panes, budget);
}

/// Whether two sequences of panes agree on which panes are flexible and on
/// every weight and requested extent.
pub open spec fn same_sizing(a: Seq<ChildView>, b: Seq<ChildView>) -> bool {
    &&& a.len() == b.len()
    &&& forall|k: int|
        0 <= k < a.len() ==> (#[trigger] a[k]).flex == b[k].flex && a[k].params == b[k].params
}

/// The sums over the first `n` panes depend on nothing but the weights.
pub proof fn lemma_same_sizing_sums(a: Seq<ChildView>, b: Seq<ChildView>, budget: int, n: int)
    requires
        same_sizing(a, b),
        0 <= n <= a.len(),
    ensures
        weight_sum(a, n) == weight_sum(b, n),
        last_weighted(a, n) == last_weighted(b, n),
        total_weight(a) == total_weight(b) ==> floor_sum(a, budget, n) == floor_sum(b, budget, n),
    decreases n,
{
    if n > 0 {
        lemma_same_sizing_sums(a, b, budget, n - 1);
        assert(a[n - 1].flex == b[n - 1].flex && a[n - 1].params == b[n - 1].params);
    }
}

/// What a pane receives depends on nothing but the weights.
pub proof fn lemma_same_sizing(a: Seq<ChildView>, b: Seq<ChildView>, budget: int, k: int)
    requires
        same_sizing(a, b),
        0 <= k < a.len(),
    ensures
        flex_extent(a, budget, k) == flex_extent(b, budget, k),
{
    lemma_same_sizing_sums(a, b, budget, a.len() as int);
    assert(a[k].flex == b[k].flex && a[k].params == b[k].params);
}

} // verus!
