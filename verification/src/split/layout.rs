//! Measuring a split container and laying it out.

use vstd::prelude::*;
use crate::empty_state::{empty_state_commands, EmptyStateEnv};
use crate::flex::{
    flex_extent, floor_share_at, floor_sum, last_weighted, lemma_flex_extent_bounds,
    lemma_floor_share_bounds, lemma_floor_sum_bound, lemma_last_weighted, lemma_weight_in_total,
    lemma_weight_sum_monotonic, remainder, total_weight, weight_at, weight_sum,
};
use crate::geometry::{Rect, Size};
use crate::sizing::{
    lemma_child_box, lemma_content_laid_out_wf, lemma_fixed_total_le_offset, lemma_laid_out_wf,
    lemma_offset_monotonic,
};
use crate::split::{ChildView, LapceSplitNew, PaneContent};

verus! {

/// How a budget is shared among the flexible panes of a container.
pub(super) struct FlexPlan {
    /// The extent to share.
    pub budget: u32,
    /// The sum of the weights.
    pub total: u128,
    /// What rounding the shares down leaves of the budget.
    pub rest: u32,
    /// The index of the last pane with a weight, or the number of panes
    /// where there is none.
    pub last: usize,
}

impl FlexPlan {
    /// Whether the plan is the sharing of its budget among `panes`.
    pub(super) open spec fn shares(self, panes: Seq<ChildView>) -> bool {
        &&& self.total == total_weight(panes)
        &&& self.rest == remainder(panes, self.budget as int)
        &&& self.last == if last_weighted(panes, panes.len() as int) < 0 {
            panes.len() as int
        } else {
            last_weighted(panes, panes.len() as int)
        }
    }

    /// The extent that pane `k` receives under the plan, where `weight` is
    /// the weight with which the pane takes part.
    pub(super) fn extent(
        &self,
        Ghost(panes): Ghost<Seq<ChildView>>,
        k: usize,
        weight: u32,
    ) -> (extent: u32)
        requires
            self.shares(panes),
            k < panes.len(),
            weight == weight_at(panes, k as int),
        ensures
            extent == flex_extent(panes, self.budget as int, k as int),
    {
        proof {
            lemma_weight_in_total(panes, k as int);
            lemma_floor_share_bounds(self.budget as int, weight as int, self.total as int);
            lemma_floor_sum_bound(panes, self.budget as int, panes.len() as int);
            lemma_flex_extent_bounds(panes, self.budget as int, k as int);
            lemma_last_weighted(panes, panes.len() as int);
        }
        let share: u32 = if self.total > 0 {
            assert(self.budget as int * weight as int <= 0xFFFF_FFFF * 0xFFFF_FFFF)
                by (nonlinear_arith)
                requires
                    0 <= self.budget <= 0xFFFF_FFFF,
                    0 <= weight <= 0xFFFF_FFFF,
            ;
            ((self.budget as u128 * weight as u128) / self.total) as u32
        } else {
            0
        };
        if k == self.last {
            share + self.rest
        } else {
            share
        }
    }
}

impl LapceSplitNew {
    /// The sharing of `budget` among the flexible panes.
    pub(super) fn flex_plan(&self, budget: u32) -> (plan: FlexPlan)
        ensures
            plan.shares(self@.children),
            plan.budget == budget,
    {
        proof {
            self.lemma_fields();
        }
        let ghost panes = self@.children;
        let n: usize = self.children.len();
        let mut total: u128 = 0;
        let mut i: usize = 0;
        while i < n
            invariant
                i <= n,
                n == self.children@.len(),
                panes == self@.children,
                panes.len() == n,
                total == weight_sum(panes, i as int),
            decreases n - i,
        {
            proof {
                self.lemma_fields();
                lemma_weight_sum_monotonic(panes, i as int, i as int + 1);
                assert((i + 1) * u32::MAX <= usize::MAX * u32::MAX) by (nonlinear_arith)
                    requires
                        i + 1 <= usize::MAX,
                ;
            }
            if self.children[i].flex {
                total = total + self.children[i].params as u128;
            }
            i = i + 1;
        }
        let mut sum: u32 = 0;
        let mut last: usize = n;
        i = 0;
        while i < n
            invariant
                i <= n,
                n == self.children@.len(),
                panes == self@.children,
                panes.len() == n,
                total == total_weight(panes),
                sum == floor_sum(panes, budget as int, i as int),
                last == if last_weighted(panes, i as int) < 0 {
                    n as int
                } else {
                    last_weighted(panes, i as int)
                },
            decreases n - i,
        {
            proof {
                self.lemma_fields();
                lemma_floor_sum_bound(panes, budget as int, i as int + 1);
                lemma_weight_in_total(panes, i as int);
                lemma_floor_share_bounds(budget as int, weight_at(panes, i as int), total as int);
                lemma_last_weighted(panes, i as int);
                assert(weight_at(panes, i as int) == 0 ==> floor_share_at(
                    panes,
                    budget as int,
                    i as int,
                ) == 0) by {
                    assert(budget as int * 0 == 0);
                    if total > 0 {
                        assert(0int / (total as int) == 0) by (nonlinear_arith)
                            requires
                                total > 0,
                        ;
                    }
                }
            }
            if self.children[i].flex {
                let w: u32 = self.children[i].params;
                if total > 0 {
                    assert(budget as int * w as int <= 0xFFFF_FFFF * 0xFFFF_FFFF)
                        by (nonlinear_arith)
                        requires
                            0 <= budget <= 0xFFFF_FFFF,
                            0 <= w <= 0xFFFF_FFFF,
                    ;
                    let share: u128 = (budget as u128 * w as u128) / total;
                    assert(share == floor_share_at(panes, budget as int, i as int));
                    sum = sum + share as u32;
                }
                if w > 0 {
                    last = i;
                }
            }
            i = i + 1;
        }
        proof {
            lemma_floor_sum_bound(panes, budget as int, n as int);
        }
        FlexPlan { budget, total, rest: budget - sum, last }
    }
}

impl PaneContent {
    /// The size that the content measures in the box `b`, where the sums of
    /// that layout stay within `u32::MAX`; `None` where they do not.
    pub fn measure(&self, b: Size) -> (size: Option<Size>)
        ensures
            size.is_some() == self@.fits_in(b),
            size matches Some(s) ==> s == self@.size_in(b),
        decreases self, 0int,
    {
        match self {
            PaneContent::Leaf(leaf) => Some(leaf.measure(b)),
            PaneContent::Nested(inner) => inner.measure(b),
        }
    }

    /// Lays the content out in the box `b`, and returns the size that it
    /// measures there.
    pub fn layout(&mut self, b: Size, env: &EmptyStateEnv) -> (size: Size)
        requires
            old(self)@.fits_in(b),
        ensures
            final(self)@ == old(self)@.laid_out(b, env@),
            size == old(self)@.size_in(b),
            old(self)@.wf() ==> final(self)@.wf(),
        decreases *old(self), 0int,
    {
        proof {
            if self@.wf() {
                lemma_content_laid_out_wf(self@, b, env@);
            }
        }
        match self {
            PaneContent::Leaf(leaf) => leaf.measure(b),
            PaneContent::Nested(inner) => inner.layout(b, env),
        }
    }
}

impl LapceSplitNew {
    /// The sizes that the fixed panes measure, each at the index of its
    /// pane, and their sum along the axis; `None` where a layout in `avail`
    /// does not fit.
    fn measure_fixed(&self, avail: Size) -> (r: Option<(Vec<Size>, u32)>)
        ensures
            match r {
                Some((sizes, total)) => {
                    &&& sizes@.len() == self@.children.len()
                    &&& total == self@.fixed_total(avail, self@.children.len() as int)
                    &&& forall|k: int|
                        0 <= k < self@.children.len() && !self@.children[k].flex ==> {
                            &&& #[trigger] sizes@[k] == self@.fixed_size(avail, k)
                            &&& self@.children[k].content.fits_in(self@.fixed_box(avail, k))
                        }
                },
                None => !self@.fits(avail),
            },
        decreases self, 0int,
    {
        proof {
            self.lemma_fields();
        }
        let ghost view = self@;
        let n: usize = self.children.len();
        let dir = self.direction;
        let cross: u32 = dir.cross_extent(avail);
        let mut fixed_sizes: Vec<Size> = Vec::new();
        let mut fixed_total: u32 = 0;
        let mut i: usize = 0;
        while i < n
            invariant
                i <= n,
                n == self.children@.len(),
                view == self@,
                view.children.len() == n,
                dir == view.direction,
                cross == dir.cross_of(avail),
                fixed_sizes@.len() == i,
                fixed_total == view.fixed_total(avail, i as int),
                forall|k: int|
                    0 <= k < i && !view.children[k].flex ==> {
                        &&& #[trigger] fixed_sizes@[k] == view.fixed_size(avail, k)
                        &&& view.children[k].content.fits_in(view.fixed_box(avail, k))
                    },
            decreases n - i,
        {
            proof {
                self.lemma_fields();
                lemma_child_box(view, avail, i as int);
                lemma_offset_monotonic(view, avail, i as int + 1, n as int);
                lemma_fixed_total_le_offset(view, avail, i as int + 1);
            }
            if self.children[i].flex {
                fixed_sizes.push(Size::zero());
            } else {
                let b = dir.size_with(self.children[i].params, cross);
                match self.children[i].widget.measure(b) {
                    None => {
                        return None;
                    },
                    Some(s) => {
                        assert(b == view.fixed_box(avail, i as int));
                        assert(self.children@[i as int].widget@ == view.children[i as int].content);
                        assert(s == view.fixed_size(avail, i as int));
                        let extent: u32 = dir.main_extent(s);
                        if extent > u32::MAX - fixed_total {
                            return None;
                        }
                        fixed_total = fixed_total + extent;
                        fixed_sizes.push(s);
                    },
                }
            }
            i = i + 1;
        }
        Some((fixed_sizes, fixed_total))
    }

    /// The size that the container reports where `avail` is available, and
    /// that a layout in `avail` returns; `None` where the sums of that
    /// layout go beyond `u32::MAX`.
    ///
    /// Nothing is changed.
    pub fn measure(&self, avail: Size) -> (size: Option<Size>)
        ensures
            size.is_some() == self@.fits(avail),
            size matches Some(s) ==> s == self@.measure(avail),
        decreases self, 1int,
    {
        proof {
            self.lemma_fields();
        }
        let ghost view = self@;
        let n: usize = self.children.len();
        if n == 0 {
            return Some(avail);
        }
        let dir = self.direction;
        let cross: u32 = dir.cross_extent(avail);
        let main: u32 = dir.main_extent(avail);
        let (fixed_sizes, fixed_total) = match self.measure_fixed(avail) {
            None => {
                return None;
            },
            Some(r) => r,
        };
        let budget: u32 = if main > fixed_total {
            main - fixed_total
        } else {
            0
        };
        assert(budget == view.budget(avail));
        let plan = self.flex_plan(budget);
        let mut offset: u32 = 0;
        let mut max_cross: u32 = 0;
        let mut i: usize = 0;
        while i < n
            invariant
                i <= n,
                n == self.children@.len(),
                view == self@,
                view.children.len() == n,
                dir == view.direction,
                cross == dir.cross_of(avail),
                budget == view.budget(avail),
                plan.shares(view.children),
                plan.budget == budget,
                fixed_sizes@.len() == n,
                forall|k: int|
                    0 <= k < n && !view.children[k].flex ==> {
                        &&& #[trigger] fixed_sizes@[k] == view.fixed_size(avail, k)
                        &&& view.children[k].content.fits_in(view.fixed_box(avail, k))
                    },
                offset == view.offset(avail, i as int),
                max_cross == view.cross_max(avail, i as int),
                forall|k: int|
                    0 <= k < i ==> (#[trigger] view.children[k]).content.fits_in(
                        view.child_box(avail, k),
                    ),
            decreases n - i,
        {
            proof {
                self.lemma_fields();
                lemma_child_box(view, avail, i as int);
                lemma_offset_monotonic(view, avail, i as int + 1, n as int);
            }
            let size: Size = if self.children[i].flex {
                let extent: u32 = plan.extent(Ghost(view.children), i, self.children[i].params);
                let b = dir.size_with(extent, cross);
                match self.children[i].widget.measure(b) {
                    None => {
                        return None;
                    },
                    Some(s) => s,
                }
            } else {
                fixed_sizes[i]
            };
            assert(size == view.child_size(avail, i as int));
            let extent: u32 = dir.main_extent(size);
            if extent > u32::MAX - offset {
                return None;
            }
            offset = offset + extent;
            let across: u32 = dir.cross_extent(size);
            if across > max_cross {
                max_cross = across;
            }
            i = i + 1;
        }
        Some(dir.size_with(offset, max_cross))
    }

    /// Lays the container out in `avail`: every pane gets its rectangle, and
    /// every container inside is laid out in the box of its pane. An empty
    /// container computes its list of commands instead. Returns the size
    /// that the container reports.
    ///
    /// The sums along the axis have to stay within `u32::MAX`;
    /// [`LapceSplitNew::try_layout`] tests that first.
    pub fn layout(&mut self, avail: Size, env: &EmptyStateEnv) -> (size: Size)
        requires
            old(self)@.fits(avail),
        ensures
            final(self)@ == old(self)@.laid_out(avail, env@),
            size == old(self)@.measure(avail),
            old(self)@.wf() ==> final(self)@.wf(),
        decreases *old(self), 1int,
    {
        proof {
            self.lemma_fields();
            if self@.wf() {
                lemma_laid_out_wf(self@, avail, env@);
            }
        }
        let ghost view = self@;
        let n: usize = self.children.len();
        if n == 0 {
            self.commands = empty_state_commands(avail, env);
            proof {
                self.lemma_fields();
                assert(self@.children =~= view.children);
            }
            return avail;
        }
        let dir = self.direction;
        let cross: u32 = dir.cross_extent(avail);
        let main: u32 = dir.main_extent(avail);
        let fixed_total: u32 = match self.measure_fixed(avail) {
            None => 0,
            Some(r) => r.1,
        };
        let budget: u32 = if main > fixed_total {
            main - fixed_total
        } else {
            0
        };
        assert(budget == view.budget(avail));
        let plan = self.flex_plan(budget);
        let mut offset: u32 = 0;
        let mut max_cross: u32 = 0;
        let mut i: usize = 0;
        while i < n
            invariant
                i <= n,
                n == self.children@.len(),
                n == old(self).children@.len(),
                view == old(self)@,
                view.children.len() == n,
                view.fits(avail),
                self.split_id == old(self).split_id,
                self.direction == old(self).direction,
                self.show_border == old(self).show_border,
                self.commands == old(self).commands,
                dir == view.direction,
                cross == dir.cross_of(avail),
                budget == view.budget(avail),
                plan.shares(view.children),
                plan.budget == budget,
                offset == view.offset(avail, i as int),
                max_cross == view.cross_max(avail, i as int),
                forall|k: int| i <= k < n ==> self.children@[k] == old(self).children@[k],
                forall|k: int|
                    0 <= k < i ==> (#[trigger] self.children@[k])@ == view.laid_out_child(
                        avail,
                        env@,
                        k,
                    ),
            decreases n - i,
        {
            proof {
                old(self).lemma_fields();
                lemma_child_box(view, avail, i as int);
                lemma_offset_monotonic(view, avail, i as int + 1, n as int);
                broadcast use vstd::std_specs::vec::axiom_vec_index_decreases;
                assert(decreases_to!(*old(self) => old(self).children[i as int]));
                assert(view.children[i as int].content.fits_in(view.child_box(avail, i as int)));
            }
            let flex: bool = self.children[i].flex;
            let params: u32 = self.children[i].params;
            let extent: u32 = if flex {
                plan.extent(Ghost(view.children), i, params)
            } else {
                params
            };
            let b = dir.size_with(extent, cross);
            assert(b == view.child_box(avail, i as int));
            let child = &mut self.children[i];
            let size: Size = child.widget.layout(b, env);
            child.layout_rect = Rect::new(dir.point_along(offset), size);
            assert(size == view.child_size(avail, i as int));
            offset = offset + dir.main_extent(size);
            let across: u32 = dir.cross_extent(size);
            if across > max_cross {
                max_cross = across;
            }
            i = i + 1;
        }
        proof {
            self.lemma_fields();
            assert(self@.children =~= view.laid_out(avail, env@).children);
        }
        dir.size_with(offset, max_cross)
    }

    /// Lays the container out in `avail` where the sums of that layout stay
    /// within `u32::MAX`, and returns the size that the container reports;
    /// else changes nothing and returns `None`.
    pub fn try_layout(&mut self, avail: Size, env: &EmptyStateEnv) -> (size: Option<Size>)
        ensures
            size.is_some() == old(self)@.fits(avail),
            size matches Some(s) ==> s == old(self)@.measure(avail) && final(self)@ == old(
                self,
            )@.laid_out(avail, env@),
            size.is_none() ==> final(self)@ == old(self)@,
            old(self)@.wf() ==> final(self)@.wf(),
    {
        if self.measure(avail).is_some() {
            Some(self.layout(avail, env))
        } else {
            None
        }
    }
}

} // verus!
