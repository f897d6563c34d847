//! Ranges of rationals: from a start to an end in steps.

use vstd::prelude::*;
use crate::number::{lemma_whole_quotient, Number, NumberView};
use crate::value::{Range, RangeView};

verus! {

impl RangeView {
    /// Where the counting for an index begins: at the start for an index
    /// of zero or above, at the end for an index below zero.
    pub open spec fn origin(self, index: NumberView) -> NumberView {
        if index.top() >= 0 {
            self.start
        } else {
            self.end
        }
    }

    /// How many steps an index counts, in parts of the index's denominator:
    /// the index itself from the start, and the index and one from the end.
    pub open spec fn paces(self, index: NumberView) -> int {
        if index.top() >= 0 {
            index.top()
        } else {
            index.top() + index.bottom()
        }
    }

    /// The numerator of the member at an index: of the origin and so many steps.
    pub open spec fn member_top(self, index: NumberView) -> int {
        self.origin(index).top() * (self.step.bottom() * index.bottom()) + self.step.top()
            * self.paces(index) * self.origin(index).bottom()
    }

    /// The denominator that goes with `member_top`.
    pub open spec fn member_bottom(self, index: NumberView) -> int {
        self.origin(index).bottom() * (self.step.bottom() * index.bottom())
    }

    /// `x` is the member at `index`: the origin and so many steps.
    pub open spec fn is_member(self, index: NumberView, x: NumberView) -> bool {
        x.top() * self.member_bottom(index) == self.member_top(index) * x.bottom()
    }

    /// Whether the member at `index` lies between start and end.
    pub open spec fn reaches(self, index: NumberView) -> bool {
        &&& self.start.top() * self.member_bottom(index) <= self.member_top(index)
            * self.start.bottom()
        &&& self.member_top(index) * self.end.bottom() <= self.end.top() * self.member_bottom(
            index,
        )
    }

    /// `x` lies `factor` steps from the start.
    pub open spec fn lands(self, x: NumberView, factor: int) -> bool {
        (x.top() * self.start.bottom() - self.start.top() * x.bottom()) * self.step.bottom()
            == factor * self.step.top() * (x.bottom() * self.start.bottom())
    }

    /// Whether the range holds `x`: `x` lies between start and end, and a
    /// whole number of steps from the start. A range whose step is zero
    /// holds nothing.
    pub open spec fn holds(self, x: NumberView) -> bool {
        &&& !x.below(self.start)
        &&& !self.end.below(x)
        &&& self.step.top() != 0
        &&& exists|factor: int| #[trigger] self.lands(x, factor)
    }

    /// `count` is the number of steps from the start to `x`.
    pub open spec fn counts(self, x: NumberView, count: NumberView) -> bool {
        exists|way: NumberView| #[trigger]
            count.is_quotient(way, self.step) && way.is_sum(x, self.start.negated())
    }
}

impl Range {
    /// The range from `start` to `end` in steps of `step`.
    pub fn new(start: Number, end: Number, step: Number) -> (out: Range)
        ensures
            out@ == (RangeView { start: start@, end: end@, step: step@ }),
    {
        Range { start, end, step }
    }

    /// Whether the range holds `x`: `x` lies between start and end, and is a
    /// whole number of steps from the start. A range whose step is zero
    /// holds nothing.
    pub fn contains(&self, x: &Number) -> (out: bool)
        ensures
            out == self@.holds(x@),
    {
        if x.less_than(&self.start) || self.end.less_than(x) {
            return false;
        }
        let way = x.minus(&self.start);
        match way.over(&self.step) {
            Some(count) => {
                self.step.attest();
                self.start.attest();
                x.attest();
                proof {
                    lemma_whole_quotient(count@, way@, self@.step);
                    lemma_aligned(self@, x@, way@);
                }
                count.is_whole()
            },
            None => false,
        }
    }

    /// The member at `index`, counted from the start where the index is
    /// zero or above, and from the end where it is below; none where that
    /// lies outside the range.
    pub fn get(&self, index: &Number) -> (out: Option<Number>)
        ensures
            (out is Some) == self@.reaches(index@),
            out matches Some(x) ==> x@.reduced() && self@.is_member(index@, x@),
    {
        self.start.attest();
        self.end.attest();
        self.step.attest();
        index.attest();
        let x = if index.is_positive() {
            let way = self.step.times(index);
            let x = self.start.plus(&way);
            proof {
                lemma_stepped(self@.start, self@.step, index@.top(), index@.bottom(), way@, x@);
            }
            x
        } else {
            let one = Number::one();
            let back = index.plus(&one);
            let way = self.step.times(&back);
            let x = self.end.plus(&way);
            proof {
                crate::number::lemma_of_whole(1);
                lemma_stepped(self@.end, self@.step, back@.top(), back@.bottom(), way@, x@);
                lemma_rescaled(
                    self@.end,
                    self@.step,
                    back@,
                    index@.top() + index@.bottom(),
                    index@.bottom(),
                    x@,
                );
            }
            x
        };
        proof {
            let top = self@.member_top(index@);
            let bottom = self@.member_bottom(index@);
            assert(bottom > 0) by (nonlinear_arith)
                requires
                    bottom == self@.origin(index@).bottom() * (self@.step.bottom()
                        * index@.bottom()),
                    self@.origin(index@).bottom() > 0,
                    self@.step.bottom() > 0,
                    index@.bottom() > 0,
            ;
            lemma_order(self@.start, x@, top, bottom);
            lemma_order(self@.end, x@, top, bottom);
        }
        if !x.less_than(&self.start) && !self.end.less_than(&x) {
            Some(x)
        } else {
            None
        }
    }

    /// How many members the range has: the steps from start to end, and one
    /// more; none where the step is zero.
    pub fn len(&self) -> (out: Option<Number>)
        ensures
            (out is None) == (self@.step.top() == 0),
            out matches Some(size) ==> exists|count: NumberView| #[trigger]
                self@.counts(self@.end, count) && size@.is_sum(count, NumberView::of_whole(1)),
    {
        let way = self.end.minus(&self.start);
        match way.over(&self.step) {
            Some(count) => {
                let size = count.plus(&Number::one());
                assert(count@.is_quotient(way@, self@.step));
                assert(self@.counts(self@.end, count@));
                Some(size)
            },
            None => None,
        }
    }

    /// The next member: the start, which then moves on by one step; none
    /// once the start has passed the end.
    pub fn next(&mut self) -> (out: Option<Number>)
        ensures
            final(self)@.end == old(self)@.end,
            final(self)@.step == old(self)@.step,
            final(self)@.start.is_sum(old(self)@.start, old(self)@.step),
            out matches Some(x) ==> x@ == old(self)@.start,
            (out is None) == if old(self)@.step.top() >= 0 {
                old(self)@.end.below(old(self)@.start)
            } else {
                old(self)@.start.below(old(self)@.end)
            },
    {
        let x = self.start.clone();
        self.start = self.start.plus(&self.step);
        let past = if self.step.is_positive() {
            self.end.less_than(&x)
        } else {
            x.less_than(&self.end)
        };
        if past {
            None
        } else {
            Some(x)
        }
    }

    /// The range written as `start:end:step`.
    pub fn to_string(&self) -> (out: String)
        ensures
            out@ == crate::number::number_text(self@.start) + ":"@ + crate::number::number_text(
                self@.end,
            ) + ":"@ + crate::number::number_text(self@.step),
    {
        let mut out = self.start.to_string();
        out.append(":");
        out.append(self.end.to_string().as_str());
        out.append(":");
        out.append(self.step.to_string().as_str());
        out
    }
}

/// The sum of `from` and the product of `step` and a count is the fraction
/// that the cross-multiplied sum gives.
proof fn lemma_stepped(
    from: NumberView,
    step: NumberView,
    count_top: int,
    count_bottom: int,
    way: NumberView,
    x: NumberView,
)
    requires
        way.top() * (step.bottom() * count_bottom) == (step.top() * count_top) * way.bottom(),
        x.is_sum(from, way),
        way.bottom() > 0,
    ensures
        x.top() * (from.bottom() * (step.bottom() * count_bottom)) == (from.top() * (step.bottom()
            * count_bottom) + step.top() * count_top * from.bottom()) * x.bottom(),
{
    let (ft, fb) = (from.top(), from.bottom());
    let (wt, wb) = (way.top(), way.bottom());
    let (xt, xb) = (x.top(), x.bottom());
    let scale = step.bottom() * count_bottom;
    let gain = step.top() * count_top;
    let sum = ft * wb + wt * fb;
    let goal_left = xt * (fb * scale);
    let goal_sum = ft * scale + gain * fb;
    // The sum, scaled, is the goal's sum times the way's denominator.
    assert(sum * scale == goal_sum * wb) by (nonlinear_arith)
        requires
            wt * scale == gain * wb,
            sum == ft * wb + wt * fb,
            goal_sum == ft * scale + gain * fb,
    ;
    assert((xt * (fb * wb)) * scale == goal_left * wb) by (nonlinear_arith)
        requires
            goal_left == xt * (fb * scale),
    ;
    assert((sum * xb) * scale == (sum * scale) * xb) by (nonlinear_arith);
    assert((goal_sum * wb) * xb == (goal_sum * xb) * wb) by (nonlinear_arith);
    lemma_cancel(goal_left, goal_sum * xb, wb);
    assert(gain * fb == step.top() * count_top * from.bottom());
}

/// Two numbers with equal multiples by a number above zero are equal.
proof fn lemma_cancel(left: int, right: int, by_this: int)
    requires
        left * by_this == right * by_this,
        by_this > 0,
    ensures
        left == right,
{
    assert(left == right) by (nonlinear_arith)
        requires
            left * by_this == right * by_this,
            by_this > 0,
    ;
}

/// A member counted in one fraction is the member counted in an equal fraction.
proof fn lemma_rescaled(
    from: NumberView,
    step: NumberView,
    count: NumberView,
    paces: int,
    parts: int,
    x: NumberView,
)
    requires
        x.top() * (from.bottom() * (step.bottom() * count.bottom())) == (from.top() * (
        step.bottom() * count.bottom()) + step.top() * count.top() * from.bottom()) * x.bottom(),
        count.top() * parts == paces * count.bottom(),
        count.bottom() > 0,
    ensures
        x.top() * (from.bottom() * (step.bottom() * parts)) == (from.top() * (step.bottom() * parts)
            + step.top() * paces * from.bottom()) * x.bottom(),
{
    let (ft, fb) = (from.top(), from.bottom());
    let (st, sb) = (step.top(), step.bottom());
    let (ct, cb) = (count.top(), count.bottom());
    let (xt, xb) = (x.top(), x.bottom());
    let old_left = xt * (fb * (sb * cb));
    let old_sum = ft * (sb * cb) + st * ct * fb;
    let new_left = xt * (fb * (sb * parts));
    let new_sum = ft * (sb * parts) + st * paces * fb;
    assert(old_left * parts == new_left * cb) by (nonlinear_arith)
        requires
            old_left == xt * (fb * (sb * cb)),
            new_left == xt * (fb * (sb * parts)),
    ;
    assert((st * ct * fb) * parts == (st * paces * fb) * cb) by (nonlinear_arith)
        requires
            ct * parts == paces * cb,
    ;
    assert((ft * (sb * cb)) * parts == (ft * (sb * parts)) * cb) by (nonlinear_arith);
    assert(old_sum * parts == new_sum * cb) by (nonlinear_arith)
        requires
            old_sum == ft * (sb * cb) + st * ct * fb,
            new_sum == ft * (sb * parts) + st * paces * fb,
            (st * ct * fb) * parts == (st * paces * fb) * cb,
            (ft * (sb * cb)) * parts == (ft * (sb * parts)) * cb,
    ;
    assert((old_sum * xb) * parts == (old_sum * parts) * xb) by (nonlinear_arith);
    assert((new_sum * cb) * xb == (new_sum * xb) * cb) by (nonlinear_arith);
    lemma_cancel(new_left, new_sum * xb, cb);
}

/// A fraction stands to a bound as any fraction equal to it does.
proof fn lemma_order(bound: NumberView, x: NumberView, top: int, bottom: int)
    requires
        x.top() * bottom == top * x.bottom(),
        bottom > 0,
        x.bottom() > 0,
    ensures
        x.below(bound) == (top * bound.bottom() < bound.top() * bottom),
        bound.below(x) == (bound.top() * bottom < top * bound.bottom()),
{
    let (xt, xb) = (x.top(), x.bottom());
    let (bt, bb) = (bound.top(), bound.bottom());
    let left = xt * bb;
    let right = bt * xb;
    let wide_left = top * bb;
    let wide_right = bt * bottom;
    assert(left * bottom == wide_left * xb) by (nonlinear_arith)
        requires
            xt * bottom == top * xb,
            left == xt * bb,
            wide_left == top * bb,
    ;
    assert(right * bottom == wide_right * xb) by (nonlinear_arith)
        requires
            right == bt * xb,
            wide_right == bt * bottom,
    ;
    lemma_same_order(left, right, wide_left, wide_right, bottom, xb);
    lemma_same_order(right, left, wide_right, wide_left, bottom, xb);
}

/// Two numbers stand to each other as their multiples by numbers above zero do.
proof fn lemma_same_order(
    left: int,
    right: int,
    wide_left: int,
    wide_right: int,
    by_this: int,
    by_that: int,
)
    requires
        left * by_this == wide_left * by_that,
        right * by_this == wide_right * by_that,
        by_this > 0,
        by_that > 0,
    ensures
        (left < right) == (wide_left < wide_right),
{
    if left < right {
        assert(left * by_this < right * by_this) by (nonlinear_arith)
            requires
                left < right,
                by_this > 0,
        ;
        assert(wide_left < wide_right) by (nonlinear_arith)
            requires
                wide_left * by_that < wide_right * by_that,
                by_that > 0,
        ;
    } else {
        assert(left * by_this >= right * by_this) by (nonlinear_arith)
            requires
                left >= right,
                by_this > 0,
        ;
        assert(wide_left >= wide_right) by (nonlinear_arith)
            requires
                wide_left * by_that >= wide_right * by_that,
                by_that > 0,
        ;
    }
}

/// The way from the start to `x` is a whole multiple of the step exactly
/// when `x` lies a whole number of steps from the start.
proof fn lemma_aligned(range: RangeView, x: NumberView, way: NumberView)
    requires
        way.is_sum(x, range.start.negated()),
        way.bottom() > 0,
        x.bottom() > 0,
        range.start.bottom() > 0,
    ensures
        way.multiple_of(range.step) == exists|factor: int| #[trigger] range.lands(x, factor),
{
    let (wt, wb) = (way.top(), way.bottom());
    let (pt, pb) = (range.step.top(), range.step.bottom());
    let gap = x.top() * range.start.bottom() - range.start.top() * x.bottom();
    let scale = x.bottom() * range.start.bottom();
    assert(range.start.negated().top() == -range.start.top());
    assert(wt * scale == gap * wb) by (nonlinear_arith)
        requires
            wt * (x.bottom() * range.start.bottom()) == (x.top() * range.start.bottom() + (
            -range.start.top()) * x.bottom()) * wb,
            gap == x.top() * range.start.bottom() - range.start.top() * x.bottom(),
            scale == x.bottom() * range.start.bottom(),
    ;
    assert(scale > 0) by (nonlinear_arith)
        requires
            scale == x.bottom() * range.start.bottom(),
            x.bottom() > 0,
            range.start.bottom() > 0,
    ;
    if way.multiple_of(range.step) {
        let k = choose|k: int| #[trigger] way.times_step(range.step, k);
        assert(gap * pb == k * pt * scale) by (nonlinear_arith)
            requires
                wt * scale == gap * wb,
                wt * pb == k * pt * wb,
                wb > 0,
        ;
        assert(range.lands(x, k));
    }
    if exists|factor: int| #[trigger] range.lands(x, factor) {
        let k = choose|k: int| #[trigger] range.lands(x, k);
        assert(wt * pb == k * pt * wb) by (nonlinear_arith)
            requires
                wt * scale == gap * wb,
                gap * pb == k * pt * scale,
                scale > 0,
        ;
        assert(way.times_step(range.step, k));
    }
}

} // verus!
