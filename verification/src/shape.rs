use crate::rat::{Rat, RatG};
use vstd::prelude::*;

verus! {

/// Largest position numerator magnitude the shape layouts accept; keeps the
/// numerator arithmetic of a rectangle inside `i128`.
pub const NUM_LIMIT: i128 = 0x8000_0000_0000_0000_0000_0000;

/// How consecutive data points are connected: a smoothed curve, or straight
/// segments.
#[derive(Clone, Copy, Debug, PartialEq, Eq, Structural)]
pub enum StrokeStyle {
    /// Monotone cubic smoothing between points.
    Natural,
    /// Straight segments between points.
    Linear,
}

impl Default for StrokeStyle {
    /// The default stroke style smooths between points.
    fn default() -> (r: StrokeStyle)
        ensures
            r == StrokeStyle::Natural,
    {
        StrokeStyle::Natural
    }
}

/// One vertex of a polyline, in pixel space.
#[derive(Clone, Copy, Debug, PartialEq, Eq, Structural)]
pub struct Point {
    pub x: Rat,
    pub y: Rat,
}

/// The mathematical value of a [`Point`].
pub struct PointG {
    pub x: RatG,
    pub y: RatG,
}

impl View for Point {
    type V = PointG;

    open spec fn view(&self) -> PointG {
        PointG { x: self.x@, y: self.y@ }
    }
}

impl DeepView for Point {
    type V = PointG;

    open spec fn deep_view(&self) -> PointG {
        self.view()
    }
}

/// One bar: the top-left corner, the width and height, and the index of the
/// data point it stands for.
#[derive(Clone, Copy, Debug, PartialEq, Eq, Structural)]
pub struct Rect {
    pub x: Rat,
    pub y: Rat,
    pub w: Rat,
    pub h: Rat,
    pub index: usize,
}

/// The mathematical value of a [`Rect`].
pub struct RectG {
    pub x: RatG,
    pub y: RatG,
    pub w: RatG,
    pub h: RatG,
    pub index: int,
}

impl View for Rect {
    type V = RectG;

    open spec fn view(&self) -> RectG {
        RectG { x: self.x@, y: self.y@, w: self.w@, h: self.h@, index: self.index as int }
    }
}

impl DeepView for Rect {
    type V = RectG;

    open spec fn deep_view(&self) -> RectG {
        self.view()
    }
}

/// Absolute value.
pub open spec fn abs_i(x: int) -> int {
    if x < 0 {
        -x
    } else {
        x
    }
}

/// The polyline through all points whose x and y positions both exist, in
/// series order; a point with a missing position is skipped silently.
pub open spec fn polyline_spec(xs: Seq<Option<RatG>>, ys: Seq<Option<RatG>>) -> Seq<PointG>
    recommends
        xs.len() == ys.len(),
    decreases xs.len(),
{
    if xs.len() == 0 {
        Seq::empty()
    } else {
        let rest = polyline_spec(xs.drop_last(), ys.drop_last());
        let i = xs.len() - 1;
        match (xs[i], ys[i]) {
            (Some(x), Some(y)) => rest.push(PointG { x, y }),
            _ => rest,
        }
    }
}

/// Builds the polyline vertices for a line or an area boundary.
pub fn polyline(xs: &Vec<Option<Rat>>, ys: &Vec<Option<Rat>>) -> (r: Vec<Point>)
    requires
        xs@.len() == ys@.len(),
    ensures
        r.deep_view() == polyline_spec(xs.deep_view(), ys.deep_view()),
{
    let n = xs.len();
    let mut acc: Vec<Point> = Vec::new();
    let mut i: usize = 0;
    while i < n
        invariant
            0 <= i <= n,
            n == xs@.len(),
            n == ys@.len(),
            acc.deep_view() == polyline_spec(
                xs.deep_view().take(i as int),
                ys.deep_view().take(i as int),
            ),
        decreases n - i,
    {
        proof {
            assert(xs.deep_view().take(i + 1).drop_last() =~= xs.deep_view().take(i as int));
            assert(ys.deep_view().take(i + 1).drop_last() =~= ys.deep_view().take(i as int));
            assert(xs.deep_view().take(i + 1)[i as int] == xs.deep_view()[i as int]);
            assert(ys.deep_view().take(i + 1)[i as int] == ys.deep_view()[i as int]);
        }
        match (&xs[i], &ys[i]) {
            (Some(x), Some(y)) => {
                let p = Point { x: *x, y: *y };
                let ghost prev = acc.deep_view();
                acc.push(p);
                proof {
                    assert(acc.deep_view() =~= prev.push(p.deep_view()));
                }
            },
            _ => {},
        }
        i += 1;
    }
    proof {
        assert(xs.deep_view().take(n as int) =~= xs.deep_view());
        assert(ys.deep_view().take(n as int) =~= ys.deep_view());
    }
    acc
}

/// The rectangle for one bar: the top edge is the nearer of the baseline and
/// the value position, the height their distance, the width one band.
pub open spec fn bar_rect_g(x: RatG, bw: RatG, baseline: RatG, y: RatG, i: int) -> RectG {
    RectG {
        x,
        y: if baseline.num <= y.num {
            baseline
        } else {
            y
        },
        w: bw,
        h: RatG { num: abs_i(baseline.num - y.num), den: baseline.den },
        index: i,
    }
}

/// One rectangle per data point that has both a band position and a value
/// position, in series order.
pub open spec fn bar_rects_spec(
    xs: Seq<Option<RatG>>,
    ys: Seq<Option<RatG>>,
    bw: RatG,
    baseline: RatG,
) -> Seq<RectG>
    recommends
        xs.len() == ys.len(),
    decreases xs.len(),
{
    if xs.len() == 0 {
        Seq::empty()
    } else {
        let rest = bar_rects_spec(xs.drop_last(), ys.drop_last(), bw, baseline);
        let i = xs.len() - 1;
        match (xs[i], ys[i]) {
            (Some(x), Some(y)) => rest.push(bar_rect_g(x, bw, baseline, y, i)),
            _ => rest,
        }
    }
}

/// Builds the bar rectangles. Every value position must share the baseline's
/// denominator (they come from the same linear scale) and stay within
/// [`NUM_LIMIT`].
pub fn bar_rects(xs: &Vec<Option<Rat>>, ys: &Vec<Option<Rat>>, bw: Rat, baseline: Rat) -> (r: Vec<
    Rect,
>)
    requires
        xs@.len() == ys@.len(),
        baseline.wf(),
        -NUM_LIMIT <= baseline.num <= NUM_LIMIT,
        forall|i: int|
            0 <= i < ys@.len() ==> ((#[trigger] ys@[i]) matches Some(y) ==> y.den
                == baseline.den && -NUM_LIMIT <= y.num <= NUM_LIMIT),
    ensures
        r.deep_view() == bar_rects_spec(xs.deep_view(), ys.deep_view(), bw@, baseline@),
{
    let n = xs.len();
    let mut acc: Vec<Rect> = Vec::new();
    let mut i: usize = 0;
    while i < n
        invariant
            0 <= i <= n,
            n == xs@.len(),
            n == ys@.len(),
            baseline.wf(),
            -NUM_LIMIT <= baseline.num <= NUM_LIMIT,
            forall|j: int|
                0 <= j < ys@.len() ==> ((#[trigger] ys@[j]) matches Some(y) ==> y.den
                    == baseline.den && -NUM_LIMIT <= y.num <= NUM_LIMIT),
            acc.deep_view() == bar_rects_spec(
                xs.deep_view().take(i as int),
                ys.deep_view().take(i as int),
                bw@,
                baseline@,
            ),
        decreases n - i,
    {
        proof {
            assert(xs.deep_view().take(i + 1).drop_last() =~= xs.deep_view().take(i as int));
            assert(ys.deep_view().take(i + 1).drop_last() =~= ys.deep_view().take(i as int));
            assert(xs.deep_view().take(i + 1)[i as int] == xs.deep_view()[i as int]);
            assert(ys.deep_view().take(i + 1)[i as int] == ys.deep_view()[i as int]);
        }
        match (&xs[i], &ys[i]) {
            (Some(x), Some(y)) => {
                assert(ys@[i as int] matches Some(q) && q.den == baseline.den && -NUM_LIMIT
                    <= q.num <= NUM_LIMIT);
                let top = if baseline.num <= y.num {
                    baseline
                } else {
                    *y
                };
                let diff: i128 = baseline.num - y.num;
                let h = Rat::new(
                    if diff < 0 {
                        -diff
                    } else {
                        diff
                    },
                    baseline.den,
                );
                let rect = Rect { x: *x, y: top, w: bw, h, index: i };
                let ghost prev = acc.deep_view();
                acc.push(rect);
                proof {
                    assert(rect.deep_view() == bar_rect_g(
                        xs.deep_view()[i as int]->Some_0,
                        bw@,
                        baseline@,
                        ys.deep_view()[i as int]->Some_0,
                        i as int,
                    ));
                    assert(acc.deep_view() =~= prev.push(rect.deep_view()));
                }
            },
            _ => {},
        }
        i += 1;
    }
    proof {
        assert(xs.deep_view().take(n as int) =~= xs.deep_view());
        assert(ys.deep_view().take(n as int) =~= ys.deep_view());
    }
    acc
}

/// Every emitted bar stands for a data point with a valid band position; its
/// x-span is exactly one band width and its height is exactly the distance
/// between the value position and the baseline.
pub proof fn lemma_bar_rect_invariant(
    xs: Seq<Option<RatG>>,
    ys: Seq<Option<RatG>>,
    bw: RatG,
    baseline: RatG,
)
    requires
        xs.len() == ys.len(),
    ensures
        forall|k: int|
            0 <= k < bar_rects_spec(xs, ys, bw, baseline).len() ==> {
                let rect = #[trigger] bar_rects_spec(xs, ys, bw, baseline)[k];
                &&& 0 <= rect.index < xs.len()
                &&& xs[rect.index] is Some
                &&& ys[rect.index] is Some
                &&& rect == bar_rect_g(
                    xs[rect.index]->Some_0,
                    bw,
                    baseline,
                    ys[rect.index]->Some_0,
                    rect.index,
                )
                &&& rect.w == bw
                &&& rect.h.num == abs_i(baseline.num - ys[rect.index]->Some_0.num)
                &&& rect.h.den == baseline.den
            },
    decreases xs.len(),
{
    if xs.len() > 0 {
        lemma_bar_rect_invariant(xs.drop_last(), ys.drop_last(), bw, baseline);
        let r = bar_rects_spec(xs, ys, bw, baseline);
        let rest = bar_rects_spec(xs.drop_last(), ys.drop_last(), bw, baseline);
        assert forall|k: int| 0 <= k < r.len() implies {
            let rect = #[trigger] r[k];
            &&& 0 <= rect.index < xs.len()
            &&& xs[rect.index] is Some
            &&& ys[rect.index] is Some
            &&& rect == bar_rect_g(
                xs[rect.index]->Some_0,
                bw,
                baseline,
                ys[rect.index]->Some_0,
                rect.index,
            )
            &&& rect.w == bw
            &&& rect.h.num == abs_i(baseline.num - ys[rect.index]->Some_0.num)
            &&& rect.h.den == baseline.den
        } by {
            if k < rest.len() {
                assert(r[k] == rest[k]);
                assert(xs.drop_last()[rest[k].index] == xs[rest[k].index]);
                assert(ys.drop_last()[rest[k].index] == ys[rest[k].index]);
            }
        }
    }
}

} // verus!
