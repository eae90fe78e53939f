use crate::axis::{
    axis_labels, centered_labels, centered_ticks_spec, grid_lines, grid_spec, ticks_spec, AxisText,
};
use crate::delegate::{ChartDelegate, PieChartDelegate};
use crate::error::ChartError;
use crate::pie::{pie_arcs, pie_arcs_spec, pie_fits, ArcSegment, MAX_SLICES, MAX_VALUE};
use crate::rat::{lemma_mul_bound, Rat, RatG};
use crate::scale::{
    band_sden, band_start, band_w, dedup, key_idx, lin_pos, point_pos, seq_max, seq_min,
    ScaleBand, ScaleLinear, ScalePoint, BAND_DEN_LIMIT, BAND_NUM_LIMIT, LIN_DEN_LIMIT, MAX_EXTENT,
    MAX_KEYS, MAX_PAD_DEN,
};
use crate::shape::{
    bar_rects, bar_rects_spec, polyline, polyline_spec, Point, Rect, StrokeStyle, NUM_LIMIT,
};
use vstd::prelude::*;

verus! {

/// Height of the strip reserved under the plot for the x-axis labels; the
/// usable plot height is the pixel height minus this gap.
pub const AXIS_GAP: i64 = 30;

/// Default fill color of an area chart, as packed RGBA.
pub const DEFAULT_AREA_FILL: u32 = 0x2563eb66;

/// Usable plot height under bounds of height `h`: the axis gap is reserved,
/// and a smaller height collapses to an empty plot.
pub open spec fn plot_height(h: int) -> int {
    if h >= AXIS_GAP as int {
        h - AXIS_GAP as int
    } else {
        0
    }
}

/// The domain keys of a series, in order.
pub open spec fn keys_of<T: ChartDelegate>(data: Seq<T>) -> Seq<i64> {
    Seq::new(data.len(), |i: int| data[i].x_spec())
}

/// The values of a series, in order.
pub open spec fn ys_of<T: ChartDelegate>(data: Seq<T>) -> Seq<i64> {
    Seq::new(data.len(), |i: int| data[i].y_spec())
}

/// The labels of a series, in order.
pub open spec fn labels_of<T: ChartDelegate>(data: Seq<T>) -> Seq<Seq<char>> {
    Seq::new(data.len(), |i: int| data[i].label_spec())
}

/// The optional values of a pie series, in order.
pub open spec fn pie_values_of<T: PieChartDelegate>(data: Seq<T>) -> Seq<Option<i64>> {
    Seq::new(data.len(), |i: int| data[i].value_spec())
}

/// Screen position of a scale position `p` on a downward y axis of height
/// `h`: the scale grows upward, the screen downward.
pub open spec fn screen_pos(h: int, p: RatG) -> RatG {
    RatG { num: h * p.den - p.num, den: p.den }
}

/// Denominator shared by every position of a linear scale.
pub open spec fn lin_den(s: ScaleLinear) -> int {
    if s.dmax > s.dmin {
        s.dmax - s.dmin
    } else {
        1
    }
}

/// Positions of `keys` on the point scale over `domain`: a key outside the
/// domain has no position.
pub open spec fn point_ticks(domain: Seq<i64>, extent: int, keys: Seq<i64>) -> Seq<Option<RatG>> {
    Seq::new(
        keys.len(),
        |i: int|
            if domain.contains(keys[i]) {
                Some(point_pos(domain.len() as int, extent, key_idx(domain, keys[i])))
            } else {
                None
            },
    )
}

/// Band start positions of `keys` on the band scale over `domain`.
pub open spec fn band_ticks(
    domain: Seq<i64>,
    extent: int,
    a: int,
    b: int,
    c: int,
    d: int,
    keys: Seq<i64>,
) -> Seq<Option<RatG>> {
    Seq::new(
        keys.len(),
        |i: int|
            if domain.contains(keys[i]) {
                Some(
                    band_start(
                        domain.len() as int,
                        extent,
                        a,
                        b,
                        c,
                        d,
                        key_idx(domain, keys[i]),
                    ),
                )
            } else {
                None
            },
    )
}

/// Band middle positions of `keys`: the band start advanced by half the band
/// width, where each label of a bar chart sits.
pub open spec fn band_mids(
    domain: Seq<i64>,
    extent: int,
    a: int,
    b: int,
    c: int,
    d: int,
    keys: Seq<i64>,
) -> Seq<Option<RatG>> {
    Seq::new(
        keys.len(),
        |i: int|
            if domain.contains(keys[i]) {
                Some(
                    RatG {
                        num: 2 * band_start(
                            domain.len() as int,
                            extent,
                            a,
                            b,
                            c,
                            d,
                            key_idx(domain, keys[i]),
                        ).num + band_w(domain.len() as int, extent, a, b, c, d).num,
                        den: 2 * band_sden(domain.len() as int, a, b, c, d),
                    },
                )
            } else {
                None
            },
    )
}

/// Screen positions of a series' values on the zero-including linear value
/// scale of height `ph`.
pub open spec fn y_screen_of<T: ChartDelegate>(data: Seq<T>, ph: int) -> Seq<Option<RatG>> {
    let dom = ys_of(data).push(0i64);
    Seq::new(
        data.len(),
        |i: int|
            Some(
                screen_pos(ph, lin_pos(seq_min(dom), seq_max(dom), ph, data[i].y_spec() as int)),
            ),
    )
}

/// Screen position of the zero baseline of a series' value scale.
pub open spec fn baseline_of<T: ChartDelegate>(data: Seq<T>, ph: int) -> RatG {
    let dom = ys_of(data).push(0i64);
    screen_pos(ph, lin_pos(seq_min(dom), seq_max(dom), ph, 0))
}

/// Collects the domain keys of a series.
fn collect_keys<T: ChartDelegate>(data: &Vec<T>) -> (r: Vec<i64>)
    ensures
        r@ == keys_of(data@),
{
    let n = data.len();
    let mut r: Vec<i64> = Vec::new();
    let mut i: usize = 0;
    while i < n
        invariant
            0 <= i <= n,
            n == data@.len(),
            r@.len() == i,
            forall|j: int| 0 <= j < i ==> r@[j] == data@[j].x_spec(),
        decreases n - i,
    {
        r.push(data[i].x());
        i += 1;
    }
    proof {
        assert(r@ =~= keys_of(data@));
    }
    r
}

/// Collects the values of a series.
fn collect_ys<T: ChartDelegate>(data: &Vec<T>) -> (r: Vec<i64>)
    ensures
        r@ == ys_of(data@),
{
    let n = data.len();
    let mut r: Vec<i64> = Vec::new();
    let mut i: usize = 0;
    while i < n
        invariant
            0 <= i <= n,
            n == data@.len(),
            r@.len() == i,
            forall|j: int| 0 <= j < i ==> r@[j] == data@[j].y_spec(),
        decreases n - i,
    {
        r.push(data[i].y());
        i += 1;
    }
    proof {
        assert(r@ =~= ys_of(data@));
    }
    r
}

/// Collects the labels of a series.
fn collect_labels<T: ChartDelegate>(data: &Vec<T>) -> (r: Vec<String>)
    ensures
        r.deep_view() == labels_of(data@),
        r@.len() == data@.len(),
{
    let n = data.len();
    let mut r: Vec<String> = Vec::new();
    let mut i: usize = 0;
    while i < n
        invariant
            0 <= i <= n,
            n == data@.len(),
            r@.len() == i,
            forall|j: int| 0 <= j < i ==> r.deep_view()[j] == data@[j].label_spec(),
        decreases n - i,
    {
        let t = data[i].label();
        let ghost prev = r.deep_view();
        r.push(t);
        proof {
            assert(r.deep_view() =~= prev.push(t@));
        }
        i += 1;
    }
    proof {
        assert(r.deep_view() =~= labels_of(data@));
    }
    r
}

/// Collects the optional values of a pie series.
fn collect_pie_values<T: PieChartDelegate>(data: &Vec<T>) -> (r: Vec<Option<i64>>)
    ensures
        r@ == pie_values_of(data@),
{
    let n = data.len();
    let mut r: Vec<Option<i64>> = Vec::new();
    let mut i: usize = 0;
    while i < n
        invariant
            0 <= i <= n,
            n == data@.len(),
            r@.len() == i,
            forall|j: int| 0 <= j < i ==> r@[j] == data@[j].value_spec(),
        decreases n - i,
    {
        r.push(data[i].value());
        i += 1;
    }
    proof {
        assert(r@ =~= pie_values_of(data@));
    }
    r
}

/// Builds the value scale of a chart: a linear scale over the values with
/// zero always included in the domain, so value axes start at a visible
/// baseline.
pub fn value_scale(values: &Vec<i64>, extent: i64) -> (r: ScaleLinear)
    requires
        0 <= extent <= MAX_EXTENT,
    ensures
        r.wf(),
        r.extent == extent,
        r.dmin as int == seq_min(values@.push(0i64)),
        r.dmax as int == seq_max(values@.push(0i64)),
        r.dmin <= 0 <= r.dmax,
{
    let n = values.len();
    let mut vs: Vec<i64> = Vec::new();
    let mut i: usize = 0;
    while i < n
        invariant
            0 <= i <= n,
            n == values@.len(),
            vs@ == values@.take(i as int),
        decreases n - i,
    {
        vs.push(values[i]);
        proof {
            assert(vs@ =~= values@.take(i + 1));
        }
        i += 1;
    }
    proof {
        assert(values@.take(n as int) =~= values@);
    }
    vs.push(0);
    let r = ScaleLinear::new(&vs, extent);
    proof {
        let dom = values@.push(0i64);
        assert(vs@ == dom);
        assert(dom.len() >= 1);
        if dom.len() > 1 {
            assert(dom.last() == 0i64);
        } else {
            assert(dom[0] == 0i64);
        }
        assert(seq_min(dom) <= 0 <= seq_max(dom));
    }
    r
}

/// Screen position of the value `v` under the linear scale `lin`, on a
/// downward axis of height `h`.
fn screen_from_value(lin: &ScaleLinear, h: i64, v: i64) -> (r: Rat)
    requires
        lin.wf(),
        0 <= h <= MAX_EXTENT,
    ensures
        r@ == screen_pos(
            h as int,
            lin_pos(lin.dmin as int, lin.dmax as int, lin.extent as int, v as int),
        ),
        r.den as int == lin_den(*lin),
        r.wf(),
        -NUM_LIMIT <= r.num <= NUM_LIMIT,
{
    let p = lin.tick(v);
    proof {
        lemma_mul_bound(h as int, p.den as int, MAX_EXTENT as int, LIN_DEN_LIMIT as int);
    }
    Rat::new((h as i128) * p.den - p.num, p.den)
}

/// Screen positions of all values of `vs` under `lin`.
fn screen_values(lin: &ScaleLinear, h: i64, vs: &Vec<i64>) -> (r: Vec<Option<Rat>>)
    requires
        lin.wf(),
        0 <= h <= MAX_EXTENT,
    ensures
        r.deep_view() == Seq::new(
            vs@.len(),
            |i: int|
                Some(
                    screen_pos(
                        h as int,
                        lin_pos(lin.dmin as int, lin.dmax as int, lin.extent as int, vs@[i] as int),
                    ),
                ),
        ),
        forall|i: int|
            0 <= i < r@.len() ==> ((#[trigger] r@[i]) matches Some(p) && p.den as int == lin_den(
                *lin,
            ) && -NUM_LIMIT <= p.num <= NUM_LIMIT),
        r@.len() == vs@.len(),
{
    let n = vs.len();
    let mut r: Vec<Option<Rat>> = Vec::new();
    let mut i: usize = 0;
    while i < n
        invariant
            0 <= i <= n,
            n == vs@.len(),
            lin.wf(),
            0 <= h <= MAX_EXTENT,
            r@.len() == i,
            forall|j: int|
                0 <= j < i ==> r.deep_view()[j] == Some(
                    screen_pos(
                        h as int,
                        lin_pos(lin.dmin as int, lin.dmax as int, lin.extent as int, vs@[j] as int),
                    ),
                ),
            forall|j: int|
                0 <= j < i ==> ((#[trigger] r@[j]) matches Some(p) && p.den as int == lin_den(*lin)
                    && -NUM_LIMIT <= p.num <= NUM_LIMIT),
        decreases n - i,
    {
        let p = screen_from_value(lin, h, vs[i]);
        let ghost prev = r.deep_view();
        r.push(Some(p));
        proof {
            assert(r.deep_view() =~= prev.push(Some(p@)));
        }
        i += 1;
    }
    proof {
        assert(r.deep_view() =~= Seq::new(
            vs@.len(),
            |i: int|
                Some(
                    screen_pos(
                        h as int,
                        lin_pos(lin.dmin as int, lin.dmax as int, lin.extent as int, vs@[i] as int),
                    ),
                ),
        ));
    }
    r
}

/// Positions of `keys` on the point scale.
fn point_positions(scale: &ScalePoint, keys: &Vec<i64>) -> (r: Vec<Option<Rat>>)
    requires
        scale.wf(),
    ensures
        r.deep_view() == point_ticks(scale.domain@, scale.extent as int, keys@),
        r@.len() == keys@.len(),
{
    let n = keys.len();
    let mut r: Vec<Option<Rat>> = Vec::new();
    let mut i: usize = 0;
    while i < n
        invariant
            0 <= i <= n,
            n == keys@.len(),
            scale.wf(),
            r@.len() == i,
            forall|j: int|
                0 <= j < i ==> r.deep_view()[j] == point_ticks(
                    scale.domain@,
                    scale.extent as int,
                    keys@,
                )[j],
        decreases n - i,
    {
        let t = scale.tick(keys[i]);
        let ghost prev = r.deep_view();
        r.push(t);
        proof {
            assert(r.deep_view() =~= prev.push(t.deep_view()));
        }
        i += 1;
    }
    proof {
        assert(r.deep_view() =~= point_ticks(scale.domain@, scale.extent as int, keys@));
    }
    r
}

/// Band start positions of `keys` on the band scale.
fn band_positions(scale: &ScaleBand, keys: &Vec<i64>) -> (r: Vec<Option<Rat>>)
    requires
        scale.wf(),
    ensures
        r.deep_view() == band_ticks(
            scale.domain@,
            scale.extent as int,
            scale.inner_num as int,
            scale.inner_den as int,
            scale.outer_num as int,
            scale.outer_den as int,
            keys@,
        ),
        r@.len() == keys@.len(),
{
    let n = keys.len();
    let mut r: Vec<Option<Rat>> = Vec::new();
    let mut i: usize = 0;
    while i < n
        invariant
            0 <= i <= n,
            n == keys@.len(),
            scale.wf(),
            r@.len() == i,
            forall|j: int|
                0 <= j < i ==> r.deep_view()[j] == band_ticks(
                    scale.domain@,
                    scale.extent as int,
                    scale.inner_num as int,
                    scale.inner_den as int,
                    scale.outer_num as int,
                    scale.outer_den as int,
                    keys@,
                )[j],
        decreases n - i,
    {
        let t = scale.tick(keys[i]);
        let ghost prev = r.deep_view();
        r.push(t);
        proof {
            assert(r.deep_view() =~= prev.push(t.deep_view()));
        }
        i += 1;
    }
    proof {
        assert(r.deep_view() =~= band_ticks(
            scale.domain@,
            scale.extent as int,
            scale.inner_num as int,
            scale.inner_den as int,
            scale.outer_num as int,
            scale.outer_den as int,
            keys@,
        ));
    }
    r
}

/// Band middle positions of `keys` on the band scale.
fn band_mid_positions(scale: &ScaleBand, keys: &Vec<i64>) -> (r: Vec<Option<Rat>>)
    requires
        scale.wf(),
    ensures
        r.deep_view() == band_mids(
            scale.domain@,
            scale.extent as int,
            scale.inner_num as int,
            scale.inner_den as int,
            scale.outer_num as int,
            scale.outer_den as int,
            keys@,
        ),
        r@.len() == keys@.len(),
{
    let n = keys.len();
    let bw = scale.band_width();
    let mut r: Vec<Option<Rat>> = Vec::new();
    let mut i: usize = 0;
    while i < n
        invariant
            0 <= i <= n,
            n == keys@.len(),
            scale.wf(),
            bw@ == band_w(
                scale.domain@.len() as int,
                scale.extent as int,
                scale.inner_num as int,
                scale.inner_den as int,
                scale.outer_num as int,
                scale.outer_den as int,
            ),
            1 <= bw.den <= BAND_DEN_LIMIT,
            -BAND_NUM_LIMIT <= bw.num <= BAND_NUM_LIMIT,
            r@.len() == i,
            forall|j: int|
                0 <= j < i ==> r.deep_view()[j] == band_mids(
                    scale.domain@,
                    scale.extent as int,
                    scale.inner_num as int,
                    scale.inner_den as int,
                    scale.outer_num as int,
                    scale.outer_den as int,
                    keys@,
                )[j],
        decreases n - i,
    {
        let mid = match scale.tick(keys[i]) {
            Some(p) => {
                proof {
                    assert(scale.domain@.len() >= 1);
                }
                Some(Rat::new(2 * p.num + bw.num, 2 * p.den))
            },
            None => None,
        };
        let ghost prev = r.deep_view();
        r.push(mid);
        proof {
            assert(r.deep_view() =~= prev.push(mid.deep_view()));
        }
        i += 1;
    }
    proof {
        assert(r.deep_view() =~= band_mids(
            scale.domain@,
            scale.extent as int,
            scale.inner_num as int,
            scale.inner_den as int,
            scale.outer_num as int,
            scale.outer_den as int,
            keys@,
        ));
    }
    r
}

/// Geometry of one area chart render pass.
#[derive(Clone, Debug, PartialEq)]
pub struct AreaChartLayout {
    pub ticks: Vec<AxisText>,
    pub grid: Vec<Rat>,
    pub points: Vec<Point>,
    pub baseline: Rat,
    pub axis_y: Rat,
    pub stroke_style: StrokeStyle,
    pub fill: u32,
}

/// Geometry of one line chart render pass.
#[derive(Clone, Debug, PartialEq)]
pub struct LineChartLayout {
    pub ticks: Vec<AxisText>,
    pub grid: Vec<Rat>,
    pub points: Vec<Point>,
    pub axis_y: Rat,
    pub stroke_style: StrokeStyle,
    pub show_points: bool,
}

/// Geometry of one bar chart render pass.
#[derive(Clone, Debug, PartialEq)]
pub struct BarChartLayout {
    pub ticks: Vec<AxisText>,
    pub grid: Vec<Rat>,
    pub bars: Vec<Rect>,
    pub band_width: Rat,
    pub axis_y: Rat,
}

/// An area chart: a filled region under the series, over a point x-scale and
/// a zero-based linear y-scale.
pub struct AreaChart<T: ChartDelegate> {
    pub data: Vec<T>,
    pub stroke_style: StrokeStyle,
    pub fill: Option<u32>,
    pub tick_margin: usize,
}

/// What `AreaChart::layout` computes from the chart and the pixel bounds.
pub open spec fn area_layout_post<T: ChartDelegate>(
    c: AreaChart<T>,
    w: int,
    h: int,
    r: AreaChartLayout,
) -> bool {
    let ph = plot_height(h);
    let keys = keys_of(c.data@);
    let xs = point_ticks(dedup(keys), w, keys);
    &&& r.ticks.deep_view() == ticks_spec(
        labels_of(c.data@),
        xs,
        c.tick_margin as int,
        c.data@.len() as int,
    )
    &&& r.grid.deep_view() == grid_spec(ph)
    &&& r.points.deep_view() == polyline_spec(xs, y_screen_of(c.data@, ph))
    &&& r.baseline@ == baseline_of(c.data@, ph)
    &&& r.axis_y@ == (RatG { num: ph, den: 1 })
    &&& r.stroke_style == c.stroke_style
    &&& r.fill == (match c.fill {
        Some(f) => f,
        None => DEFAULT_AREA_FILL,
    })
}

impl<T: ChartDelegate> AreaChart<T> {
    /// Builds an area chart with smoothed stroke, default fill and every
    /// label shown.
    pub fn new(data: Vec<T>) -> (r: AreaChart<T>)
        ensures
            r.data == data,
            r.stroke_style == StrokeStyle::Natural,
            r.fill is None,
            r.tick_margin == 1,
    {
        AreaChart { data, stroke_style: StrokeStyle::default(), fill: None, tick_margin: 1 }
    }

    /// Sets the fill color, as packed RGBA.
    pub fn fill(self, fill: u32) -> (r: AreaChart<T>)
        ensures
            r.data == self.data,
            r.stroke_style == self.stroke_style,
            r.fill == Some(fill),
            r.tick_margin == self.tick_margin,
    {
        AreaChart { fill: Some(fill), ..self }
    }

    /// Selects straight segments instead of the smoothed stroke.
    pub fn linear(self) -> (r: AreaChart<T>)
        ensures
            r.data == self.data,
            r.stroke_style == StrokeStyle::Linear,
            r.fill == self.fill,
            r.tick_margin == self.tick_margin,
    {
        AreaChart { stroke_style: StrokeStyle::Linear, ..self }
    }

    /// Shows only every `tick_margin`-th label.
    pub fn tick_margin(self, tick_margin: usize) -> (r: AreaChart<T>)
        ensures
            r.data == self.data,
            r.stroke_style == self.stroke_style,
            r.fill == self.fill,
            r.tick_margin == tick_margin,
    {
        AreaChart { tick_margin, ..self }
    }

    /// Computes the chart geometry for the given pixel bounds.
    pub fn layout(&self, width: i64, height: i64) -> (r: AreaChartLayout)
        requires
            0 <= width <= MAX_EXTENT,
            0 <= height <= MAX_EXTENT,
            self.tick_margin >= 1,
        ensures
            area_layout_post(*self, width as int, height as int, r),
    {
        let ph = if height >= AXIS_GAP {
            height - AXIS_GAP
        } else {
            0
        };
        let keys = collect_keys(&self.data);
        let labels = collect_labels(&self.data);
        let yvals = collect_ys(&self.data);
        let x = ScalePoint::new(&keys, width);
        let lin = value_scale(&yvals, ph);
        let xs = point_positions(&x, &keys);
        let ysv = screen_values(&lin, ph, &yvals);
        proof {
            assert(ysv.deep_view() =~= y_screen_of(self.data@, ph as int));
        }
        let ticks = axis_labels(&labels, &xs, self.tick_margin);
        let grid = grid_lines(ph);
        let points = polyline(&xs, &ysv);
        let baseline = screen_from_value(&lin, ph, 0);
        let fill = match self.fill {
            Some(f) => f,
            None => DEFAULT_AREA_FILL,
        };
        AreaChartLayout {
            ticks,
            grid,
            points,
            baseline,
            axis_y: Rat::whole(ph as i128),
            stroke_style: self.stroke_style,
            fill,
        }
    }
}

/// A line chart: an open polyline over the same scales as an area chart,
/// with optional point markers.
pub struct LineChart<T: ChartDelegate> {
    pub data: Vec<T>,
    pub stroke_style: StrokeStyle,
    pub show_points: bool,
    pub tick_margin: usize,
}

/// What `LineChart::layout` computes from the chart and the pixel bounds.
pub open spec fn line_layout_post<T: ChartDelegate>(
    c: LineChart<T>,
    w: int,
    h: int,
    r: LineChartLayout,
) -> bool {
    let ph = plot_height(h);
    let keys = keys_of(c.data@);
    let xs = point_ticks(dedup(keys), w, keys);
    &&& r.ticks.deep_view() == ticks_spec(
        labels_of(c.data@),
        xs,
        c.tick_margin as int,
        c.data@.len() as int,
    )
    &&& r.grid.deep_view() == grid_spec(ph)
    &&& r.points.deep_view() == polyline_spec(xs, y_screen_of(c.data@, ph))
    &&& r.axis_y@ == (RatG { num: ph, den: 1 })
    &&& r.stroke_style == c.stroke_style
    &&& r.show_points == c.show_points
}

impl<T: ChartDelegate> LineChart<T> {
    /// Builds a line chart with smoothed stroke, no markers and every label
    /// shown.
    pub fn new(data: Vec<T>) -> (r: LineChart<T>)
        ensures
            r.data == data,
            r.stroke_style == StrokeStyle::Natural,
            r.show_points == false,
            r.tick_margin == 1,
    {
        LineChart { data, stroke_style: StrokeStyle::default(), show_points: false, tick_margin: 1 }
    }

    /// Selects straight segments instead of the smoothed stroke.
    pub fn linear(self) -> (r: LineChart<T>)
        ensures
            r.data == self.data,
            r.stroke_style == StrokeStyle::Linear,
            r.show_points == self.show_points,
            r.tick_margin == self.tick_margin,
    {
        LineChart { stroke_style: StrokeStyle::Linear, ..self }
    }

    /// Draws a marker at every data point.
    pub fn point(self) -> (r: LineChart<T>)
        ensures
            r.data == self.data,
            r.stroke_style == self.stroke_style,
            r.show_points == true,
            r.tick_margin == self.tick_margin,
    {
        LineChart { show_points: true, ..self }
    }

    /// Computes the chart geometry for the given pixel bounds.
    pub fn layout(&self, width: i64, height: i64) -> (r: LineChartLayout)
        requires
            0 <= width <= MAX_EXTENT,
            0 <= height <= MAX_EXTENT,
            self.tick_margin >= 1,
        ensures
            line_layout_post(*self, width as int, height as int, r),
    {
        let ph = if height >= AXIS_GAP {
            height - AXIS_GAP
        } else {
            0
        };
        let keys = collect_keys(&self.data);
        let labels = collect_labels(&self.data);
        let yvals = collect_ys(&self.data);
        let x = ScalePoint::new(&keys, width);
        let lin = value_scale(&yvals, ph);
        let xs = point_positions(&x, &keys);
        let ysv = screen_values(&lin, ph, &yvals);
        proof {
            assert(ysv.deep_view() =~= y_screen_of(self.data@, ph as int));
        }
        let ticks = axis_labels(&labels, &xs, self.tick_margin);
        let grid = grid_lines(ph);
        let points = polyline(&xs, &ysv);
        LineChartLayout {
            ticks,
            grid,
            points,
            axis_y: Rat::whole(ph as i128),
            stroke_style: self.stroke_style,
            show_points: self.show_points,
        }
    }
}

/// A bar chart: one rectangle per category, over a band x-scale with fixed
/// padding ratios and a zero-based linear y-scale.
pub struct BarChart<T: ChartDelegate> {
    pub data: Vec<T>,
}

/// Numerator of the inner padding ratio of a bar chart's band scale (2/5).
pub const BAR_PAD_INNER_NUM: i64 = 2;

/// Denominator of the inner padding ratio of a bar chart's band scale.
pub const BAR_PAD_INNER_DEN: i64 = 5;

/// Numerator of the outer padding ratio of a bar chart's band scale (1/5).
pub const BAR_PAD_OUTER_NUM: i64 = 1;

/// Denominator of the outer padding ratio of a bar chart's band scale.
pub const BAR_PAD_OUTER_DEN: i64 = 5;

/// What `BarChart::layout` computes from the chart and the pixel bounds.
pub open spec fn bar_layout_post<T: ChartDelegate>(
    c: BarChart<T>,
    w: int,
    h: int,
    r: BarChartLayout,
) -> bool {
    let ph = plot_height(h);
    let keys = keys_of(c.data@);
    let dom = dedup(keys);
    let a = BAR_PAD_INNER_NUM as int;
    let b = BAR_PAD_INNER_DEN as int;
    let cc = BAR_PAD_OUTER_NUM as int;
    let d = BAR_PAD_OUTER_DEN as int;
    let xs = band_ticks(dom, w, a, b, cc, d, keys);
    &&& r.ticks.deep_view() == centered_ticks_spec(
        labels_of(c.data@),
        band_mids(dom, w, a, b, cc, d, keys),
    )
    &&& r.grid.deep_view() == grid_spec(ph)
    &&& r.bars.deep_view() == bar_rects_spec(
        xs,
        y_screen_of(c.data@, ph),
        band_w(dom.len() as int, w, a, b, cc, d),
        baseline_of(c.data@, ph),
    )
    &&& r.band_width@ == band_w(dom.len() as int, w, a, b, cc, d)
    &&& r.axis_y@ == (RatG { num: ph, den: 1 })
}

impl<T: ChartDelegate> BarChart<T> {
    /// Builds a bar chart.
    pub fn new(data: Vec<T>) -> (r: BarChart<T>)
        ensures
            r.data == data,
    {
        BarChart { data }
    }

    /// Computes the chart geometry for the given pixel bounds.
    pub fn layout(&self, width: i64, height: i64) -> (r: BarChartLayout)
        requires
            0 <= width <= MAX_EXTENT,
            0 <= height <= MAX_EXTENT,
            self.data@.len() <= MAX_KEYS,
        ensures
            bar_layout_post(*self, width as int, height as int, r),
    {
        let ph = if height >= AXIS_GAP {
            height - AXIS_GAP
        } else {
            0
        };
        let keys = collect_keys(&self.data);
        let labels = collect_labels(&self.data);
        let yvals = collect_ys(&self.data);
        let x0 = ScaleBand::new(&keys, width);
        let x1 = match x0.padding_inner(BAR_PAD_INNER_NUM, BAR_PAD_INNER_DEN) {
            Ok(s) => s,
            Err(_) => vstd::pervasive::unreached(),
        };
        let x = match x1.padding_outer(BAR_PAD_OUTER_NUM, BAR_PAD_OUTER_DEN) {
            Ok(s) => s,
            Err(_) => vstd::pervasive::unreached(),
        };
        let bw = x.band_width();
        let lin = value_scale(&yvals, ph);
        let xs = band_positions(&x, &keys);
        let mids = band_mid_positions(&x, &keys);
        let ysv = screen_values(&lin, ph, &yvals);
        proof {
            assert(ysv.deep_view() =~= y_screen_of(self.data@, ph as int));
        }
        let ticks = centered_labels(&labels, &mids);
        let grid = grid_lines(ph);
        let baseline = screen_from_value(&lin, ph, 0);
        let bars = bar_rects(&xs, &ysv, bw, baseline);
        BarChartLayout { ticks, grid, bars, band_width: bw, axis_y: Rat::whole(ph as i128) }
    }
}

/// A pie (or donut) chart: a full angular partition of the series' values.
pub struct PieChart<T: PieChartDelegate> {
    pub data: Vec<T>,
    pub inner_radius: Rat,
    pub outer_radius: Rat,
    pub pad_num: i64,
    pub pad_den: i64,
}

/// The effective outer radius: a configured zero falls back to two fifths of
/// the pixel height.
pub open spec fn eff_outer(configured: RatG, h: int) -> RatG {
    if configured.num == 0 {
        RatG { num: 2 * h, den: 5 }
    } else {
        configured
    }
}

/// What `PieChart::layout` computes from the chart and the pixel bounds.
pub open spec fn pie_layout_post<T: PieChartDelegate>(
    c: PieChart<T>,
    h: int,
    r: Result<Vec<ArcSegment>, ChartError>,
) -> bool {
    let vals = pie_values_of(c.data@);
    match r {
        Ok(arcs) => pie_fits(vals, c.pad_num as int, c.pad_den as int) && arcs.deep_view()
            == pie_arcs_spec(
            vals,
            c.pad_num as int,
            c.pad_den as int,
            c.inner_radius@,
            eff_outer(c.outer_radius@, h),
        ),
        Err(e) => e == ChartError::PadAngleTooLarge && !pie_fits(
            vals,
            c.pad_num as int,
            c.pad_den as int,
        ),
    }
}

impl<T: PieChartDelegate> PieChart<T> {
    /// Builds a pie chart with zero radii (the outer radius then defaults at
    /// layout time) and no padding.
    pub fn new(data: Vec<T>) -> (r: PieChart<T>)
        ensures
            r.data == data,
            r.inner_radius == (Rat { num: 0, den: 1 }),
            r.outer_radius == (Rat { num: 0, den: 1 }),
            r.pad_num == 0,
            r.pad_den == 1,
    {
        PieChart {
            data,
            inner_radius: Rat::whole(0),
            outer_radius: Rat::whole(0),
            pad_num: 0,
            pad_den: 1,
        }
    }

    /// Sets the inner radius (a positive value makes a donut); a negative
    /// radius is rejected.
    pub fn inner_radius(self, r: Rat) -> (res: Result<PieChart<T>, ChartError>)
        ensures
            match res {
                Ok(c) => r.den > 0 && r.num >= 0 && c.data == self.data && c.inner_radius == r
                    && c.outer_radius == self.outer_radius && c.pad_num == self.pad_num
                    && c.pad_den == self.pad_den,
                Err(e) => (e == ChartError::InvalidRatio && r.den <= 0) || (e
                    == ChartError::NegativeRadius && r.den > 0 && r.num < 0),
            },
    {
        if r.den <= 0 {
            Err(ChartError::InvalidRatio)
        } else if r.num < 0 {
            Err(ChartError::NegativeRadius)
        } else {
            Ok(PieChart { inner_radius: r, ..self })
        }
    }

    /// Sets the outer radius; a negative radius is rejected.
    pub fn outer_radius(self, r: Rat) -> (res: Result<PieChart<T>, ChartError>)
        ensures
            match res {
                Ok(c) => r.den > 0 && r.num >= 0 && c.data == self.data && c.outer_radius == r
                    && c.inner_radius == self.inner_radius && c.pad_num == self.pad_num
                    && c.pad_den == self.pad_den,
                Err(e) => (e == ChartError::InvalidRatio && r.den <= 0) || (e
                    == ChartError::NegativeRadius && r.den > 0 && r.num < 0),
            },
    {
        if r.den <= 0 {
            Err(ChartError::InvalidRatio)
        } else if r.num < 0 {
            Err(ChartError::NegativeRadius)
        } else {
            Ok(PieChart { outer_radius: r, ..self })
        }
    }

    /// Sets the pad angle `num / den` radians inserted between adjacent
    /// arcs; a negative angle or a malformed ratio is rejected.
    pub fn pad_angle(self, num: i64, den: i64) -> (res: Result<PieChart<T>, ChartError>)
        ensures
            match res {
                Ok(c) => 0 < den <= MAX_PAD_DEN && num >= 0 && c.data == self.data && c.pad_num
                    == num && c.pad_den == den && c.inner_radius == self.inner_radius
                    && c.outer_radius == self.outer_radius,
                Err(e) => (e == ChartError::InvalidRatio && !(0 < den <= MAX_PAD_DEN)) || (e
                    == ChartError::NegativePadAngle && 0 < den <= MAX_PAD_DEN && num < 0),
            },
    {
        if !(0 < den && den <= MAX_PAD_DEN) {
            Err(ChartError::InvalidRatio)
        } else if num < 0 {
            Err(ChartError::NegativePadAngle)
        } else {
            Ok(PieChart { pad_num: num, pad_den: den, ..self })
        }
    }

    /// Computes the arc partition for the given pixel height. Rejects a pad
    /// budget that cannot fit the full turn.
    pub fn layout(&self, height: i64) -> (r: Result<Vec<ArcSegment>, ChartError>)
        requires
            0 <= height <= MAX_EXTENT,
            self.data@.len() <= MAX_SLICES,
            forall|i: int|
                0 <= i < self.data@.len() ==> ((#[trigger] self.data@[i].value_spec()) matches Some(
                    v,
                ) ==> v <= MAX_VALUE),
            self.pad_num >= 0,
            0 < self.pad_den <= MAX_PAD_DEN,
            self.inner_radius.wf(),
            self.outer_radius.wf(),
        ensures
            pie_layout_post(*self, height as int, r),
    {
        let vals = collect_pie_values(&self.data);
        let outer = if self.outer_radius.num == 0 {
            Rat::new(2 * (height as i128), 5)
        } else {
            self.outer_radius
        };
        proof {
            assert(forall|j: int|
                0 <= j < vals@.len() ==> ((#[trigger] vals@[j]) matches Some(v) ==> v
                    <= MAX_VALUE));
        }
        pie_arcs(&vals, self.pad_num, self.pad_den, self.inner_radius, outer)
    }
}

/// Rebuilding the area geometry from identical data, bounds and
/// configuration gives identical output: the layout is a pure function of
/// its inputs, with no hidden state.
pub proof fn lemma_area_layout_rebuild<T: ChartDelegate>(
    c: AreaChart<T>,
    w: int,
    h: int,
    r1: AreaChartLayout,
    r2: AreaChartLayout,
)
    requires
        area_layout_post(c, w, h, r1),
        area_layout_post(c, w, h, r2),
    ensures
        r1.ticks.deep_view() == r2.ticks.deep_view(),
        r1.grid.deep_view() == r2.grid.deep_view(),
        r1.points.deep_view() == r2.points.deep_view(),
        r1.baseline == r2.baseline,
        r1.axis_y == r2.axis_y,
        r1.stroke_style == r2.stroke_style,
        r1.fill == r2.fill,
{
}

/// Rebuilding the line geometry from identical inputs gives identical
/// output.
pub proof fn lemma_line_layout_rebuild<T: ChartDelegate>(
    c: LineChart<T>,
    w: int,
    h: int,
    r1: LineChartLayout,
    r2: LineChartLayout,
)
    requires
        line_layout_post(c, w, h, r1),
        line_layout_post(c, w, h, r2),
    ensures
        r1.ticks.deep_view() == r2.ticks.deep_view(),
        r1.grid.deep_view() == r2.grid.deep_view(),
        r1.points.deep_view() == r2.points.deep_view(),
        r1.axis_y == r2.axis_y,
        r1.stroke_style == r2.stroke_style,
        r1.show_points == r2.show_points,
{
}

/// Rebuilding the bar geometry from identical inputs gives identical output.
pub proof fn lemma_bar_layout_rebuild<T: ChartDelegate>(
    c: BarChart<T>,
    w: int,
    h: int,
    r1: BarChartLayout,
    r2: BarChartLayout,
)
    requires
        bar_layout_post(c, w, h, r1),
        bar_layout_post(c, w, h, r2),
    ensures
        r1.ticks.deep_view() == r2.ticks.deep_view(),
        r1.grid.deep_view() == r2.grid.deep_view(),
        r1.bars.deep_view() == r2.bars.deep_view(),
        r1.band_width == r2.band_width,
        r1.axis_y == r2.axis_y,
{
}

/// Rebuilding the pie arcs from identical inputs gives identical output.
pub proof fn lemma_pie_layout_rebuild<T: PieChartDelegate>(
    c: PieChart<T>,
    h: int,
    r1: Result<Vec<ArcSegment>, ChartError>,
    r2: Result<Vec<ArcSegment>, ChartError>,
)
    requires
        pie_layout_post(c, h, r1),
        pie_layout_post(c, h, r2),
    ensures
        (r1 is Ok <==> r2 is Ok),
        (r1 matches Ok(a1) ==> (r2 matches Ok(a2) && a1.deep_view() == a2.deep_view())),
        (r1 matches Err(e1) ==> (r2 matches Err(e2) && e1 == e2)),
{
}

} // verus!
