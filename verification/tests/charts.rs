use chart_geom::axis::TickAlign;
use chart_geom::chart::{value_scale, AreaChart, BarChart, LineChart, DEFAULT_AREA_FILL};
use chart_geom::delegate::Datum;
use chart_geom::rat::Rat;
use chart_geom::shape::StrokeStyle;

const MONTHS: [&str; 6] = ["January", "February", "March", "April", "May", "June"];
const VALUES: [i64; 6] = [186, 305, 237, 73, 209, 214];

fn sample() -> Vec<Datum> {
    MONTHS
        .iter()
        .zip(VALUES.iter())
        .enumerate()
        .map(|(i, (m, v))| Datum { key: i as i64, value: *v, label: m.to_string(), color: 0x2a9d90 })
        .collect()
}

/// `p == num/den` as rational numbers.
fn rat_is(p: &Rat, num: i128, den: i128) -> bool {
    p.num * den == num * p.den
}

#[test]
fn value_scale_always_includes_zero() {
    let values: Vec<i64> = vec![186, 305, 237, 73, 209, 214];
    let s = value_scale(&values, 400);
    assert_eq!(s.dmin, 0);
    assert_eq!(s.dmax, 305);
    let negatives: Vec<i64> = vec![-10, -4];
    let s = value_scale(&negatives, 400);
    assert_eq!(s.dmin, -10);
    assert_eq!(s.dmax, 0);
}

#[test]
fn area_layout_points_and_baseline() {
    // Width 500, height 430: the axis gap of 30 leaves a 400-pixel plot.
    let chart = AreaChart::new(sample());
    let l = chart.layout(500, 430);
    assert_eq!(l.points.len(), 6);
    // x positions: i/5 * 500.
    for (i, p) in l.points.iter().enumerate() {
        assert!(rat_is(&p.x, 100 * i as i128, 1));
    }
    // y of the first point: 400 - 186/305 * 400 = (400*305 - 74400) / 305.
    assert_eq!(l.points[0].y.num, 47600);
    assert_eq!(l.points[0].y.den, 305);
    // The zero baseline sits at the plot bottom when no value is negative.
    assert!(rat_is(&l.baseline, 400, 1));
    assert!(rat_is(&l.axis_y, 400, 1));
    assert_eq!(l.stroke_style, StrokeStyle::Natural);
    assert_eq!(l.fill, DEFAULT_AREA_FILL);
}

#[test]
fn area_builders_set_configuration() {
    let chart = AreaChart::new(sample()).fill(0x123456).linear().tick_margin(2);
    let l = chart.layout(500, 430);
    assert_eq!(l.stroke_style, StrokeStyle::Linear);
    assert_eq!(l.fill, 0x123456);
}

#[test]
fn tick_filtering_every_second_label() {
    // Margin 2 over six points keeps 0-based indices 1, 3, 5.
    let chart = AreaChart::new(sample()).tick_margin(2);
    let l = chart.layout(500, 430);
    assert_eq!(l.ticks.len(), 3);
    assert_eq!(l.ticks[0].text, "February");
    assert_eq!(l.ticks[1].text, "April");
    assert_eq!(l.ticks[2].text, "June");
    assert!(rat_is(&l.ticks[0].pos, 100, 1));
    assert!(rat_is(&l.ticks[1].pos, 300, 1));
    assert!(rat_is(&l.ticks[2].pos, 500, 1));
    // Alignment follows the index within the whole series: the last series
    // point is end-aligned, interior points are centered.
    assert_eq!(l.ticks[0].align, TickAlign::Center);
    assert_eq!(l.ticks[1].align, TickAlign::Center);
    assert_eq!(l.ticks[2].align, TickAlign::End);
}

#[test]
fn tick_margin_one_shows_every_label_with_edge_alignment() {
    let chart = AreaChart::new(sample());
    let l = chart.layout(500, 430);
    assert_eq!(l.ticks.len(), 6);
    assert_eq!(l.ticks[0].align, TickAlign::Start);
    for k in 1..5 {
        assert_eq!(l.ticks[k].align, TickAlign::Center);
    }
    assert_eq!(l.ticks[5].align, TickAlign::End);
}

#[test]
fn grid_divides_plot_height_into_quarters() {
    let chart = LineChart::new(sample());
    let l = chart.layout(500, 430);
    assert_eq!(l.grid.len(), 4);
    for (i, g) in l.grid.iter().enumerate() {
        assert!(rat_is(g, 100 * i as i128, 1));
    }
}

#[test]
fn line_layout_matches_area_points_and_flags() {
    let line = LineChart::new(sample()).linear().point();
    let area = AreaChart::new(sample()).linear();
    let ll = line.layout(500, 430);
    let al = area.layout(500, 430);
    assert_eq!(ll.points, al.points);
    assert_eq!(ll.stroke_style, StrokeStyle::Linear);
    assert!(ll.show_points);
    assert!(!LineChart::new(sample()).layout(500, 430).show_points);
}

#[test]
fn bar_rectangles_span_baseline_to_value() {
    // Two categories on a 100-pixel-wide, 100-pixel-high plot; one value
    // negative, so the baseline sits strictly inside the plot.
    let data = vec![
        Datum { key: 0, value: 10, label: "a".to_string(), color: 0 },
        Datum { key: 1, value: -5, label: "b".to_string(), color: 0 },
    ];
    let chart = BarChart::new(data);
    let l = chart.layout(100, 130);
    assert_eq!(l.bars.len(), 2);
    // Band: sden = 2*5*5 - 2*5 + 2*1*5 = 50; width = 100*5*3/50 = 30.
    assert!(rat_is(&l.band_width, 30, 1));
    assert!(rat_is(&l.bars[0].x, 10, 1));
    assert!(rat_is(&l.bars[1].x, 60, 1));
    // Value 10 of domain [-5, 10]: pixel 0 (top); baseline at (0-(-5))/15*100
    // from the bottom: screen 1000/15.
    assert!(rat_is(&l.bars[0].y, 0, 1));
    assert!(rat_is(&l.bars[0].h, 1000, 15));
    // The negative bar hangs below the baseline.
    assert!(rat_is(&l.bars[1].y, 1000, 15));
    assert!(rat_is(&l.bars[1].h, 500, 15));
    // Each bar's width is exactly one band width, and its height is the
    // distance between the value pixel and the baseline pixel.
    for bar in &l.bars {
        assert_eq!(bar.w, l.band_width);
        assert_eq!(bar.h.num, (bar.h.num).abs());
    }
    assert_eq!(l.bars[0].index, 0);
    assert_eq!(l.bars[1].index, 1);
}

#[test]
fn bar_labels_sit_in_band_middles() {
    let data = vec![
        Datum { key: 0, value: 10, label: "a".to_string(), color: 0 },
        Datum { key: 1, value: 20, label: "b".to_string(), color: 0 },
    ];
    let l = BarChart::new(data).layout(100, 130);
    assert_eq!(l.ticks.len(), 2);
    assert_eq!(l.ticks[0].text, "a");
    assert_eq!(l.ticks[0].align, TickAlign::Center);
    assert_eq!(l.ticks[1].align, TickAlign::Center);
    // Band start 10 plus half the band width 30 is 25.
    assert!(rat_is(&l.ticks[0].pos, 25, 1));
    assert!(rat_is(&l.ticks[1].pos, 75, 1));
}

#[test]
fn empty_series_renders_no_geometry() {
    let chart = AreaChart::new(Vec::<Datum>::new());
    let l = chart.layout(500, 430);
    assert!(l.points.is_empty());
    assert!(l.ticks.is_empty());
    assert_eq!(l.grid.len(), 4);
    let bars = BarChart::new(Vec::<Datum>::new()).layout(500, 430);
    assert!(bars.bars.is_empty());
}

#[test]
fn small_bounds_collapse_to_empty_plot_height() {
    let chart = AreaChart::new(sample());
    let l = chart.layout(500, 10);
    // Height below the axis gap: every vertical position collapses to zero.
    assert!(rat_is(&l.axis_y, 0, 1));
    assert!(rat_is(&l.grid[3], 0, 1));
}

#[test]
fn rebuilding_identical_charts_gives_identical_geometry() {
    let a1 = AreaChart::new(sample()).tick_margin(2).layout(500, 430);
    let a2 = AreaChart::new(sample()).tick_margin(2).layout(500, 430);
    assert_eq!(a1, a2);
    let l1 = LineChart::new(sample()).point().layout(500, 430);
    let l2 = LineChart::new(sample()).point().layout(500, 430);
    assert_eq!(l1, l2);
    let b1 = BarChart::new(sample()).layout(500, 430);
    let b2 = BarChart::new(sample()).layout(500, 430);
    assert_eq!(b1, b2);
}

#[test]
fn duplicate_keys_collapse_to_one_position() {
    let data = vec![
        Datum { key: 7, value: 1, label: "x".to_string(), color: 0 },
        Datum { key: 7, value: 2, label: "y".to_string(), color: 0 },
        Datum { key: 8, value: 3, label: "z".to_string(), color: 0 },
    ];
    let l = LineChart::new(data).layout(500, 430);
    // Three data points, two distinct keys: both key-7 points share x = 0.
    assert_eq!(l.points.len(), 3);
    assert!(rat_is(&l.points[0].x, 0, 1));
    assert!(rat_is(&l.points[1].x, 0, 1));
    assert!(rat_is(&l.points[2].x, 500, 1));
}

#[test]
fn tick_margin_eight_over_long_series() {
    // 91 daily points with every eighth label shown, as a dense series would
    // be decimated: 0-based indices 7, 15, ..., 87 pass the filter.
    let data: Vec<Datum> = (0..91)
        .map(|i| Datum { key: i, value: 100 + (i * 37) % 400, label: format!("day {}", i), color: 0 })
        .collect();
    let l = AreaChart::new(data).tick_margin(8).layout(900, 430);
    assert_eq!(l.ticks.len(), 11);
    assert_eq!(l.ticks[0].text, "day 7");
    assert_eq!(l.ticks[10].text, "day 87");
    assert_eq!(l.ticks[0].align, TickAlign::Center);
    assert_eq!(l.points.len(), 91);
}
