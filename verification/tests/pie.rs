use chart_geom::delegate::PieDatum;
use chart_geom::error::ChartError;
use chart_geom::chart::PieChart;
use chart_geom::pie::{pie_arcs, ArcSegment};
use chart_geom::rat::Rat;

fn data(values: &[Option<i64>]) -> Vec<PieDatum> {
    values.iter().map(|v| PieDatum { value: *v, color: 0x2563eb }).collect()
}

fn arcs_of(values: &[Option<i64>], pad_num: i64, pad_den: i64) -> Vec<ArcSegment> {
    let vals: Vec<Option<i64>> = values.to_vec();
    pie_arcs(&vals, pad_num, pad_den, Rat::whole(0), Rat::whole(100)).unwrap()
}

const SAMPLE: [Option<i64>; 6] =
    [Some(186), Some(305), Some(237), Some(73), Some(209), Some(214)];

#[test]
fn pie_without_padding_partitions_full_turn() {
    // Total 1224; pi parts are held over the denominator 2 * 1224.
    let arcs = arcs_of(&SAMPLE, 0, 1);
    assert_eq!(arcs.len(), 6);
    let t: i128 = 1224;
    // Starts at twelve o'clock: -pi/2.
    assert_eq!(arcs[0].start.pi.num, -t);
    assert_eq!(arcs[0].start.pi.den, 2 * t);
    // Each span is 2pi * value / total: pi numerator grows by 4 * value.
    let values = [186i128, 305, 237, 73, 209, 214];
    for (k, arc) in arcs.iter().enumerate() {
        assert_eq!(arc.index, k);
        assert_eq!(arc.end.pi.num - arc.start.pi.num, 4 * values[k]);
        // No padding: the radian parts stay zero.
        assert_eq!(arc.start.rad.num, 0);
        assert_eq!(arc.end.rad.num, 0);
    }
    // Arcs are contiguous: each start is the previous end.
    for w in arcs.windows(2) {
        assert_eq!(w[1].start.pi.num, w[0].end.pi.num);
        assert_eq!(w[1].start.rad.num, w[0].end.rad.num);
    }
    // The last arc ends at 3pi/2: a full turn past the start.
    assert_eq!(arcs[5].end.pi.num, 3 * t);
    assert_eq!(arcs[5].end.pi.den, 2 * t);
}

#[test]
fn pie_with_padding_separates_arcs_by_exactly_the_pad_angle() {
    // Pad angle 0.04 = 1/25 radians; radian parts over 1224 * 25 = 30600.
    let arcs = arcs_of(&SAMPLE, 1, 25);
    assert_eq!(arcs.len(), 6);
    let t: i128 = 1224;
    let rad_den: i128 = t * 25;
    // Adjacent arcs are separated by pad = t / (t * 25) = 1/25 radians.
    for w in arcs.windows(2) {
        assert_eq!(w[1].start.pi.num, w[0].end.pi.num);
        assert_eq!(w[1].start.rad.den, rad_den);
        assert_eq!(w[1].start.rad.num - w[0].end.rad.num, t);
    }
    // Total padding consumed: the radian spans sum to -6 * 0.04.
    let mut rad_span_sum: i128 = 0;
    for arc in &arcs {
        rad_span_sum += arc.end.rad.num - arc.start.rad.num;
    }
    assert_eq!(rad_span_sum * 25, -6 * rad_den);
    // The pi parts still sum to the full turn; the last arc ends 0.04 short.
    assert_eq!(arcs[5].end.pi.num, 3 * t);
    assert_eq!(arcs[5].end.rad.num * 25, -rad_den);
}

#[test]
fn pie_zero_value_item_keeps_neighbours_contiguous() {
    let arcs = arcs_of(&[Some(5), Some(0), Some(7)], 0, 1);
    assert_eq!(arcs.len(), 3);
    // The zero-value arc has zero span.
    assert_eq!(arcs[1].start, arcs[1].end);
    // And the chain through it is undisturbed.
    assert_eq!(arcs[1].start.pi.num, arcs[0].end.pi.num);
    assert_eq!(arcs[2].start.pi.num, arcs[1].end.pi.num);
}

#[test]
fn pie_missing_and_negative_values_are_excluded() {
    let arcs = arcs_of(&[Some(4), None, Some(-3), Some(6)], 0, 1);
    assert_eq!(arcs.len(), 2);
    assert_eq!(arcs[0].index, 0);
    assert_eq!(arcs[1].index, 3);
    // The two included values partition the turn between them.
    assert_eq!(arcs[0].end.pi.num - arcs[0].start.pi.num, 4 * 4);
    assert_eq!(arcs[1].end.pi.num - arcs[1].start.pi.num, 4 * 6);
    assert_eq!(arcs[1].start.pi.num, arcs[0].end.pi.num);
}

#[test]
fn pie_zero_total_produces_no_arcs() {
    let arcs = arcs_of(&[Some(0), Some(0)], 0, 1);
    assert!(arcs.is_empty());
    let none_at_all = arcs_of(&[None, None], 0, 1);
    assert!(none_at_all.is_empty());
}

#[test]
fn pie_rejects_pad_budget_beyond_full_turn() {
    let vals: Vec<Option<i64>> = vec![Some(5)];
    let r = pie_arcs(&vals, 7, 1, Rat::whole(0), Rat::whole(100));
    assert_eq!(r.unwrap_err(), ChartError::PadAngleTooLarge);
}

fn err_of<T>(r: Result<T, ChartError>) -> ChartError {
    match r {
        Err(e) => e,
        Ok(_) => panic!("expected an error"),
    }
}

#[test]
fn pie_chart_builder_rejects_bad_configuration() {
    let c = PieChart::new(data(&SAMPLE));
    assert_eq!(err_of(c.pad_angle(-1, 5)), ChartError::NegativePadAngle);
    let c = PieChart::new(data(&SAMPLE));
    assert_eq!(err_of(c.pad_angle(1, 0)), ChartError::InvalidRatio);
    let c = PieChart::new(data(&SAMPLE));
    assert_eq!(err_of(c.inner_radius(Rat::whole(-5))), ChartError::NegativeRadius);
    let c = PieChart::new(data(&SAMPLE));
    assert_eq!(err_of(c.outer_radius(Rat { num: 1, den: 0 })), ChartError::InvalidRatio);
}

#[test]
fn pie_chart_layout_defaults_outer_radius_to_two_fifths_of_height() {
    let c = PieChart::new(data(&[Some(3), Some(7)]));
    let arcs = c.layout(450).unwrap();
    assert_eq!(arcs.len(), 2);
    // 2 * 450 / 5 = 180.
    assert_eq!(arcs[0].outer.num * 1, 180 * arcs[0].outer.den);
    assert_eq!(arcs[0].inner.num, 0);
}

#[test]
fn pie_chart_layout_keeps_configured_radii() {
    let c = PieChart::new(data(&[Some(3), Some(7)]))
        .outer_radius(Rat::whole(100))
        .unwrap()
        .inner_radius(Rat::whole(60))
        .unwrap();
    let arcs = c.layout(450).unwrap();
    assert_eq!(arcs[1].outer, Rat::whole(100));
    assert_eq!(arcs[1].inner, Rat::whole(60));
}

#[test]
fn pie_rebuild_gives_identical_arcs() {
    let c1 = PieChart::new(data(&SAMPLE)).pad_angle(1, 25).unwrap();
    let c2 = PieChart::new(data(&SAMPLE)).pad_angle(1, 25).unwrap();
    assert_eq!(c1.layout(450).unwrap(), c2.layout(450).unwrap());
}
