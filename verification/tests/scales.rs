use chart_geom::error::ChartError;
use chart_geom::rat::Rat;
use chart_geom::scale::{ScaleBand, ScaleLinear, ScalePoint};

/// `a/b == c/d` as rational numbers.
fn rat_is(p: &Rat, num: i128, den: i128) -> bool {
    p.num * den == num * p.den
}

#[test]
fn linear_maps_domain_ends_to_range_ends() {
    let values: Vec<i64> = vec![186, 305, 237, 73, 209, 214];
    let s = ScaleLinear::new(&values, 500);
    assert_eq!(s.dmin, 73);
    assert_eq!(s.dmax, 305);
    let lo = s.tick(73);
    let hi = s.tick(305);
    assert!(rat_is(&lo, 0, 1));
    assert!(rat_is(&hi, 500, 1));
}

#[test]
fn linear_is_monotone() {
    let values: Vec<i64> = vec![0, 100];
    let s = ScaleLinear::new(&values, 400);
    let mut prev = s.tick(0);
    for v in [10i64, 25, 50, 99, 100] {
        let cur = s.tick(v);
        // prev <= cur by cross multiplication.
        assert!(prev.num * cur.den <= cur.num * prev.den);
        prev = cur;
    }
    // An exact interior value: 25 of [0, 100] on 400 pixels is 100.
    assert!(rat_is(&s.tick(25), 100, 1));
}

#[test]
fn linear_degenerate_domain_collapses_to_range_start() {
    let values: Vec<i64> = vec![42, 42];
    let s = ScaleLinear::new(&values, 300);
    assert_eq!(s.dmin, s.dmax);
    let p = s.tick(42);
    assert!(rat_is(&p, 0, 1));
    let q = s.tick(7);
    assert!(rat_is(&q, 0, 1));
}

#[test]
fn linear_empty_collection_gives_zero_domain() {
    let values: Vec<i64> = vec![];
    let s = ScaleLinear::new(&values, 300);
    assert_eq!(s.dmin, 0);
    assert_eq!(s.dmax, 0);
}

#[test]
fn point_scale_six_keys_evenly_spaced() {
    let keys: Vec<i64> = vec![1, 2, 3, 4, 5, 6];
    let s = ScalePoint::new(&keys, 500);
    for (i, k) in keys.iter().enumerate() {
        let p = s.tick(*k).unwrap();
        // The i-th of six keys sits at i/5 * 500 = 100 * i.
        assert!(rat_is(&p, 100 * i as i128, 1));
    }
}

#[test]
fn point_scale_single_key_maps_to_range_start() {
    let keys: Vec<i64> = vec![9];
    let s = ScalePoint::new(&keys, 500);
    let p = s.tick(9).unwrap();
    assert!(rat_is(&p, 0, 1));
}

#[test]
fn point_scale_unknown_key_has_no_position() {
    let keys: Vec<i64> = vec![1, 2, 3];
    let s = ScalePoint::new(&keys, 500);
    assert!(s.tick(99).is_none());
}

#[test]
fn point_scale_dedups_keys_in_first_occurrence_order() {
    let keys: Vec<i64> = vec![5, 3, 5, 8, 3];
    let s = ScalePoint::new(&keys, 300);
    assert_eq!(s.domain, vec![5, 3, 8]);
}

#[test]
fn band_widths_gaps_and_outer_padding_cover_the_extent() {
    // Six keys on [0, 500] with inner padding 0.4 and outer padding 0.2.
    let keys: Vec<i64> = vec![1, 2, 3, 4, 5, 6];
    let s = ScaleBand::new(&keys, 500)
        .padding_inner(2, 5)
        .unwrap()
        .padding_outer(1, 5)
        .unwrap();
    let bw = s.band_width();
    let n = 6i128;
    // Consecutive band starts are one step apart; a step is a band plus a gap.
    let starts: Vec<Rat> = keys.iter().map(|k| s.tick(*k).unwrap()).collect();
    let step_num = starts[1].num - starts[0].num;
    for w in starts.windows(2) {
        assert_eq!(w[1].den, w[0].den);
        assert_eq!(w[1].num - w[0].num, step_num);
    }
    // Outer padding is the first band start.
    let outer_num = starts[0].num;
    let den = starts[0].den;
    assert_eq!(bw.den, den);
    let gap_num = step_num - bw.num;
    // n bands + (n-1) gaps + 2 outer paddings == extent.
    assert_eq!(n * bw.num + (n - 1) * gap_num + 2 * outer_num, 500 * den);
}

#[test]
fn band_width_exact_value() {
    // sden = 6*5*5 - 2*5 + 2*1*5 = 150; width = 500*5*3/150 = 50.
    let keys: Vec<i64> = vec![1, 2, 3, 4, 5, 6];
    let s = ScaleBand::new(&keys, 500)
        .padding_inner(2, 5)
        .unwrap()
        .padding_outer(1, 5)
        .unwrap();
    let bw = s.band_width();
    assert!(rat_is(&bw, 50, 1));
}

#[test]
fn band_unknown_key_has_no_position() {
    let keys: Vec<i64> = vec![1, 2];
    let s = ScaleBand::new(&keys, 100);
    assert!(s.tick(3).is_none());
}

#[test]
fn band_rejects_inner_padding_of_one_or_more() {
    let keys: Vec<i64> = vec![1];
    let s = ScaleBand::new(&keys, 100);
    assert_eq!(s.padding_inner(5, 5).unwrap_err(), ChartError::InvalidRatio);
}

#[test]
fn band_rejects_zero_denominator_outer_padding() {
    let keys: Vec<i64> = vec![1];
    let s = ScaleBand::new(&keys, 100);
    assert_eq!(s.padding_outer(0, 0).unwrap_err(), ChartError::InvalidRatio);
}

#[test]
fn band_zero_padding_partitions_extent_exactly() {
    let keys: Vec<i64> = vec![1, 2, 3, 4];
    let s = ScaleBand::new(&keys, 100);
    let bw = s.band_width();
    assert!(rat_is(&bw, 25, 1));
    let p = s.tick(3).unwrap();
    assert!(rat_is(&p, 50, 1));
}

#[test]
fn rational_comparisons_by_cross_multiplication() {
    let a = Rat::new(1, 2);
    let b = Rat::new(2, 4);
    assert!(a.eq_rat(&b));
    let c = Rat::new(3, 4);
    assert!(a.le_rat(&c));
    assert!(!c.le_rat(&a));
}
