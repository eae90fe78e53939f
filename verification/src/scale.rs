use crate::error::ChartError;
use crate::rat::{lemma_mul_bound, Rat, RatG};
use vstd::prelude::*;

verus! {

/// Largest pixel extent a scale accepts; keeps every position numerator
/// well inside `i128`.
pub const MAX_EXTENT: i64 = 1_000_000_000;

/// Largest denominator accepted for a padding ratio.
pub const MAX_PAD_DEN: i64 = 1_000_000;

/// Largest number of discrete keys a band scale accepts.
pub const MAX_KEYS: usize = 1_000_000_000;

/// Magnitude bound on the numerator of a linear-scale position.
pub const LIN_NUM_LIMIT: i128 = 0x4000_0000_0000_0000_0000_0000;

/// Bound on the denominator of a linear-scale position.
pub const LIN_DEN_LIMIT: i128 = 0x1_0000_0000_0000_0000;

/// Magnitude bound on the numerator of a band-scale position.
pub const BAND_NUM_LIMIT: i128 = 0x10_0000_0000_0000_0000_0000_0000;

/// Bound on the denominator of a band-scale position.
pub const BAND_DEN_LIMIT: i128 = 0x40_0000_0000_0000_0000;

/// Smallest element of a non-empty sequence.
pub open spec fn seq_min(s: Seq<i64>) -> int
    recommends
        s.len() > 0,
    decreases s.len(),
{
    if s.len() <= 1 {
        s[0] as int
    } else {
        let m = seq_min(s.drop_last());
        if (s.last() as int) < m {
            s.last() as int
        } else {
            m
        }
    }
}

/// Largest element of a non-empty sequence.
pub open spec fn seq_max(s: Seq<i64>) -> int
    recommends
        s.len() > 0,
    decreases s.len(),
{
    if s.len() <= 1 {
        s[0] as int
    } else {
        let m = seq_max(s.drop_last());
        if (s.last() as int) > m {
            s.last() as int
        } else {
            m
        }
    }
}

/// No element occurs twice.
pub open spec fn unique_seq(s: Seq<i64>) -> bool {
    forall|i: int, j: int| 0 <= i < j < s.len() ==> s[i] != s[j]
}

/// The distinct elements of `s`, in first-occurrence order.
pub open spec fn dedup(s: Seq<i64>) -> Seq<i64>
    decreases s.len(),
{
    if s.len() == 0 {
        Seq::empty()
    } else {
        let rest = dedup(s.drop_last());
        if rest.contains(s.last()) {
            rest
        } else {
            rest.push(s.last())
        }
    }
}

/// Index of the first occurrence of `k` in `s`.
pub open spec fn key_idx(s: Seq<i64>, k: i64) -> int
    decreases s.len(),
{
    if s.len() == 0 {
        0
    } else if s[0] == k {
        0
    } else {
        1 + key_idx(s.drop_first(), k)
    }
}

/// Deduplication keeps membership, never grows the sequence, and yields
/// unique elements.
proof fn lemma_dedup_props(s: Seq<i64>)
    ensures
        dedup(s).len() <= s.len(),
        unique_seq(dedup(s)),
        forall|x: i64| #[trigger] dedup(s).contains(x) <==> s.contains(x),
    decreases s.len(),
{
    if s.len() == 0 {
        assert forall|x: i64| #[trigger] dedup(s).contains(x) <==> s.contains(x) by {
            assert(!s.contains(x));
            assert(!dedup(s).contains(x));
        }
    } else {
        let t = s.drop_last();
        lemma_dedup_props(t);
        let rest = dedup(t);
        assert forall|x: i64| #[trigger] s.contains(x) <==> (t.contains(x) || x == s.last()) by {
            if s.contains(x) {
                let i = choose|i: int| 0 <= i < s.len() && s[i] == x;
                if i < s.len() - 1 {
                    assert(t[i] == x);
                    assert(t.contains(x));
                }
            }
            if t.contains(x) {
                let i = choose|i: int| 0 <= i < t.len() && t[i] == x;
                assert(s[i] == x);
            }
            if x == s.last() {
                assert(s[s.len() - 1] == x);
            }
        }
        if rest.contains(s.last()) {
            assert(dedup(s) == rest);
        } else {
            assert(dedup(s) == rest.push(s.last()));
            assert forall|i: int, j: int|
                0 <= i < j < rest.push(s.last()).len() implies rest.push(s.last())[i] != rest.push(
                s.last(),
            )[j] by {
                if j < rest.len() {
                } else {
                    assert(rest.push(s.last())[j] == s.last());
                    assert(rest[i] == rest.push(s.last())[i]);
                    assert(rest.contains(rest[i]));
                }
            }
            assert forall|x: i64| #[trigger] dedup(s).contains(x) <==> s.contains(x) by {
                if dedup(s).contains(x) {
                    let i = choose|i: int| 0 <= i < dedup(s).len() && dedup(s)[i] == x;
                    if i < rest.len() {
                        assert(rest.contains(x));
                    } else {
                        assert(x == s.last());
                    }
                }
                if s.contains(x) {
                    if t.contains(x) {
                        assert(rest.contains(x));
                        let i = choose|i: int| 0 <= i < rest.len() && rest[i] == x;
                        assert(dedup(s)[i] == rest[i]);
                        assert(dedup(s)[i] == x);
                    } else {
                        assert(x == s.last());
                        assert(dedup(s)[rest.len() as int] == x);
                    }
                }
            }
        }
    }
}

/// `key_idx` names the first position that holds `k`.
proof fn lemma_key_idx_at(s: Seq<i64>, k: i64, i: int)
    requires
        0 <= i < s.len(),
        s[i] == k,
        forall|j: int| 0 <= j < i ==> s[j] != k,
    ensures
        key_idx(s, k) == i,
    decreases s.len(),
{
    if i == 0 {
    } else {
        assert(s[0] != k);
        let t = s.drop_first();
        assert(t[i - 1] == k);
        assert forall|j: int| 0 <= j < i - 1 implies t[j] != k by {
            assert(t[j] == s[j + 1]);
        }
        lemma_key_idx_at(t, k, i - 1);
    }
}

/// Whether `v` holds `k`.
fn contains_key(v: &Vec<i64>, k: i64) -> (r: bool)
    ensures
        r == v@.contains(k),
{
    let n = v.len();
    let mut j: usize = 0;
    while j < n
        invariant
            0 <= j <= n,
            n == v@.len(),
            forall|t: int| 0 <= t < j ==> v@[t] != k,
        decreases n - j,
    {
        if v[j] == k {
            return true;
        }
        j += 1;
    }
    false
}

/// The distinct keys of `keys`, in first-occurrence order.
fn dedup_keys(keys: &Vec<i64>) -> (r: Vec<i64>)
    ensures
        r@ == dedup(keys@),
{
    let n = keys.len();
    let mut acc: Vec<i64> = Vec::new();
    let mut i: usize = 0;
    while i < n
        invariant
            0 <= i <= n,
            n == keys@.len(),
            acc@ == dedup(keys@.take(i as int)),
        decreases n - i,
    {
        let k = keys[i];
        proof {
            assert(keys@.take(i + 1).drop_last() =~= keys@.take(i as int));
            assert(keys@.take(i + 1).last() == keys@[i as int]);
        }
        if !contains_key(&acc, k) {
            acc.push(k);
        }
        i += 1;
    }
    proof {
        assert(keys@.take(n as int) =~= keys@);
    }
    acc
}

/// Affine position of the value `v` on a linear scale: `(v - dmin) / (dmax -
/// dmin) * extent`; a degenerate domain collapses to the range start.
pub open spec fn lin_pos(dmin: int, dmax: int, extent: int, v: int) -> RatG {
    if dmax > dmin {
        RatG { num: (v - dmin) * extent, den: dmax - dmin }
    } else {
        RatG { num: 0, den: 1 }
    }
}

/// Continuous numeric domain mapped affinely onto the pixel interval
/// `[0, extent]`.
#[derive(Clone, Copy, Debug, PartialEq, Eq, Structural)]
pub struct ScaleLinear {
    pub dmin: i64,
    pub dmax: i64,
    pub extent: i64,
}

impl ScaleLinear {
    pub open spec fn wf(self) -> bool {
        self.dmin <= self.dmax && 0 <= self.extent <= MAX_EXTENT
    }

    /// Builds a linear scale whose domain spans the values' minimum to their
    /// maximum; an empty collection collapses to the degenerate domain `[0, 0]`.
    pub fn new(values: &Vec<i64>, extent: i64) -> (r: ScaleLinear)
        requires
            0 <= extent <= MAX_EXTENT,
        ensures
            r.wf(),
            r.extent == extent,
            values@.len() == 0 ==> r.dmin == 0 && r.dmax == 0,
            values@.len() > 0 ==> r.dmin as int == seq_min(values@) && r.dmax as int == seq_max(
                values@,
            ),
    {
        let n = values.len();
        if n == 0 {
            return ScaleLinear { dmin: 0, dmax: 0, extent };
        }
        let mut mn = values[0];
        let mut mx = values[0];
        let mut i: usize = 1;
        while i < n
            invariant
                1 <= i <= n,
                n == values@.len(),
                mn as int == seq_min(values@.take(i as int)),
                mx as int == seq_max(values@.take(i as int)),
                mn <= mx,
            decreases n - i,
        {
            proof {
                assert(values@.take(i + 1).drop_last() =~= values@.take(i as int));
                assert(values@.take(i + 1).last() == values@[i as int]);
            }
            let v = values[i];
            if v < mn {
                mn = v;
            }
            if v > mx {
                mx = v;
            }
            i += 1;
        }
        proof {
            assert(values@.take(n as int) =~= values@);
        }
        ScaleLinear { dmin: mn, dmax: mx, extent }
    }

    /// Pixel position of the value `v`.
    pub fn tick(&self, v: i64) -> (r: Rat)
        requires
            self.wf(),
        ensures
            r@ == lin_pos(self.dmin as int, self.dmax as int, self.extent as int, v as int),
            r.wf(),
            1 <= r.den <= LIN_DEN_LIMIT,
            -LIN_NUM_LIMIT <= r.num <= LIN_NUM_LIMIT,
    {
        if self.dmax > self.dmin {
            let diff: i128 = (v as i128) - (self.dmin as i128);
            proof {
                lemma_mul_bound(
                    diff as int,
                    self.extent as int,
                    0x1_0000_0000_0000_0000,
                    MAX_EXTENT as int,
                );
            }
            Rat::new(diff * (self.extent as i128), (self.dmax as i128) - (self.dmin as i128))
        } else {
            Rat::whole(0)
        }
    }
}

/// The linear mapping sends the domain ends to the range ends.
pub proof fn lemma_linear_endpoints(dmin: int, dmax: int, extent: int)
    requires
        dmax > dmin,
    ensures
        lin_pos(dmin, dmax, extent, dmin).eq_with(RatG { num: 0, den: 1 }),
        lin_pos(dmin, dmax, extent, dmax).eq_with(RatG { num: extent, den: 1 }),
{
    assert((dmin - dmin) * extent * 1 == 0 * (dmax - dmin)) by (nonlinear_arith);
    assert((dmax - dmin) * extent * 1 == extent * (dmax - dmin)) by (nonlinear_arith);
}

/// The linear mapping is monotone: a larger value is never mapped to a
/// smaller pixel position.
pub proof fn lemma_linear_monotone(dmin: int, dmax: int, extent: int, v1: int, v2: int)
    requires
        dmax > dmin,
        extent >= 0,
        v1 <= v2,
    ensures
        lin_pos(dmin, dmax, extent, v1).le_with(lin_pos(dmin, dmax, extent, v2)),
{
    assert((v1 - dmin) * extent * (dmax - dmin) <= (v2 - dmin) * extent * (dmax - dmin))
        by (nonlinear_arith)
        requires
            v1 <= v2,
            dmax > dmin,
            extent >= 0,
    ;
}

/// Position of the `i`-th of `n` discrete keys: `i / (n - 1) * extent`,
/// collapsing to the range start when only one key exists.
pub open spec fn point_pos(n: int, extent: int, i: int) -> RatG {
    if n <= 1 {
        RatG { num: 0, den: 1 }
    } else {
        RatG { num: i * extent, den: n - 1 }
    }
}

/// Ordered set of discrete keys mapped to evenly spaced positions across
/// `[0, extent]`.
#[derive(Clone, Debug, PartialEq, Eq)]
pub struct ScalePoint {
    pub domain: Vec<i64>,
    pub extent: i64,
}

impl ScalePoint {
    pub open spec fn wf(self) -> bool {
        unique_seq(self.domain@) && 0 <= self.extent <= MAX_EXTENT
    }

    /// Builds a point scale over the distinct keys of `keys`, in
    /// first-occurrence order.
    pub fn new(keys: &Vec<i64>, extent: i64) -> (r: ScalePoint)
        requires
            0 <= extent <= MAX_EXTENT,
        ensures
            r.wf(),
            r.domain@ == dedup(keys@),
            r.extent == extent,
    {
        proof {
            lemma_dedup_props(keys@);
        }
        ScalePoint { domain: dedup_keys(keys), extent }
    }

    /// Pixel position of `key`, or `None` for a key outside the domain.
    pub fn tick(&self, key: i64) -> (r: Option<Rat>)
        requires
            self.wf(),
        ensures
            match r {
                Some(p) => self.domain@.contains(key) && p.wf() && p@ == point_pos(
                    self.domain@.len() as int,
                    self.extent as int,
                    key_idx(self.domain@, key),
                ),
                None => !self.domain@.contains(key),
            },
    {
        let n = self.domain.len();
        let mut i: usize = 0;
        while i < n
            invariant
                0 <= i <= n,
                n == self.domain@.len(),
                self.wf(),
                forall|j: int| 0 <= j < i ==> self.domain@[j] != key,
            decreases n - i,
        {
            if self.domain[i] == key {
                proof {
                    lemma_key_idx_at(self.domain@, key, i as int);
                }
                if n == 1 {
                    return Some(Rat::whole(0));
                }
                proof {
                    lemma_mul_bound(
                        i as int,
                        self.extent as int,
                        0x1_0000_0000_0000_0000,
                        MAX_EXTENT as int,
                    );
                }
                return Some(Rat::new((i as i128) * (self.extent as i128), (n as i128) - 1));
            }
            i += 1;
        }
        None
    }
}

/// Two adjacent keys of a point scale are exactly `extent / (n - 1)` apart.
pub proof fn lemma_point_spacing(n: int, extent: int, i: int)
    requires
        n >= 2,
        0 <= i < n - 1,
    ensures
        point_pos(n, extent, i + 1).num - point_pos(n, extent, i).num == extent,
        point_pos(n, extent, i + 1).den == point_pos(n, extent, i).den,
{
    assert((i + 1) * extent - i * extent == extent) by (nonlinear_arith);
}

/// Common denominator of every band-scale position: with `n` keys, inner
/// padding `a / b` and outer padding `c / d`, the step unit is
/// `extent * b * d / band_sden`.
pub open spec fn band_sden(n: int, a: int, b: int, c: int, d: int) -> int {
    n * b * d - a * d + 2 * (c * b)
}

/// Start pixel of the `i`-th band.
pub open spec fn band_start(n: int, extent: int, a: int, b: int, c: int, d: int, i: int) -> RatG {
    RatG { num: extent * b * (c + i * d), den: band_sden(n, a, b, c, d) }
}

/// Fixed width of every band.
pub open spec fn band_w(n: int, extent: int, a: int, b: int, c: int, d: int) -> RatG {
    if n == 0 {
        RatG { num: 0, den: 1 }
    } else {
        RatG { num: extent * d * (b - a), den: band_sden(n, a, b, c, d) }
    }
}

/// Gap between two adjacent bands.
pub open spec fn band_gap(n: int, extent: int, a: int, b: int, c: int, d: int) -> RatG {
    RatG { num: extent * d * a, den: band_sden(n, a, b, c, d) }
}

/// Outer padding reserved at each end of the range.
pub open spec fn band_outer(n: int, extent: int, a: int, b: int, c: int, d: int) -> RatG {
    RatG { num: extent * b * c, den: band_sden(n, a, b, c, d) }
}

/// The common band denominator is positive for a non-empty domain.
pub proof fn lemma_band_sden_pos(n: int, a: int, b: int, c: int, d: int)
    by (nonlinear_arith)
    requires
        n >= 1,
        0 <= a < b,
        0 <= c <= d,
        d > 0,
    ensures
        band_sden(n, a, b, c, d) > 0,
{
}

/// All band widths, all inner gaps and both outer paddings together cover
/// the range exactly.
pub proof fn lemma_band_coverage(n: int, extent: int, a: int, b: int, c: int, d: int)
    requires
        n >= 1,
        0 <= a < b,
        0 <= c <= d,
        d > 0,
    ensures
        n * band_w(n, extent, a, b, c, d).num + (n - 1) * band_gap(n, extent, a, b, c, d).num + 2
            * band_outer(n, extent, a, b, c, d).num == extent * band_sden(n, a, b, c, d),
        band_w(n, extent, a, b, c, d).den == band_sden(n, a, b, c, d),
        band_gap(n, extent, a, b, c, d).den == band_sden(n, a, b, c, d),
        band_outer(n, extent, a, b, c, d).den == band_sden(n, a, b, c, d),
{
    let u = extent * d;
    let w = extent * b;
    assert(n * (u * (b - a)) + (n - 1) * (u * a) == u * (n * b - a)) by (nonlinear_arith);
    assert(extent * (n * b * d - a * d + 2 * (c * b)) == u * (n * b - a) + 2 * (w * c))
        by (nonlinear_arith)
        requires
            u == extent * d,
            w == extent * b,
    ;
    assert(extent * d * (b - a) == u * (b - a)) by (nonlinear_arith)
        requires
            u == extent * d,
    ;
    assert(extent * d * a == u * a) by (nonlinear_arith)
        requires
            u == extent * d,
    ;
    assert(extent * b * c == w * c) by (nonlinear_arith)
        requires
            w == extent * b,
    ;
}

/// Ordered set of discrete keys, each owning a fixed-width band, with inner
/// padding between bands and outer padding at both ends.
#[derive(Clone, Debug, PartialEq, Eq)]
pub struct ScaleBand {
    pub domain: Vec<i64>,
    pub extent: i64,
    pub inner_num: i64,
    pub inner_den: i64,
    pub outer_num: i64,
    pub outer_den: i64,
}

impl ScaleBand {
    pub open spec fn wf(self) -> bool {
        unique_seq(self.domain@) && 0 <= self.extent <= MAX_EXTENT && self.domain@.len()
            <= MAX_KEYS && 0 <= self.inner_num < self.inner_den <= MAX_PAD_DEN && 0
            <= self.outer_num <= self.outer_den <= MAX_PAD_DEN && 0 < self.outer_den
    }

    /// Common denominator of this scale's positions.
    pub open spec fn sden(self) -> int {
        band_sden(
            self.domain@.len() as int,
            self.inner_num as int,
            self.inner_den as int,
            self.outer_num as int,
            self.outer_den as int,
        )
    }

    /// Builds a band scale over the distinct keys of `keys` with no padding.
    pub fn new(keys: &Vec<i64>, extent: i64) -> (r: ScaleBand)
        requires
            0 <= extent <= MAX_EXTENT,
            keys@.len() <= MAX_KEYS,
        ensures
            r.wf(),
            r.domain@ == dedup(keys@),
            r.extent == extent,
            r.inner_num == 0 && r.inner_den == 1,
            r.outer_num == 0 && r.outer_den == 1,
    {
        proof {
            lemma_dedup_props(keys@);
        }
        ScaleBand {
            domain: dedup_keys(keys),
            extent,
            inner_num: 0,
            inner_den: 1,
            outer_num: 0,
            outer_den: 1,
        }
    }

    /// Sets the inner padding ratio `num / den`; the ratio must lie in
    /// `[0, 1)`.
    pub fn padding_inner(self, num: i64, den: i64) -> (r: Result<ScaleBand, ChartError>)
        ensures
            match r {
                Ok(s) => 0 <= num < den <= MAX_PAD_DEN && s.inner_num == num && s.inner_den == den
                    && s.domain@ == self.domain@ && s.extent == self.extent && s.outer_num
                    == self.outer_num && s.outer_den == self.outer_den,
                Err(e) => e == ChartError::InvalidRatio && !(0 <= num < den <= MAX_PAD_DEN),
            },
    {
        if 0 <= num && num < den && den <= MAX_PAD_DEN {
            Ok(ScaleBand { inner_num: num, inner_den: den, ..self })
        } else {
            Err(ChartError::InvalidRatio)
        }
    }

    /// Sets the outer padding ratio `num / den`; the ratio must lie in
    /// `[0, 1]`.
    pub fn padding_outer(self, num: i64, den: i64) -> (r: Result<ScaleBand, ChartError>)
        ensures
            match r {
                Ok(s) => 0 <= num <= den <= MAX_PAD_DEN && 0 < den && s.outer_num == num
                    && s.outer_den == den && s.domain@ == self.domain@ && s.extent == self.extent
                    && s.inner_num == self.inner_num && s.inner_den == self.inner_den,
                Err(e) => e == ChartError::InvalidRatio && !(0 <= num <= den <= MAX_PAD_DEN && 0
                    < den),
            },
    {
        if 0 <= num && num <= den && 0 < den && den <= MAX_PAD_DEN {
            Ok(ScaleBand { outer_num: num, outer_den: den, ..self })
        } else {
            Err(ChartError::InvalidRatio)
        }
    }

    /// The fixed per-category band width.
    pub fn band_width(&self) -> (r: Rat)
        requires
            self.wf(),
        ensures
            r.wf(),
            1 <= r.den <= BAND_DEN_LIMIT,
            -BAND_NUM_LIMIT <= r.num <= BAND_NUM_LIMIT,
            r@ == band_w(
                self.domain@.len() as int,
                self.extent as int,
                self.inner_num as int,
                self.inner_den as int,
                self.outer_num as int,
                self.outer_den as int,
            ),
    {
        let n = self.domain.len();
        if n == 0 {
            return Rat::whole(0);
        }
        proof {
            lemma_band_sden_pos(
                n as int,
                self.inner_num as int,
                self.inner_den as int,
                self.outer_num as int,
                self.outer_den as int,
            );
            lemma_mul_bound(n as int, self.inner_den as int, MAX_KEYS as int, MAX_PAD_DEN as int);
            lemma_mul_bound(
                (n as int) * (self.inner_den as int),
                self.outer_den as int,
                (MAX_KEYS as int) * (MAX_PAD_DEN as int),
                MAX_PAD_DEN as int,
            );
            lemma_mul_bound(self.inner_num as int, self.outer_den as int, MAX_PAD_DEN as int, MAX_PAD_DEN as int);
            lemma_mul_bound(self.outer_num as int, self.inner_den as int, MAX_PAD_DEN as int, MAX_PAD_DEN as int);
            lemma_mul_bound(self.extent as int, self.outer_den as int, MAX_EXTENT as int, MAX_PAD_DEN as int);
            lemma_mul_bound(
                (self.extent as int) * (self.outer_den as int),
                (self.inner_den as int) - (self.inner_num as int),
                (MAX_EXTENT as int) * (MAX_PAD_DEN as int),
                MAX_PAD_DEN as int,
            );
        }
        let sden: i128 = (n as i128) * (self.inner_den as i128) * (self.outer_den as i128) - (
        self.inner_num as i128) * (self.outer_den as i128) + 2 * ((self.outer_num as i128) * (
        self.inner_den as i128));
        let num: i128 = (self.extent as i128) * (self.outer_den as i128) * ((self.inner_den
            as i128) - (self.inner_num as i128));
        Rat::new(num, sden)
    }

    /// Start pixel of the band owned by `key`, or `None` for a key outside
    /// the domain.
    pub fn tick(&self, key: i64) -> (r: Option<Rat>)
        requires
            self.wf(),
        ensures
            match r {
                Some(p) => self.domain@.contains(key) && p.wf() && 1 <= p.den <= BAND_DEN_LIMIT
                    && -BAND_NUM_LIMIT <= p.num <= BAND_NUM_LIMIT && p@ == band_start(
                    self.domain@.len() as int,
                    self.extent as int,
                    self.inner_num as int,
                    self.inner_den as int,
                    self.outer_num as int,
                    self.outer_den as int,
                    key_idx(self.domain@, key),
                ),
                None => !self.domain@.contains(key),
            },
    {
        let n = self.domain.len();
        let mut i: usize = 0;
        while i < n
            invariant
                0 <= i <= n,
                n == self.domain@.len(),
                self.wf(),
                forall|j: int| 0 <= j < i ==> self.domain@[j] != key,
            decreases n - i,
        {
            if self.domain[i] == key {
                proof {
                    lemma_key_idx_at(self.domain@, key, i as int);
                    lemma_band_sden_pos(
                        n as int,
                        self.inner_num as int,
                        self.inner_den as int,
                        self.outer_num as int,
                        self.outer_den as int,
                    );
                    lemma_mul_bound(n as int, self.inner_den as int, MAX_KEYS as int, MAX_PAD_DEN as int);
                    lemma_mul_bound(
                        (n as int) * (self.inner_den as int),
                        self.outer_den as int,
                        (MAX_KEYS as int) * (MAX_PAD_DEN as int),
                        MAX_PAD_DEN as int,
                    );
                    lemma_mul_bound(self.inner_num as int, self.outer_den as int, MAX_PAD_DEN as int, MAX_PAD_DEN as int);
                    lemma_mul_bound(self.outer_num as int, self.inner_den as int, MAX_PAD_DEN as int, MAX_PAD_DEN as int);
                    lemma_mul_bound(i as int, self.outer_den as int, MAX_KEYS as int, MAX_PAD_DEN as int);
                    lemma_mul_bound(self.extent as int, self.inner_den as int, MAX_EXTENT as int, MAX_PAD_DEN as int);
                    lemma_mul_bound(
                        (self.extent as int) * (self.inner_den as int),
                        (self.outer_num as int) + (i as int) * (self.outer_den as int),
                        (MAX_EXTENT as int) * (MAX_PAD_DEN as int),
                        (MAX_PAD_DEN as int) + (MAX_KEYS as int) * (MAX_PAD_DEN as int),
                    );
                }
                let sden: i128 = (n as i128) * (self.inner_den as i128) * (self.outer_den as i128)
                    - (self.inner_num as i128) * (self.outer_den as i128) + 2 * ((self.outer_num
                    as i128) * (self.inner_den as i128));
                let num: i128 = (self.extent as i128) * (self.inner_den as i128) * ((self.outer_num
                    as i128) + (i as i128) * (self.outer_den as i128));
                return Some(Rat::new(num, sden));
            }
            i += 1;
        }
        None
    }
}

} // verus!
