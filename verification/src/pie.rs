use crate::error::ChartError;
use crate::rat::{lemma_mul_bound, Rat, RatG};
use crate::scale::MAX_PAD_DEN;
use vstd::prelude::*;

verus! {

/// Largest number of data items a pie layout accepts.
pub const MAX_SLICES: usize = 1_000_000;

/// Largest value a pie item may carry; keeps every angle numerator inside
/// `i128`.
pub const MAX_VALUE: i64 = 1_000_000_000_000;

/// Numerator of a rational lower bound of pi, used for the conservative pad
/// budget check: `333 / 106 < pi`.
pub const PI_LO_NUM: i64 = 333;

/// Denominator of the rational lower bound of pi.
pub const PI_LO_DEN: i64 = 106;

/// An angle `rad + pi * π`, with both coefficients exact rationals. The pie
/// layout mixes rational radians (the configured pad angle) with rational
/// multiples of the full turn, so both parts are carried exactly.
#[derive(Clone, Copy, Debug, PartialEq, Eq, Structural)]
pub struct Angle {
    pub rad: Rat,
    pub pi: Rat,
}

/// The mathematical value of an [`Angle`].
pub struct AngleG {
    pub rad: RatG,
    pub pi: RatG,
}

impl View for Angle {
    type V = AngleG;

    open spec fn view(&self) -> AngleG {
        AngleG { rad: self.rad@, pi: self.pi@ }
    }
}

impl DeepView for Angle {
    type V = AngleG;

    open spec fn deep_view(&self) -> AngleG {
        self.view()
    }
}

/// One pie arc: the half-open angular interval `[start, end)`, the shared
/// inner and outer radii, and the index of the data item it stands for.
#[derive(Clone, Copy, Debug, PartialEq, Eq, Structural)]
pub struct ArcSegment {
    pub start: Angle,
    pub end: Angle,
    pub inner: Rat,
    pub outer: Rat,
    pub index: usize,
}

/// The mathematical value of an [`ArcSegment`].
pub struct ArcG {
    pub start: AngleG,
    pub end: AngleG,
    pub inner: RatG,
    pub outer: RatG,
    pub index: int,
}

impl View for ArcSegment {
    type V = ArcG;

    open spec fn view(&self) -> ArcG {
        ArcG {
            start: self.start@,
            end: self.end@,
            inner: self.inner@,
            outer: self.outer@,
            index: self.index as int,
        }
    }
}

impl DeepView for ArcSegment {
    type V = ArcG;

    open spec fn deep_view(&self) -> ArcG {
        self.view()
    }
}

/// An item takes part in the layout when it has a present, non-negative
/// value.
pub open spec fn incl(v: Option<i64>) -> bool {
    v matches Some(x) && x >= 0
}

/// Number of included items among the first `i`.
pub open spec fn incl_cnt_to(vals: Seq<Option<i64>>, i: int) -> int
    decreases i,
{
    if i <= 0 {
        0
    } else {
        incl_cnt_to(vals, i - 1) + if incl(vals[i - 1]) {
            1int
        } else {
            0int
        }
    }
}

/// Sum of the included values among the first `i`.
pub open spec fn incl_sum_to(vals: Seq<Option<i64>>, i: int) -> int
    decreases i,
{
    if i <= 0 {
        0
    } else {
        incl_sum_to(vals, i - 1) + if incl(vals[i - 1]) {
            vals[i - 1]->Some_0 as int
        } else {
            0int
        }
    }
}

/// The arc of the item at index `i` with value `v`, given the sum `s` and
/// count `c` of included items before it, the total `t`, the included count
/// `n` and the pad angle `pn / pd`. Angles start at twelve o'clock (`-π/2`)
/// and every angle is held over the fixed denominators `t * pd` (radian
/// part) and `2 * t` (pi part).
pub open spec fn arc_g(
    i: int,
    v: int,
    s: int,
    c: int,
    t: int,
    n: int,
    pn: int,
    pd: int,
    ir: RatG,
    orr: RatG,
) -> ArcG {
    ArcG {
        start: AngleG {
            rad: RatG { num: pn * (t * c - n * s), den: t * pd },
            pi: RatG { num: 4 * s - t, den: 2 * t },
        },
        end: AngleG {
            rad: RatG { num: pn * (t * c - n * (s + v)), den: t * pd },
            pi: RatG { num: 4 * (s + v) - t, den: 2 * t },
        },
        inner: ir,
        outer: orr,
        index: i,
    }
}

/// The arcs of the items from index `i` on, given the sum `s` and count `c`
/// of included items before `i`.
pub open spec fn arcs_from(
    vals: Seq<Option<i64>>,
    i: int,
    s: int,
    c: int,
    t: int,
    n: int,
    pn: int,
    pd: int,
    ir: RatG,
    orr: RatG,
) -> Seq<ArcG>
    decreases vals.len() - i,
{
    if i < 0 || i >= vals.len() {
        Seq::empty()
    } else if incl(vals[i]) {
        let v = vals[i]->Some_0 as int;
        seq![arc_g(i, v, s, c, t, n, pn, pd, ir, orr)] + arcs_from(
            vals,
            i + 1,
            s + v,
            c + 1,
            t,
            n,
            pn,
            pd,
            ir,
            orr,
        )
    } else {
        arcs_from(vals, i + 1, s, c, t, n, pn, pd, ir, orr)
    }
}

/// The total pad angle fits into the full-turn budget: `n` pads of `pn / pd`
/// radians stay at or below `2 * 333 / 106`, a rational lower bound of `2π`.
pub open spec fn pie_fits(vals: Seq<Option<i64>>, pn: int, pd: int) -> bool {
    incl_cnt_to(vals, vals.len() as int) * pn * (PI_LO_DEN as int) <= 2 * ((PI_LO_NUM as int) * pd)
}

/// The full angular partition: one arc per included item, in series order;
/// no arcs when the values sum to zero.
pub open spec fn pie_arcs_spec(
    vals: Seq<Option<i64>>,
    pn: int,
    pd: int,
    ir: RatG,
    orr: RatG,
) -> Seq<ArcG> {
    let t = incl_sum_to(vals, vals.len() as int);
    let n = incl_cnt_to(vals, vals.len() as int);
    if t == 0 {
        Seq::empty()
    } else {
        arcs_from(vals, 0, 0, 0, t, n, pn, pd, ir, orr)
    }
}

/// Included counts and sums are non-negative and bounded by the prefix
/// length and its value budget.
proof fn lemma_incl_bounds(vals: Seq<Option<i64>>, i: int)
    requires
        0 <= i <= vals.len(),
        forall|j: int| 0 <= j < vals.len() ==> ((#[trigger] vals[j]) matches Some(v) ==> v <= MAX_VALUE),
    ensures
        0 <= incl_cnt_to(vals, i) <= i,
        0 <= incl_sum_to(vals, i) <= i * (MAX_VALUE as int),
    decreases i,
{
    if i > 0 {
        lemma_incl_bounds(vals, i - 1);
    }
}

/// Counts and sums grow with the prefix.
proof fn lemma_incl_monotone(vals: Seq<Option<i64>>, i: int, j: int)
    requires
        0 <= i <= j,
    ensures
        incl_cnt_to(vals, i) <= incl_cnt_to(vals, j),
        incl_sum_to(vals, i) <= incl_sum_to(vals, j),
    decreases j - i,
{
    if i < j {
        lemma_incl_monotone(vals, i, j - 1);
        if incl(vals[j - 1]) {
            assert(vals[j - 1]->Some_0 >= 0);
        }
    }
}

/// A positive included sum needs at least one included item.
proof fn lemma_sum_pos_cnt_pos(vals: Seq<Option<i64>>, i: int)
    requires
        incl_sum_to(vals, i) > 0,
    ensures
        incl_cnt_to(vals, i) >= 1,
    decreases i,
{
    if i > 0 {
        if incl_cnt_to(vals, i) == incl_cnt_to(vals, i - 1) && incl_sum_to(vals, i - 1) > 0 {
            lemma_sum_pos_cnt_pos(vals, i - 1);
        }
        if i >= 1 {
            lemma_incl_monotone(vals, 0, i - 1);
        }
    }
}

/// Where no item between two prefixes is included, their sums agree.
proof fn lemma_no_incl_no_sum(vals: Seq<Option<i64>>, i: int, j: int)
    requires
        0 <= i <= j,
        incl_cnt_to(vals, i) == incl_cnt_to(vals, j),
    ensures
        incl_sum_to(vals, i) == incl_sum_to(vals, j),
    decreases j - i,
{
    if i < j {
        lemma_incl_monotone(vals, i, j - 1);
        lemma_incl_monotone(vals, j - 1, j);
        lemma_no_incl_no_sum(vals, i, j - 1);
    }
}

/// The layout emits exactly one arc per included item at or after `i`.
proof fn lemma_arcs_from_len(
    vals: Seq<Option<i64>>,
    i: int,
    s: int,
    c: int,
    t: int,
    n: int,
    pn: int,
    pd: int,
    ir: RatG,
    orr: RatG,
)
    requires
        0 <= i <= vals.len(),
    ensures
        arcs_from(vals, i, s, c, t, n, pn, pd, ir, orr).len() == incl_cnt_to(
            vals,
            vals.len() as int,
        ) - incl_cnt_to(vals, i),
    decreases vals.len() - i,
{
    if i < vals.len() {
        if incl(vals[i]) {
            let v = vals[i]->Some_0 as int;
            lemma_arcs_from_len(vals, i + 1, s + v, c + 1, t, n, pn, pd, ir, orr);
        } else {
            lemma_arcs_from_len(vals, i + 1, s, c, t, n, pn, pd, ir, orr);
        }
    } else {
        lemma_incl_monotone(vals, i, vals.len() as int);
    }
}

/// The first emitted arc starts at the accumulated angle of its prefix.
proof fn lemma_arcs_from_first(
    vals: Seq<Option<i64>>,
    i: int,
    s: int,
    c: int,
    t: int,
    n: int,
    pn: int,
    pd: int,
    ir: RatG,
    orr: RatG,
)
    requires
        0 <= i <= vals.len(),
    ensures
        arcs_from(vals, i, s, c, t, n, pn, pd, ir, orr).len() > 0 ==> arcs_from(
            vals,
            i,
            s,
            c,
            t,
            n,
            pn,
            pd,
            ir,
            orr,
        )[0].start == (AngleG {
            rad: RatG { num: pn * (t * c - n * s), den: t * pd },
            pi: RatG { num: 4 * s - t, den: 2 * t },
        }),
    decreases vals.len() - i,
{
    if i < vals.len() {
        if incl(vals[i]) {
        } else {
            lemma_arcs_from_first(vals, i + 1, s, c, t, n, pn, pd, ir, orr);
        }
    }
}

/// Every emitted arc stands for an included item, carries the configured
/// radii, holds its angles over the fixed denominators, and spans exactly
/// its value's share: the pi part grows by `4 * v` over `2 * t` and the
/// radian part shrinks by `pn * n * v` over `t * pd`.
proof fn lemma_arcs_from_spans(
    vals: Seq<Option<i64>>,
    i: int,
    s: int,
    c: int,
    t: int,
    n: int,
    pn: int,
    pd: int,
    ir: RatG,
    orr: RatG,
)
    requires
        0 <= i <= vals.len(),
    ensures
        forall|k: int|
            0 <= k < arcs_from(vals, i, s, c, t, n, pn, pd, ir, orr).len() ==> {
                let a = #[trigger] arcs_from(vals, i, s, c, t, n, pn, pd, ir, orr)[k];
                &&& i <= a.index < vals.len()
                &&& incl(vals[a.index])
                &&& a.inner == ir
                &&& a.outer == orr
                &&& a.start.rad.den == t * pd
                &&& a.end.rad.den == t * pd
                &&& a.start.pi.den == 2 * t
                &&& a.end.pi.den == 2 * t
                &&& a.end.pi.num - a.start.pi.num == 4 * (vals[a.index]->Some_0 as int)
                &&& a.start.rad.num - a.end.rad.num == pn * (n * (vals[a.index]->Some_0 as int))
            },
    decreases vals.len() - i,
{
    if i < vals.len() {
        let r = arcs_from(vals, i, s, c, t, n, pn, pd, ir, orr);
        if incl(vals[i]) {
            let v = vals[i]->Some_0 as int;
            lemma_arcs_from_spans(vals, i + 1, s + v, c + 1, t, n, pn, pd, ir, orr);
            let rest = arcs_from(vals, i + 1, s + v, c + 1, t, n, pn, pd, ir, orr);
            assert(pn * (t * c - n * s) - pn * (t * c - n * (s + v)) == pn * (n * v))
                by (nonlinear_arith);
            assert forall|k: int| 0 <= k < r.len() implies {
                let a = #[trigger] r[k];
                &&& i <= a.index < vals.len()
                &&& incl(vals[a.index])
                &&& a.inner == ir
                &&& a.outer == orr
                &&& a.start.rad.den == t * pd
                &&& a.end.rad.den == t * pd
                &&& a.start.pi.den == 2 * t
                &&& a.end.pi.den == 2 * t
                &&& a.end.pi.num - a.start.pi.num == 4 * (vals[a.index]->Some_0 as int)
                &&& a.start.rad.num - a.end.rad.num == pn * (n * (vals[a.index]->Some_0 as int))
            } by {
                if k == 0 {
                    assert(r[0] == arc_g(i, v, s, c, t, n, pn, pd, ir, orr));
                } else {
                    assert(r[k] == rest[k - 1]);
                }
            }
        } else {
            lemma_arcs_from_spans(vals, i + 1, s, c, t, n, pn, pd, ir, orr);
        }
    }
}

/// Consecutive arcs are separated by exactly the pad angle: the next start
/// is the previous end advanced by `pn * t` over `t * pd` radians, at the
/// same pi part.
proof fn lemma_arcs_from_chain(
    vals: Seq<Option<i64>>,
    i: int,
    s: int,
    c: int,
    t: int,
    n: int,
    pn: int,
    pd: int,
    ir: RatG,
    orr: RatG,
)
    requires
        0 <= i <= vals.len(),
    ensures
        forall|k: int|
            0 <= k < arcs_from(vals, i, s, c, t, n, pn, pd, ir, orr).len() - 1 ==> {
                let a = #[trigger] arcs_from(vals, i, s, c, t, n, pn, pd, ir, orr)[k];
                let b = arcs_from(vals, i, s, c, t, n, pn, pd, ir, orr)[k + 1];
                &&& b.start.pi == a.end.pi
                &&& b.start.rad.den == a.end.rad.den
                &&& b.start.rad.num == a.end.rad.num + pn * t
            },
    decreases vals.len() - i,
{
    if i < vals.len() {
        let r = arcs_from(vals, i, s, c, t, n, pn, pd, ir, orr);
        if incl(vals[i]) {
            let v = vals[i]->Some_0 as int;
            lemma_arcs_from_chain(vals, i + 1, s + v, c + 1, t, n, pn, pd, ir, orr);
            lemma_arcs_from_first(vals, i + 1, s + v, c + 1, t, n, pn, pd, ir, orr);
            let rest = arcs_from(vals, i + 1, s + v, c + 1, t, n, pn, pd, ir, orr);
            assert(pn * (t * (c + 1) - n * (s + v)) == pn * (t * c - n * (s + v)) + pn * t)
                by (nonlinear_arith);
            assert forall|k: int| 0 <= k < r.len() - 1 implies {
                let a = #[trigger] r[k];
                let b = r[k + 1];
                &&& b.start.pi == a.end.pi
                &&& b.start.rad.den == a.end.rad.den
                &&& b.start.rad.num == a.end.rad.num + pn * t
            } by {
                if k == 0 {
                    assert(r[0] == arc_g(i, v, s, c, t, n, pn, pd, ir, orr));
                    assert(rest.len() > 0);
                    assert(r[1] == rest[0]);
                } else {
                    assert(r[k] == rest[k - 1]);
                    assert(r[k + 1] == rest[k]);
                }
            }
        } else {
            lemma_arcs_from_chain(vals, i + 1, s, c, t, n, pn, pd, ir, orr);
            let rest = arcs_from(vals, i + 1, s, c, t, n, pn, pd, ir, orr);
            assert forall|k: int| 0 <= k < r.len() - 1 implies {
                let a = #[trigger] r[k];
                let b = r[k + 1];
                &&& b.start.pi == a.end.pi
                &&& b.start.rad.den == a.end.rad.den
                &&& b.start.rad.num == a.end.rad.num + pn * t
            } by {
                assert(r[k] == rest[k]);
                assert(r[k + 1] == rest[k + 1]);
            }
        }
    }
}

/// The last emitted arc ends at the fully accumulated angle.
proof fn lemma_arcs_from_last(
    vals: Seq<Option<i64>>,
    i: int,
    s: int,
    c: int,
    t: int,
    n: int,
    pn: int,
    pd: int,
    ir: RatG,
    orr: RatG,
)
    requires
        0 <= i <= vals.len(),
    ensures
        arcs_from(vals, i, s, c, t, n, pn, pd, ir, orr).len() > 0 ==> arcs_from(
            vals,
            i,
            s,
            c,
            t,
            n,
            pn,
            pd,
            ir,
            orr,
        ).last().end == (AngleG {
            rad: RatG {
                num: pn * (t * (c + (incl_cnt_to(vals, vals.len() as int) - incl_cnt_to(vals, i))
                    - 1) - n * (s + (incl_sum_to(vals, vals.len() as int) - incl_sum_to(vals, i)))),
                den: t * pd,
            },
            pi: RatG {
                num: 4 * (s + (incl_sum_to(vals, vals.len() as int) - incl_sum_to(vals, i))) - t,
                den: 2 * t,
            },
        }),
    decreases vals.len() - i,
{
    if i < vals.len() {
        let r = arcs_from(vals, i, s, c, t, n, pn, pd, ir, orr);
        if incl(vals[i]) {
            let v = vals[i]->Some_0 as int;
            lemma_arcs_from_last(vals, i + 1, s + v, c + 1, t, n, pn, pd, ir, orr);
            lemma_arcs_from_len(vals, i + 1, s + v, c + 1, t, n, pn, pd, ir, orr);
            let rest = arcs_from(vals, i + 1, s + v, c + 1, t, n, pn, pd, ir, orr);
            if rest.len() == 0 {
                lemma_no_incl_no_sum(vals, i + 1, vals.len() as int);
                assert(r.last() == arc_g(i, v, s, c, t, n, pn, pd, ir, orr));
            } else {
                assert(r.last() == rest.last());
            }
        } else {
            lemma_arcs_from_last(vals, i + 1, s, c, t, n, pn, pd, ir, orr);
        }
    }
}

/// Number of arcs of the partition: one per included item, none when the
/// values sum to zero.
pub proof fn lemma_pie_count(vals: Seq<Option<i64>>, pn: int, pd: int, ir: RatG, orr: RatG)
    ensures
        pie_arcs_spec(vals, pn, pd, ir, orr).len() == if incl_sum_to(vals, vals.len() as int)
            == 0 {
            0int
        } else {
            incl_cnt_to(vals, vals.len() as int)
        },
{
    if incl_sum_to(vals, vals.len() as int) != 0 {
        let t = incl_sum_to(vals, vals.len() as int);
        let n = incl_cnt_to(vals, vals.len() as int);
        lemma_arcs_from_len(vals, 0, 0, 0, t, n, pn, pd, ir, orr);
    }
}

/// The first arc starts at twelve o'clock: `-π/2`, with no radian offset.
pub proof fn lemma_pie_first_start(vals: Seq<Option<i64>>, pn: int, pd: int, ir: RatG, orr: RatG)
    requires
        incl_sum_to(vals, vals.len() as int) > 0,
        pd > 0,
    ensures
        pie_arcs_spec(vals, pn, pd, ir, orr).len() > 0,
        pie_arcs_spec(vals, pn, pd, ir, orr)[0].start.rad.eq_with(RatG { num: 0, den: 1 }),
        pie_arcs_spec(vals, pn, pd, ir, orr)[0].start.pi.eq_with(RatG { num: -1, den: 2 }),
{
    let t = incl_sum_to(vals, vals.len() as int);
    let n = incl_cnt_to(vals, vals.len() as int);
    lemma_sum_pos_cnt_pos(vals, vals.len() as int);
    lemma_arcs_from_len(vals, 0, 0, 0, t, n, pn, pd, ir, orr);
    lemma_arcs_from_first(vals, 0, 0, 0, t, n, pn, pd, ir, orr);
    let r = pie_arcs_spec(vals, pn, pd, ir, orr);
    assert(r == arcs_from(vals, 0, 0, 0, t, n, pn, pd, ir, orr));
    assert(r.len() > 0);
    assert(r[0].start == (AngleG {
        rad: RatG { num: pn * (t * 0 - n * 0), den: t * pd },
        pi: RatG { num: 4 * 0 - t, den: 2 * t },
    }));
    assert(pn * (t * 0 - n * 0) == 0) by (nonlinear_arith);
    assert(r[0].start.rad.num * 1 == 0 * (t * pd)) by (nonlinear_arith)
        requires
            r[0].start.rad.num == 0,
    ;
    assert((4 * 0 - t) * 2 == -1 * (2 * t)) by (nonlinear_arith);
}

/// The last arc ends one pad angle short of the full turn past the start:
/// at `3π/2 - pn/pd`. With no padding the arcs partition the full turn
/// exactly.
pub proof fn lemma_pie_last_end(vals: Seq<Option<i64>>, pn: int, pd: int, ir: RatG, orr: RatG)
    requires
        incl_sum_to(vals, vals.len() as int) > 0,
        pd > 0,
    ensures
        pie_arcs_spec(vals, pn, pd, ir, orr).len() > 0,
        pie_arcs_spec(vals, pn, pd, ir, orr).last().end.pi.eq_with(RatG { num: 3, den: 2 }),
        pie_arcs_spec(vals, pn, pd, ir, orr).last().end.rad.eq_with(RatG { num: -pn, den: pd }),
{
    let t = incl_sum_to(vals, vals.len() as int);
    let n = incl_cnt_to(vals, vals.len() as int);
    lemma_sum_pos_cnt_pos(vals, vals.len() as int);
    lemma_arcs_from_len(vals, 0, 0, 0, t, n, pn, pd, ir, orr);
    lemma_arcs_from_last(vals, 0, 0, 0, t, n, pn, pd, ir, orr);
    let last_end = pie_arcs_spec(vals, pn, pd, ir, orr).last().end;
    assert(last_end.rad.num == pn * (t * (n - 1) - n * t) && last_end.rad.den == t * pd);
    assert(pn * (t * (n - 1) - n * t) * pd == (-pn) * (t * pd)) by (nonlinear_arith);
    assert((4 * t - t) * 2 == 3 * (2 * t)) by (nonlinear_arith);
}

/// Each arc's span is its value's share of the remaining budget: the pi part
/// spans `2 * v / t` (that is, `2π * v / t`) and the radian part shrinks by
/// the value's share of the total padding, `n * pn * v / (t * pd)`.
pub proof fn lemma_pie_spans(vals: Seq<Option<i64>>, pn: int, pd: int, ir: RatG, orr: RatG, k: int)
    requires
        incl_sum_to(vals, vals.len() as int) > 0,
        pd > 0,
        0 <= k < pie_arcs_spec(vals, pn, pd, ir, orr).len(),
    ensures
        ({
            let a = pie_arcs_spec(vals, pn, pd, ir, orr)[k];
            let t = incl_sum_to(vals, vals.len() as int);
            let n = incl_cnt_to(vals, vals.len() as int);
            &&& 0 <= a.index < vals.len()
            &&& incl(vals[a.index])
            &&& a.inner == ir
            &&& a.outer == orr
            &&& a.start.pi.den == 2 * t
            &&& a.end.pi.den == 2 * t
            &&& a.start.rad.den == t * pd
            &&& a.end.rad.den == t * pd
            &&& a.end.pi.num - a.start.pi.num == 4 * (vals[a.index]->Some_0 as int)
            &&& a.start.rad.num - a.end.rad.num == pn * (n * (vals[a.index]->Some_0 as int))
        }),
{
    let t = incl_sum_to(vals, vals.len() as int);
    let n = incl_cnt_to(vals, vals.len() as int);
    lemma_arcs_from_spans(vals, 0, 0, 0, t, n, pn, pd, ir, orr);
}

/// Adjacent arcs are separated by exactly the pad angle, whatever values lie
/// between them; an arc of span zero leaves the chain undisturbed.
pub proof fn lemma_pie_contiguity(
    vals: Seq<Option<i64>>,
    pn: int,
    pd: int,
    ir: RatG,
    orr: RatG,
    k: int,
)
    requires
        incl_sum_to(vals, vals.len() as int) > 0,
        pd > 0,
        0 <= k < pie_arcs_spec(vals, pn, pd, ir, orr).len() - 1,
    ensures
        ({
            let a = pie_arcs_spec(vals, pn, pd, ir, orr)[k];
            let b = pie_arcs_spec(vals, pn, pd, ir, orr)[k + 1];
            let t = incl_sum_to(vals, vals.len() as int);
            &&& b.start.pi == a.end.pi
            &&& b.start.rad.den == a.end.rad.den
            &&& b.start.rad.num == a.end.rad.num + pn * t
            &&& (RatG { num: pn * t, den: t * pd }).eq_with(RatG { num: pn, den: pd })
        }),
{
    let t = incl_sum_to(vals, vals.len() as int);
    let n = incl_cnt_to(vals, vals.len() as int);
    lemma_arcs_from_chain(vals, 0, 0, 0, t, n, pn, pd, ir, orr);
    assert(pn * t * pd == pn * (t * pd)) by (nonlinear_arith);
}

/// An item with value zero gets an arc of span zero: its start and end
/// coincide exactly.
pub proof fn lemma_pie_zero_value(
    vals: Seq<Option<i64>>,
    pn: int,
    pd: int,
    ir: RatG,
    orr: RatG,
    k: int,
)
    requires
        incl_sum_to(vals, vals.len() as int) > 0,
        pd > 0,
        0 <= k < pie_arcs_spec(vals, pn, pd, ir, orr).len(),
        vals[pie_arcs_spec(vals, pn, pd, ir, orr)[k].index] == Some(0i64),
    ensures
        pie_arcs_spec(vals, pn, pd, ir, orr)[k].end == pie_arcs_spec(vals, pn, pd, ir, orr)[k].start,
{
    let t = incl_sum_to(vals, vals.len() as int);
    let n = incl_cnt_to(vals, vals.len() as int);
    lemma_arcs_from_spans(vals, 0, 0, 0, t, n, pn, pd, ir, orr);
    let a = pie_arcs_spec(vals, pn, pd, ir, orr)[k];
    assert(pn * (n * 0) == 0) by (nonlinear_arith);
    assert(a.end.pi.num == a.start.pi.num);
    assert(a.end.rad.num == a.start.rad.num);
}

/// Lays the values out as a full angular partition starting at twelve
/// o'clock: each included item (present, non-negative value) gets an arc
/// proportional to its value, with a pad angle of `pad_num / pad_den`
/// radians between adjacent arcs. Items with a missing or negative value get
/// no arc; a zero total yields no arcs. A pad budget that cannot fit the
/// full turn is rejected.
pub fn pie_arcs(
    values: &Vec<Option<i64>>,
    pad_num: i64,
    pad_den: i64,
    inner: Rat,
    outer: Rat,
) -> (r: Result<Vec<ArcSegment>, ChartError>)
    requires
        values@.len() <= MAX_SLICES,
        forall|j: int|
            0 <= j < values@.len() ==> ((#[trigger] values@[j]) matches Some(v) ==> v <= MAX_VALUE),
        0 <= pad_num,
        0 < pad_den <= MAX_PAD_DEN,
    ensures
        match r {
            Ok(arcs) => pie_fits(values@, pad_num as int, pad_den as int) && arcs.deep_view()
                == pie_arcs_spec(values@, pad_num as int, pad_den as int, inner@, outer@),
            Err(e) => e == ChartError::PadAngleTooLarge && !pie_fits(
                values@,
                pad_num as int,
                pad_den as int,
            ),
        },
{
    let len = values.len();
    let mut total: i128 = 0;
    let mut count: i128 = 0;
    let mut j: usize = 0;
    while j < len
        invariant
            0 <= j <= len,
            len == values@.len(),
            len <= MAX_SLICES,
            forall|q: int|
                0 <= q < values@.len() ==> ((#[trigger] values@[q]) matches Some(v) ==> v
                    <= MAX_VALUE),
            total == incl_sum_to(values@, j as int),
            count == incl_cnt_to(values@, j as int),
            0 <= count <= j,
            0 <= total <= (j as int) * (MAX_VALUE as int),
        decreases len - j,
    {
        match values[j] {
            Some(v) => {
                if v >= 0 {
                    total = total + (v as i128);
                    count = count + 1;
                }
            },
            None => {},
        }
        j += 1;
    }
    let t = total;
    let nn = count;
    // Conservative budget check: n * pad must stay at or below twice the
    // rational lower bound of pi.
    proof {
        lemma_mul_bound(nn as int, pad_num as int, MAX_SLICES as int, i64::MAX as int);
        lemma_mul_bound(
            (nn as int) * (pad_num as int),
            PI_LO_DEN as int,
            (MAX_SLICES as int) * (i64::MAX as int),
            PI_LO_DEN as int,
        );
        lemma_mul_bound(PI_LO_NUM as int, pad_den as int, PI_LO_NUM as int, MAX_PAD_DEN as int);
    }
    let lhs: i128 = nn * (pad_num as i128) * (PI_LO_DEN as i128);
    let rhs: i128 = 2 * ((PI_LO_NUM as i128) * (pad_den as i128));
    if lhs > rhs {
        return Err(ChartError::PadAngleTooLarge);
    }
    if t == 0 {
        let arcs: Vec<ArcSegment> = Vec::new();
        proof {
            assert(arcs.deep_view() =~= pie_arcs_spec(
                values@,
                pad_num as int,
                pad_den as int,
                inner@,
                outer@,
            ));
        }
        return Ok(arcs);
    }
    // From here the total is positive, so at least one item is included and
    // the accepted pad angle is small.
    proof {
        lemma_sum_pos_cnt_pos(values@, len as int);
        assert((nn as int) * (pad_num as int) >= pad_num as int) by (nonlinear_arith)
            requires
                nn >= 1,
                pad_num >= 0,
        ;
        assert(pad_num <= 7_000_000);
    }
    let pn: i128 = pad_num as i128;
    let pd: i128 = pad_den as i128;
    let ghost ti = t as int;
    let ghost ni = nn as int;
    proof {
        lemma_mul_bound(ti, pd as int, 0x10_0000_0000_0000_0000, MAX_PAD_DEN as int);
        assert(ti * (pd as int) >= 1) by (nonlinear_arith)
            requires
                ti >= 1,
                pd as int >= 1,
        ;
    }
    let rad_den: i128 = t * pd;
    let pi_den: i128 = 2 * t;
    let mut acc: Vec<ArcSegment> = Vec::new();
    let mut s: i128 = 0;
    let mut c: i128 = 0;
    let mut i: usize = 0;
    while i < len
        invariant
            0 <= i <= len,
            len == values@.len(),
            len <= MAX_SLICES,
            forall|q: int|
                0 <= q < values@.len() ==> ((#[trigger] values@[q]) matches Some(v) ==> v
                    <= MAX_VALUE),
            t == incl_sum_to(values@, len as int),
            nn == incl_cnt_to(values@, len as int),
            1 <= t <= (MAX_SLICES as int) * (MAX_VALUE as int),
            1 <= nn <= MAX_SLICES,
            0 <= pn <= 7_000_000,
            1 <= pd <= MAX_PAD_DEN,
            ti == t as int,
            ni == nn as int,
            rad_den == t * pd,
            rad_den >= 1,
            pi_den == 2 * t,
            s == incl_sum_to(values@, i as int),
            c == incl_cnt_to(values@, i as int),
            0 <= s <= t,
            0 <= c <= nn,
            arcs_from(values@, 0, 0, 0, t as int, nn as int, pn as int, pd as int, inner@, outer@)
                == acc.deep_view() + arcs_from(
                values@,
                i as int,
                s as int,
                c as int,
                t as int,
                nn as int,
                pn as int,
                pd as int,
                inner@,
                outer@,
            ),
        decreases len - i,
    {
        let ghost rem = arcs_from(
            values@,
            i as int,
            s as int,
            c as int,
            t as int,
            nn as int,
            pn as int,
            pd as int,
            inner@,
            outer@,
        );
        match values[i] {
            Some(v) => {
                if v >= 0 {
                    proof {
                        lemma_incl_monotone(values@, i + 1, len as int);
                        lemma_incl_bounds(values@, i + 1);
                        lemma_mul_bound(
                            ti,
                            c as int,
                            0x10_0000_0000_0000_0000,
                            MAX_SLICES as int,
                        );
                        lemma_mul_bound(ni, s as int, MAX_SLICES as int, 0x10_0000_0000_0000_0000);
                        lemma_mul_bound(
                            ni,
                            s as int + v as int,
                            MAX_SLICES as int,
                            0x20_0000_0000_0000_0000,
                        );
                        lemma_mul_bound(
                            pn as int,
                            (ti * (c as int)) - (ni * (s as int)),
                            0x80_0000,
                            0x40_0000_0000_0000_0000_0000_0000,
                        );
                        lemma_mul_bound(
                            pn as int,
                            (ti * (c as int)) - (ni * (s as int + v as int)),
                            0x80_0000,
                            0x40_0000_0000_0000_0000_0000_0000,
                        );
                    }
                    let vv: i128 = v as i128;
                    let start_rad = Rat::new(pn * (t * c - nn * s), rad_den);
                    let start_pi = Rat::new(4 * s - t, pi_den);
                    let end_rad = Rat::new(pn * (t * c - nn * (s + vv)), rad_den);
                    let end_pi = Rat::new(4 * (s + vv) - t, pi_den);
                    let arc = ArcSegment {
                        start: Angle { rad: start_rad, pi: start_pi },
                        end: Angle { rad: end_rad, pi: end_pi },
                        inner,
                        outer,
                        index: i,
                    };
                    proof {
                        assert(arc.deep_view() == arc_g(
                            i as int,
                            v as int,
                            s as int,
                            c as int,
                            t as int,
                            nn as int,
                            pn as int,
                            pd as int,
                            inner@,
                            outer@,
                        ));
                    }
                    let ghost prev = acc.deep_view();
                    acc.push(arc);
                    proof {
                        assert(acc.deep_view() =~= prev.push(arc.deep_view()));
                        let next = arcs_from(
                            values@,
                            i + 1,
                            s as int + v as int,
                            c as int + 1,
                            t as int,
                            nn as int,
                            pn as int,
                            pd as int,
                            inner@,
                            outer@,
                        );
                        assert(rem =~= seq![arc.deep_view()] + next);
                        assert(prev + rem =~= acc.deep_view() + next);
                    }
                    s = s + vv;
                    c = c + 1;
                } else {
                    proof {
                        assert(!incl(values@[i as int]));
                    }
                }
            },
            None => {},
        }
        i += 1;
    }
    proof {
        assert(arcs_from(
            values@,
            len as int,
            s as int,
            c as int,
            t as int,
            nn as int,
            pn as int,
            pd as int,
            inner@,
            outer@,
        ) =~= Seq::<ArcG>::empty());
        assert(acc.deep_view() + Seq::<ArcG>::empty() =~= acc.deep_view());
    }
    Ok(acc)
}

} // verus!
