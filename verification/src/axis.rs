use crate::rat::{Rat, RatG};
use crate::scale::MAX_EXTENT;
use vstd::prelude::*;

verus! {

/// Positional alignment of a tick label, chosen by the label's index within
/// the series so edge labels are not clipped by the plot bounds.
#[derive(Clone, Copy, Debug, PartialEq, Eq, Structural)]
pub enum TickAlign {
    Start,
    Center,
    End,
}

/// One axis label: a pixel position, the text to draw, and its alignment.
#[derive(Clone, Debug, PartialEq, Eq)]
pub struct AxisText {
    pub text: String,
    pub pos: Rat,
    pub align: TickAlign,
}

/// The mathematical value of an [`AxisText`].
pub struct AxisTextG {
    pub text: Seq<char>,
    pub pos: RatG,
    pub align: TickAlign,
}

impl View for AxisText {
    type V = AxisTextG;

    open spec fn view(&self) -> AxisTextG {
        AxisTextG { text: self.text@, pos: self.pos@, align: self.align }
    }
}

impl DeepView for AxisText {
    type V = AxisTextG;

    open spec fn deep_view(&self) -> AxisTextG {
        self.view()
    }
}

/// Alignment of the `i`-th of `total` labels: the first is start-aligned,
/// the last end-aligned, interior labels are centered.
pub open spec fn tick_align(i: int, total: int) -> TickAlign {
    if i == 0 {
        TickAlign::Start
    } else if i == total - 1 {
        TickAlign::End
    } else {
        TickAlign::Center
    }
}

/// The ticks drawn for `labels` at positions `xs`, decimated to every
/// `margin`-th label (those whose one-based index is divisible by `margin`);
/// a label with no position is skipped.
pub open spec fn ticks_spec(
    labels: Seq<Seq<char>>,
    xs: Seq<Option<RatG>>,
    margin: int,
    total: int,
) -> Seq<AxisTextG>
    recommends
        labels.len() == xs.len(),
        margin >= 1,
    decreases labels.len(),
{
    if labels.len() == 0 {
        Seq::empty()
    } else {
        let i = labels.len() - 1;
        let rest = ticks_spec(labels.drop_last(), xs.drop_last(), margin, total);
        if (i + 1) % margin == 0 {
            match xs[i] {
                Some(p) => rest.push(
                    AxisTextG { text: labels.last(), pos: p, align: tick_align(i, total) },
                ),
                None => rest,
            }
        } else {
            rest
        }
    }
}

/// Builds the visible axis labels: every `margin`-th label of `labels`, at
/// its position from `xs`, aligned by its index within the whole series.
pub fn axis_labels(labels: &Vec<String>, xs: &Vec<Option<Rat>>, margin: usize) -> (r: Vec<AxisText>)
    requires
        labels@.len() == xs@.len(),
        margin >= 1,
    ensures
        r.deep_view() == ticks_spec(
            labels.deep_view(),
            xs.deep_view(),
            margin as int,
            labels@.len() as int,
        ),
{
    let n = labels.len();
    let mut acc: Vec<AxisText> = Vec::new();
    let mut i: usize = 0;
    while i < n
        invariant
            0 <= i <= n,
            n == labels@.len(),
            n == xs@.len(),
            margin >= 1,
            acc.deep_view() == ticks_spec(
                labels.deep_view().take(i as int),
                xs.deep_view().take(i as int),
                margin as int,
                n as int,
            ),
        decreases n - i,
    {
        proof {
            assert(labels.deep_view().take(i + 1).drop_last() =~= labels.deep_view().take(i as int));
            assert(xs.deep_view().take(i + 1).drop_last() =~= xs.deep_view().take(i as int));
            assert(labels.deep_view().take(i + 1).last() == labels.deep_view()[i as int]);
            assert(xs.deep_view().take(i + 1)[i as int] == xs.deep_view()[i as int]);
        }
        if (i + 1) % margin == 0 {
            match &xs[i] {
                Some(p) => {
                    let align = if i == 0 {
                        TickAlign::Start
                    } else if i == n - 1 {
                        TickAlign::End
                    } else {
                        TickAlign::Center
                    };
                    let t = AxisText { text: labels[i].clone(), pos: *p, align };
                    let ghost prev = acc.deep_view();
                    acc.push(t);
                    proof {
                        assert(acc.deep_view() =~= prev.push(t.deep_view()));
                    }
                },
                None => {},
            }
        }
        i += 1;
    }
    proof {
        assert(labels.deep_view().take(n as int) =~= labels.deep_view());
        assert(xs.deep_view().take(n as int) =~= xs.deep_view());
    }
    acc
}

/// Builds center-aligned labels for every entry of `labels` that has a
/// position, without decimation; used for band axes, where each label sits
/// in the middle of its band.
pub open spec fn centered_ticks_spec(labels: Seq<Seq<char>>, xs: Seq<Option<RatG>>) -> Seq<
    AxisTextG,
>
    recommends
        labels.len() == xs.len(),
    decreases labels.len(),
{
    if labels.len() == 0 {
        Seq::empty()
    } else {
        let i = labels.len() - 1;
        let rest = centered_ticks_spec(labels.drop_last(), xs.drop_last());
        match xs[i] {
            Some(p) => rest.push(
                AxisTextG { text: labels.last(), pos: p, align: TickAlign::Center },
            ),
            None => rest,
        }
    }
}

/// Builds one center-aligned label per positioned entry.
pub fn centered_labels(labels: &Vec<String>, xs: &Vec<Option<Rat>>) -> (r: Vec<AxisText>)
    requires
        labels@.len() == xs@.len(),
    ensures
        r.deep_view() == centered_ticks_spec(labels.deep_view(), xs.deep_view()),
{
    let n = labels.len();
    let mut acc: Vec<AxisText> = Vec::new();
    let mut i: usize = 0;
    while i < n
        invariant
            0 <= i <= n,
            n == labels@.len(),
            n == xs@.len(),
            acc.deep_view() == centered_ticks_spec(
                labels.deep_view().take(i as int),
                xs.deep_view().take(i as int),
            ),
        decreases n - i,
    {
        proof {
            assert(labels.deep_view().take(i + 1).drop_last() =~= labels.deep_view().take(i as int));
            assert(xs.deep_view().take(i + 1).drop_last() =~= xs.deep_view().take(i as int));
            assert(labels.deep_view().take(i + 1).last() == labels.deep_view()[i as int]);
            assert(xs.deep_view().take(i + 1)[i as int] == xs.deep_view()[i as int]);
        }
        match &xs[i] {
            Some(p) => {
                let t = AxisText { text: labels[i].clone(), pos: *p, align: TickAlign::Center };
                let ghost prev = acc.deep_view();
                acc.push(t);
                proof {
                    assert(acc.deep_view() =~= prev.push(t.deep_view()));
                }
            },
            None => {},
        }
        i += 1;
    }
    proof {
        assert(labels.deep_view().take(n as int) =~= labels.deep_view());
        assert(xs.deep_view().take(n as int) =~= xs.deep_view());
    }
    acc
}

/// Positions of the fixed horizontal grid pattern: four gridlines dividing
/// the value-axis extent into quarters, independent of the tick count.
pub open spec fn grid_spec(extent: int) -> Seq<RatG> {
    Seq::new(4, |i: int| RatG { num: extent * i, den: 4 })
}

/// Builds the four gridline positions `0, extent/4, extent/2, 3*extent/4`.
pub fn grid_lines(extent: i64) -> (r: Vec<Rat>)
    requires
        0 <= extent <= MAX_EXTENT,
    ensures
        r.deep_view() == grid_spec(extent as int),
{
    let e = extent as i128;
    let mut r: Vec<Rat> = Vec::new();
    r.push(Rat::new(0, 4));
    r.push(Rat::new(e, 4));
    r.push(Rat::new(e * 2, 4));
    r.push(Rat::new(e * 3, 4));
    proof {
        assert(r.deep_view().len() == 4);
        assert(r.deep_view()[0] == grid_spec(extent as int)[0]);
        assert(r.deep_view()[1] == grid_spec(extent as int)[1]);
        assert(r.deep_view()[2] == grid_spec(extent as int)[2]);
        assert(r.deep_view()[3] == grid_spec(extent as int)[3]);
        assert(r.deep_view() =~= grid_spec(extent as int));
    }
    r
}

/// Number of label indices that pass the decimation filter and have a
/// position: those whose one-based index is divisible by the margin.
pub open spec fn kept_count(xs: Seq<Option<RatG>>, margin: int) -> int
    decreases xs.len(),
{
    if xs.len() == 0 {
        0
    } else {
        kept_count(xs.drop_last(), margin) + if xs.len() as int % margin == 0 && xs.last() is Some {
            1int
        } else {
            0int
        }
    }
}

/// The tick generator emits exactly one tick per label whose one-based index
/// is divisible by the margin and that has a position, and no others.
pub proof fn lemma_ticks_filter(
    labels: Seq<Seq<char>>,
    xs: Seq<Option<RatG>>,
    margin: int,
    total: int,
)
    requires
        labels.len() == xs.len(),
        margin >= 1,
    ensures
        ticks_spec(labels, xs, margin, total).len() == kept_count(xs, margin),
    decreases labels.len(),
{
    if labels.len() > 0 {
        lemma_ticks_filter(labels.drop_last(), xs.drop_last(), margin, total);
    }
}

/// With a margin of one and a position for every label, every label is
/// emitted, in order, with its index alignment: the first tick is
/// start-aligned, the last end-aligned, interior ticks centered.
pub proof fn lemma_ticks_show_all(labels: Seq<Seq<char>>, xs: Seq<Option<RatG>>, total: int)
    requires
        labels.len() == xs.len(),
        forall|i: int| 0 <= i < xs.len() ==> xs[i] is Some,
    ensures
        ticks_spec(labels, xs, 1, total).len() == labels.len(),
        forall|i: int|
            0 <= i < labels.len() ==> #[trigger] ticks_spec(labels, xs, 1, total)[i] == (AxisTextG {
                text: labels[i],
                pos: xs[i]->Some_0,
                align: tick_align(i, total),
            }),
    decreases labels.len(),
{
    if labels.len() > 0 {
        lemma_ticks_show_all(labels.drop_last(), xs.drop_last(), total);
        let i = labels.len() - 1;
        assert((i + 1) % 1 == 0);
        assert forall|j: int| 0 <= j < labels.len() implies #[trigger] ticks_spec(
            labels,
            xs,
            1,
            total,
        )[j] == (AxisTextG { text: labels[j], pos: xs[j]->Some_0, align: tick_align(j, total) }) by {
            if j < i {
                assert(labels.drop_last()[j] == labels[j]);
                assert(xs.drop_last()[j] == xs[j]);
            }
        }
    }
}

} // verus!
