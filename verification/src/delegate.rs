use vstd::prelude::*;

verus! {

/// Capability of a data record feeding an area, line or bar chart: a domain
/// key, a numeric value, and a display label.
pub trait ChartDelegate: Sized {
    /// The domain key of this record.
    spec fn x_spec(&self) -> i64;

    /// The numeric value of this record.
    spec fn y_spec(&self) -> i64;

    /// The display label of this record.
    spec fn label_spec(&self) -> Seq<char>;

    /// Returns the domain key.
    fn x(&self) -> (r: i64)
        ensures
            r == self.x_spec(),
    ;

    /// Returns the numeric value.
    fn y(&self) -> (r: i64)
        ensures
            r == self.y_spec(),
    ;

    /// Returns the display label.
    fn label(&self) -> (r: String)
        ensures
            r@ == self.label_spec(),
    ;
}

/// Capability of a data record feeding a pie chart: an optional numeric
/// value and a fill color.
pub trait PieChartDelegate: Sized {
    /// The value of this record, if it has one.
    spec fn value_spec(&self) -> Option<i64>;

    /// The fill color of this record, as a packed RGB value.
    spec fn color_spec(&self) -> u32;

    /// Returns the value, if any.
    fn value(&self) -> (r: Option<i64>)
        ensures
            r == self.value_spec(),
    ;

    /// Returns the fill color.
    fn color(&self) -> (r: u32)
        ensures
            r == self.color_spec(),
    ;
}

/// A plain data record: a key, a value, a label and a color. Feeds every
/// chart type.
#[derive(Clone, Debug, PartialEq, Eq)]
pub struct Datum {
    pub key: i64,
    pub value: i64,
    pub label: String,
    pub color: u32,
}

impl ChartDelegate for Datum {
    open spec fn x_spec(&self) -> i64 {
        self.key
    }

    open spec fn y_spec(&self) -> i64 {
        self.value
    }

    open spec fn label_spec(&self) -> Seq<char> {
        self.label@
    }

    fn x(&self) -> (r: i64)
        ensures
            r == self.x_spec(),
    {
        self.key
    }

    fn y(&self) -> (r: i64)
        ensures
            r == self.y_spec(),
    {
        self.value
    }

    fn label(&self) -> (r: String)
        ensures
            r@ == self.label_spec(),
    {
        self.label.clone()
    }
}

impl PieChartDelegate for Datum {
    open spec fn value_spec(&self) -> Option<i64> {
        Some(self.value)
    }

    open spec fn color_spec(&self) -> u32 {
        self.color
    }

    fn value(&self) -> (r: Option<i64>)
        ensures
            r == self.value_spec(),
    {
        Some(self.value)
    }

    fn color(&self) -> (r: u32)
        ensures
            r == self.color_spec(),
    {
        self.color
    }
}

/// A pie-only data record whose value may be missing.
#[derive(Clone, Debug, PartialEq, Eq)]
pub struct PieDatum {
    pub value: Option<i64>,
    pub color: u32,
}

impl PieChartDelegate for PieDatum {
    open spec fn value_spec(&self) -> Option<i64> {
        self.value
    }

    open spec fn color_spec(&self) -> u32 {
        self.color
    }

    fn value(&self) -> (r: Option<i64>)
        ensures
            r == self.value_spec(),
    {
        self.value
    }

    fn color(&self) -> (r: u32)
        ensures
            r == self.color_spec(),
    {
        self.color
    }
}

} // verus!
