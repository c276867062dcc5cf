//! The rectangle that a chart shows: the extent of all points, widened by a
//! margin of one on each side.
use crate::error::ChartError;
use crate::integrate::total;
use crate::point::Point;
use crate::scalar::Scalar;
use crate::scalar::MINUS_ONE_BITS;
use crate::scalar::ONE_BITS;
use vstd::prelude::*;

verus! {

/// The least and the greatest coordinate of a set of points, on each axis.
#[derive(Clone, Copy, Debug, PartialEq, Eq, Structural)]
pub struct Extent {
    pub min_x: Scalar,
    pub max_x: Scalar,
    pub min_y: Scalar,
    pub max_y: Scalar,
}

/// The bounds of the coordinate system that a chart is drawn in.
#[derive(Clone, Copy, Debug, PartialEq, Eq, Structural)]
pub struct Viewport {
    pub left: Scalar,
    pub right: Scalar,
    pub bottom: Scalar,
    pub top: Scalar,
}

/// `(a, b)` is the place of a point of `datasets` that comes before place
/// `(rows, cols)` when the trajectories are read one after the other.
pub open spec fn in_reach(datasets: Seq<Vec<Point>>, rows: int, cols: int, a: int, b: int) -> bool {
    &&& 0 <= a < datasets.len()
    &&& 0 <= b < datasets[a]@.len()
    &&& a < rows || (a == rows && b < cols)
}

/// `extent` is the extent of the points of `datasets` before place
/// `(rows, cols)`: each of its four members is a coordinate of one of those
/// points, and no coordinate of them that is a number lies outside.
pub open spec fn spans(datasets: Seq<Vec<Point>>, rows: int, cols: int, extent: Extent) -> bool {
    &&& exists|a: int, b: int| #[trigger]
        in_reach(datasets, rows, cols, a, b) && datasets[a]@[b].x == extent.min_x
    &&& exists|a: int, b: int| #[trigger]
        in_reach(datasets, rows, cols, a, b) && datasets[a]@[b].x == extent.max_x
    &&& exists|a: int, b: int| #[trigger]
        in_reach(datasets, rows, cols, a, b) && datasets[a]@[b].y == extent.min_y
    &&& exists|a: int, b: int| #[trigger]
        in_reach(datasets, rows, cols, a, b) && datasets[a]@[b].y == extent.max_y
    &&& forall|a: int, b: int| #[trigger]
        in_reach(datasets, rows, cols, a, b) ==> {
            let p = datasets[a]@[b];
            &&& !p.x.is_nan() ==> p.x.at_least(extent.min_x) && extent.max_x.at_least(p.x)
            &&& !p.y.is_nan() ==> p.y.at_least(extent.min_y) && extent.max_y.at_least(p.y)
        }
}

/// Two scalars that no comparison tells apart: both NaN, or of one rank.
pub open spec fn same_number(a: Scalar, b: Scalar) -> bool {
    if a.is_nan() || b.is_nan() {
        a.is_nan() && b.is_nan()
    } else {
        a.rank() == b.rank()
    }
}

/// The extent of the points of `datasets` before place `(rows, cols)`, built
/// up point by point in reading order, or `None` where no point comes before
/// that place. Of several coordinates that compare equal, the one read first
/// stays.
pub open spec fn extent_through(datasets: Seq<Vec<Point>>, rows: int, cols: int) -> Option<Extent>
    recommends
        0 <= rows <= datasets.len(),
        0 <= cols,
        rows < datasets.len() ==> cols <= datasets[rows]@.len(),
    decreases rows, cols,
{
    if cols > 0 && 0 <= rows < datasets.len() {
        let p = datasets[rows]@[cols - 1];
        match extent_through(datasets, rows, cols - 1) {
            Some(before) => Some(before.stretched(p)),
            None => Some(Extent { min_x: p.x, max_x: p.x, min_y: p.y, max_y: p.y }),
        }
    } else if 0 < rows <= datasets.len() {
        extent_through(datasets, rows - 1, datasets[rows - 1]@.len() as int)
    } else {
        None
    }
}

/// `datasets` holds no point.
pub open spec fn is_empty(datasets: Seq<Vec<Point>>) -> bool {
    forall|a: int| 0 <= a < datasets.len() ==> (#[trigger] datasets[a])@.len() == 0
}

/// `extent` is the extent of all points of `datasets`.
pub open spec fn is_extent(datasets: Seq<Vec<Point>>, extent: Extent) -> bool {
    spans(datasets, datasets.len() as int, 0, extent)
}

/// `viewport` is `extent` widened by one on each side, with `sum` as the
/// addition.
pub open spec fn frames<A: Fn(Scalar, Scalar) -> Scalar>(
    sum: A,
    extent: Extent,
    viewport: Viewport,
) -> bool {
    &&& call_ensures(sum, (extent.min_x, Scalar { bits: MINUS_ONE_BITS }), viewport.left)
    &&& call_ensures(sum, (extent.max_x, Scalar { bits: ONE_BITS }), viewport.right)
    &&& call_ensures(sum, (extent.min_y, Scalar { bits: MINUS_ONE_BITS }), viewport.bottom)
    &&& call_ensures(sum, (extent.max_y, Scalar { bits: ONE_BITS }), viewport.top)
}

impl Extent {
    /// This extent, stretched to hold `p`.
    pub open spec fn stretched(self, p: Point) -> Extent {
        Extent {
            min_x: self.min_x.smaller(p.x),
            max_x: self.max_x.larger(p.x),
            min_y: self.min_y.smaller(p.y),
            max_y: self.max_y.larger(p.y),
        }
    }

    /// The extent of one point.
    pub fn of_point(p: Point) -> (extent: Extent)
        ensures
            extent == (Extent { min_x: p.x, max_x: p.x, min_y: p.y, max_y: p.y }),
    {
        Extent { min_x: p.x, max_x: p.x, min_y: p.y, max_y: p.y }
    }

    /// This extent, stretched to hold `p`. A coordinate of `p` that is NaN
    /// stretches nothing.
    pub fn including(self, p: Point) -> (extent: Extent)
        ensures
            extent == self.stretched(p),
            extent.min_x == self.min_x || extent.min_x == p.x,
            extent.max_x == self.max_x || extent.max_x == p.x,
            extent.min_y == self.min_y || extent.min_y == p.y,
            extent.max_y == self.max_y || extent.max_y == p.y,
            !self.min_x.is_nan() ==> self.min_x.at_least(extent.min_x),
            !self.max_x.is_nan() ==> extent.max_x.at_least(self.max_x),
            !self.min_y.is_nan() ==> self.min_y.at_least(extent.min_y),
            !self.max_y.is_nan() ==> extent.max_y.at_least(self.max_y),
            !p.x.is_nan() ==> p.x.at_least(extent.min_x) && extent.max_x.at_least(p.x),
            !p.y.is_nan() ==> p.y.at_least(extent.min_y) && extent.max_y.at_least(p.y),
    {
        Extent {
            min_x: self.min_x.min(p.x),
            max_x: self.max_x.max(p.x),
            min_y: self.min_y.min(p.y),
            max_y: self.max_y.max(p.y),
        }
    }
}

/// The extent of all points of all trajectories, or `EmptyResult` where
/// there is no point.
pub fn extent_of(datasets: &Vec<Vec<Point>>) -> (r: Result<Extent, ChartError>)
    ensures
        match r {
            Ok(extent) => is_extent(datasets@, extent),
            Err(e) => e == ChartError::EmptyResult && is_empty(datasets@),
        },
        r.ok() == extent_through(datasets@, datasets@.len() as int, 0),
{
    let mut found: Option<Extent> = None;
    let mut i: usize = 0;
    while i < datasets.len()
        invariant
            i <= datasets.len(),
            found == extent_through(datasets@, i as int, 0),
            match found {
                Some(extent) => spans(datasets@, i as int, 0, extent),
                None => forall|a: int| 0 <= a < i ==> (#[trigger] datasets@[a])@.len() == 0,
            },
        decreases datasets.len() - i,
    {
        let row = &datasets[i];
        let mut j: usize = 0;
        while j < row.len()
            invariant
                i < datasets.len(),
                row == &datasets@[i as int],
                j <= row.len(),
                found == extent_through(datasets@, i as int, j as int),
                match found {
                    Some(extent) => spans(datasets@, i as int, j as int, extent),
                    None => j == 0 && forall|a: int|
                        0 <= a < i ==> (#[trigger] datasets@[a])@.len() == 0,
                },
            decreases row.len() - j,
        {
            let p: Point = row[j];
            match found {
                None => {
                    found = Some(Extent::of_point(p));
                    proof {
                        assert(in_reach(datasets@, i as int, j + 1, i as int, j as int));
                    }
                },
                Some(before) => {
                    let after = before.including(p);
                    found = Some(after);
                    proof {
                        lemma_spans_one_more(datasets@, i as int, j as int, before, after);
                    }
                },
            }
            j = j + 1;
        }
        proof {
            if let Some(extent) = found {
                lemma_spans_next_row(datasets@, i as int, extent);
            }
        }
        i = i + 1;
    }
    match found {
        Some(extent) => Ok(extent),
        None => Err(ChartError::EmptyResult),
    }
}

/// An extent of the points before a place, stretched to hold the point at
/// that place, is the extent of the points up to and with that place.
proof fn lemma_spans_one_more(
    datasets: Seq<Vec<Point>>,
    rows: int,
    cols: int,
    before: Extent,
    after: Extent,
)
    requires
        0 <= rows < datasets.len(),
        0 <= cols < datasets[rows]@.len(),
        spans(datasets, rows, cols, before),
        ({
            let p = datasets[rows]@[cols];
            &&& after.min_x == before.min_x || after.min_x == p.x
            &&& after.max_x == before.max_x || after.max_x == p.x
            &&& after.min_y == before.min_y || after.min_y == p.y
            &&& after.max_y == before.max_y || after.max_y == p.y
            &&& !before.min_x.is_nan() ==> before.min_x.at_least(after.min_x)
            &&& !before.max_x.is_nan() ==> after.max_x.at_least(before.max_x)
            &&& !before.min_y.is_nan() ==> before.min_y.at_least(after.min_y)
            &&& !before.max_y.is_nan() ==> after.max_y.at_least(before.max_y)
            &&& !p.x.is_nan() ==> p.x.at_least(after.min_x) && after.max_x.at_least(p.x)
            &&& !p.y.is_nan() ==> p.y.at_least(after.min_y) && after.max_y.at_least(p.y)
        }),
    ensures
        spans(datasets, rows, cols + 1, after),
{
    assert(in_reach(datasets, rows, cols + 1, rows, cols));
    let (a1, b1) = choose|a: int, b: int| #[trigger]
        in_reach(datasets, rows, cols, a, b) && datasets[a]@[b].x == before.min_x;
    assert(in_reach(datasets, rows, cols + 1, a1, b1));
    let (a2, b2) = choose|a: int, b: int| #[trigger]
        in_reach(datasets, rows, cols, a, b) && datasets[a]@[b].x == before.max_x;
    assert(in_reach(datasets, rows, cols + 1, a2, b2));
    let (a3, b3) = choose|a: int, b: int| #[trigger]
        in_reach(datasets, rows, cols, a, b) && datasets[a]@[b].y == before.min_y;
    assert(in_reach(datasets, rows, cols + 1, a3, b3));
    let (a4, b4) = choose|a: int, b: int| #[trigger]
        in_reach(datasets, rows, cols, a, b) && datasets[a]@[b].y == before.max_y;
    assert(in_reach(datasets, rows, cols + 1, a4, b4));
    assert forall|a: int, b: int| #[trigger] in_reach(datasets, rows, cols + 1, a, b) implies {
        let p = datasets[a]@[b];
        &&& !p.x.is_nan() ==> p.x.at_least(after.min_x) && after.max_x.at_least(p.x)
        &&& !p.y.is_nan() ==> p.y.at_least(after.min_y) && after.max_y.at_least(p.y)
    } by {
        if !(a == rows && b == cols) {
            assert(in_reach(datasets, rows, cols, a, b));
        }
    }
}

/// The points before the end of one trajectory are the points before the
/// beginning of the next.
proof fn lemma_spans_next_row(datasets: Seq<Vec<Point>>, rows: int, extent: Extent)
    requires
        0 <= rows < datasets.len(),
        spans(datasets, rows, datasets[rows]@.len() as int, extent),
    ensures
        spans(datasets, rows + 1, 0, extent),
{
    let cols = datasets[rows]@.len() as int;
    let (a1, b1) = choose|a: int, b: int| #[trigger]
        in_reach(datasets, rows, cols, a, b) && datasets[a]@[b].x == extent.min_x;
    assert(in_reach(datasets, rows + 1, 0, a1, b1));
    let (a2, b2) = choose|a: int, b: int| #[trigger]
        in_reach(datasets, rows, cols, a, b) && datasets[a]@[b].x == extent.max_x;
    assert(in_reach(datasets, rows + 1, 0, a2, b2));
    let (a3, b3) = choose|a: int, b: int| #[trigger]
        in_reach(datasets, rows, cols, a, b) && datasets[a]@[b].y == extent.min_y;
    assert(in_reach(datasets, rows + 1, 0, a3, b3));
    let (a4, b4) = choose|a: int, b: int| #[trigger]
        in_reach(datasets, rows, cols, a, b) && datasets[a]@[b].y == extent.max_y;
    assert(in_reach(datasets, rows + 1, 0, a4, b4));
    assert forall|a: int, b: int| #[trigger] in_reach(datasets, rows + 1, 0, a, b) implies {
        let p = datasets[a]@[b];
        &&& !p.x.is_nan() ==> p.x.at_least(extent.min_x) && extent.max_x.at_least(p.x)
        &&& !p.y.is_nan() ==> p.y.at_least(extent.min_y) && extent.max_y.at_least(p.y)
    } by {
        assert(in_reach(datasets, rows, cols, a, b));
    }
}

/// The points of `datasets` have one extent, up to values that compare
/// equal: the members of two extents of them agree in rank, or are both NaN.
pub proof fn lemma_extent_unique(datasets: Seq<Vec<Point>>, first: Extent, second: Extent)
    requires
        is_extent(datasets, first),
        is_extent(datasets, second),
    ensures
        same_number(first.min_x, second.min_x),
        same_number(first.max_x, second.max_x),
        same_number(first.min_y, second.min_y),
        same_number(first.max_y, second.max_y),
{
    let rows = datasets.len() as int;
    let (a1, b1) = choose|a: int, b: int| #[trigger]
        in_reach(datasets, rows, 0, a, b) && datasets[a]@[b].x == first.min_x;
    let (c1, d1) = choose|a: int, b: int| #[trigger]
        in_reach(datasets, rows, 0, a, b) && datasets[a]@[b].x == second.min_x;
    assert(in_reach(datasets, rows, 0, a1, b1) && in_reach(datasets, rows, 0, c1, d1));
    let (a2, b2) = choose|a: int, b: int| #[trigger]
        in_reach(datasets, rows, 0, a, b) && datasets[a]@[b].x == first.max_x;
    let (c2, d2) = choose|a: int, b: int| #[trigger]
        in_reach(datasets, rows, 0, a, b) && datasets[a]@[b].x == second.max_x;
    assert(in_reach(datasets, rows, 0, a2, b2) && in_reach(datasets, rows, 0, c2, d2));
    let (a3, b3) = choose|a: int, b: int| #[trigger]
        in_reach(datasets, rows, 0, a, b) && datasets[a]@[b].y == first.min_y;
    let (c3, d3) = choose|a: int, b: int| #[trigger]
        in_reach(datasets, rows, 0, a, b) && datasets[a]@[b].y == second.min_y;
    assert(in_reach(datasets, rows, 0, a3, b3) && in_reach(datasets, rows, 0, c3, d3));
    let (a4, b4) = choose|a: int, b: int| #[trigger]
        in_reach(datasets, rows, 0, a, b) && datasets[a]@[b].y == first.max_y;
    let (c4, d4) = choose|a: int, b: int| #[trigger]
        in_reach(datasets, rows, 0, a, b) && datasets[a]@[b].y == second.max_y;
    assert(in_reach(datasets, rows, 0, a4, b4) && in_reach(datasets, rows, 0, c4, d4));
}

/// Widens the extent given by its two ranges by a margin of one on each
/// side: the lower end of each range has minus one added, the upper end one.
pub fn decide_bounds<A: Fn(Scalar, Scalar) -> Scalar>(
    x_range: (Scalar, Scalar),
    y_range: (Scalar, Scalar),
    sum: &A,
) -> (viewport: Viewport)
    requires
        total(*sum),
    ensures
        frames(
            *sum,
            Extent { min_x: x_range.0, max_x: x_range.1, min_y: y_range.0, max_y: y_range.1 },
            viewport,
        ),
{
    let left: Scalar = sum(x_range.0, Scalar::minus_one());
    let right: Scalar = sum(x_range.1, Scalar::one());
    let bottom: Scalar = sum(y_range.0, Scalar::minus_one());
    let top: Scalar = sum(y_range.1, Scalar::one());
    Viewport { left, right, bottom, top }
}

} // verus!
