use crate::geometry::point::{Point2, Vector2};
use vstd::prelude::*;

verus! {

/// An axis-aligned box in two dimensions, given by its minimum and maximum
/// corners.
#[derive(Debug, Clone, Copy, PartialEq, Eq)]
pub struct Bounds2<S> {
    pub min: Point2<S>,
    pub max: Point2<S>,
}

impl<S> Bounds2<S> {
    pub fn new(min: Point2<S>, max: Point2<S>) -> (b: Self)
        ensures
            b.min == min,
            b.max == max,
    {
        Bounds2 { min, max }
    }
}

impl Bounds2<i32> {
    /// The signed width, `max.x - min.x`.
    pub open spec fn width(self) -> int {
        self.max.x - self.min.x
    }

    /// The signed height, `max.y - min.y`.
    pub open spec fn height(self) -> int {
        self.max.y - self.min.y
    }

    pub open spec fn spec_area(self) -> int {
        self.width() * self.height()
    }

    /// Returns the product of the signed width and height.
    pub fn area(&self) -> (a: i32)
        requires
            i32::MIN <= self.width() <= i32::MAX,
            i32::MIN <= self.height() <= i32::MAX,
            i32::MIN <= self.spec_area() <= i32::MAX,
        ensures
            a == self.spec_area(),
    {
        (self.max.x - self.min.x) * (self.max.y - self.min.y)
    }

    /// Return a vector from `min` to `max`.
    pub fn diagonal(&self) -> (d: Vector2<i32>)
        requires
            i32::MIN <= self.width() <= i32::MAX,
            i32::MIN <= self.height() <= i32::MAX,
        ensures
            d.x == self.width(),
            d.y == self.height(),
    {
        Vector2 { x: self.max.x - self.min.x, y: self.max.y - self.min.y }
    }
}

/// Index `i * h + j` of a grid with `h` rows lies in the `i`th block of `h`
/// consecutive indices.
pub(crate) proof fn lemma_grid_index(i: int, j: int, h: int)
    requires
        0 <= i,
        0 <= j < h,
    ensures
        0 <= i * h + j < (i + 1) * h,
        (i + 1) * h == i * h + h,
{
    assert(0 <= i * h + j < (i + 1) * h) by (nonlinear_arith)
        requires
            0 <= i,
            0 <= j < h,
    ;
    assert((i + 1) * h == i * h + h) by (nonlinear_arith);
}

/// Earlier blocks of a grid come before later ones.
pub(crate) proof fn lemma_grid_rows_ordered(i1: int, i2: int, h: int)
    requires
        0 <= i1 < i2,
        0 <= h,
    ensures
        (i1 + 1) * h <= i2 * h,
{
    assert((i1 + 1) * h <= i2 * h) by (nonlinear_arith)
        requires
            i1 + 1 <= i2,
            0 <= h,
    ;
}

impl Bounds2<i32> {
    /// True when `p` lies inside the bounds, where the lower bounds are
    /// inclusive and the upper bounds are exclusive.
    pub open spec fn spec_contains(self, p: Point2<i32>) -> bool {
        &&& self.min.x <= p.x < self.max.x
        &&& self.min.y <= p.y < self.max.y
    }

    /// The intersection of two boxes: the componentwise larger minimum and
    /// smaller maximum, or nothing when those corners cross.
    pub open spec fn spec_intersect(self, other: Self) -> Option<Self> {
        let min = Point2 {
            x: if self.min.x >= other.min.x { self.min.x } else { other.min.x },
            y: if self.min.y >= other.min.y { self.min.y } else { other.min.y },
        };
        let max = Point2 {
            x: if self.max.x <= other.max.x { self.max.x } else { other.max.x },
            y: if self.max.y <= other.max.y { self.max.y } else { other.max.y },
        };
        if min.x <= max.x && min.y <= max.y {
            Some(Bounds2 { min, max })
        } else {
            None
        }
    }

    /// Return the intersection of the bounding boxes.
    pub fn intersect(&self, other: &Self) -> (r: Option<Self>)
        ensures
            r == self.spec_intersect(*other),
    {
        let min = Point2::new(self.min.x.max(other.min.x), self.min.y.max(other.min.y));
        let max = Point2::new(self.max.x.min(other.max.x), self.max.y.min(other.max.y));
        if min.x <= max.x && min.y <= max.y {
            Some(Self { min, max })
        } else {
            None
        }
    }

    /// The number of columns of points inside the bounds.
    pub open spec fn columns(self) -> int {
        if self.width() > 0 { self.width() } else { 0 }
    }

    /// The number of rows of points inside the bounds.
    pub open spec fn rows(self) -> int {
        if self.height() > 0 { self.height() } else { 0 }
    }

    /// The point in column `i` and row `j` of the bounds.
    pub open spec fn grid_point(self, i: int, j: int) -> Point2<i32> {
        Point2 { x: (self.min.x + i) as i32, y: (self.min.y + j) as i32 }
    }

    /// `points` lists the points inside the bounds column by column: point
    /// `i * rows + j` is the one in column `i` and row `j`.
    pub open spec fn is_range(self, points: Seq<Point2<i32>>) -> bool {
        &&& points.len() == self.columns() * self.rows()
        &&& forall|i: int, j: int|
            0 <= i < self.columns() && 0 <= j < self.rows() ==> #[trigger] points[i * self.rows()
                + j] == self.grid_point(i, j)
    }

    /// Return the range of points inside the bounds, where the lower bounds are
    /// inclusive and the upper bounds are exclusive. The points of a column
    /// (one `x`) come together, in increasing `y`, and the columns come in
    /// increasing `x`.
    pub fn range(&self) -> (points: Vec<Point2<i32>>)
        ensures
            self.is_range(points@),
    {
        let ghost h = self.rows();
        let mut points: Vec<Point2<i32>> = Vec::new();
        let mut x = self.min.x;
        while x < self.max.x
            invariant
                h == self.rows(),
                self.min.x <= x,
                self.columns() > 0 ==> x <= self.max.x,
                self.columns() == 0 ==> x == self.min.x,
                points.len() == (x - self.min.x) * h,
                forall|i: int, j: int|
                    0 <= i < x - self.min.x && 0 <= j < h ==> #[trigger] points@[i * h + j]
                        == self.grid_point(i, j),
            decreases self.max.x - x,
        {
            let ghost i = x - self.min.x;
            let mut y = self.min.y;
            while y < self.max.y
                invariant
                    h == self.rows(),
                    i == x - self.min.x,
                    0 <= i,
                    x < self.max.x,
                    self.min.y <= y,
                    h > 0 ==> y <= self.max.y,
                    h == 0 ==> y == self.min.y,
                    points.len() == i * h + (y - self.min.y),
                    forall|i2: int, j: int|
                        0 <= i2 < i && 0 <= j < h ==> #[trigger] points@[i2 * h + j]
                            == self.grid_point(i2, j),
                    forall|j: int|
                        0 <= j < y - self.min.y ==> #[trigger] points@[i * h + j]
                            == self.grid_point(i, j),
                decreases self.max.y - y,
            {
                let ghost j = y - self.min.y;
                let ghost before = points@;
                points.push(Point2::new(x, y));
                proof {
                    lemma_grid_index(i, j, h);
                    assert forall|i2: int, j2: int| 0 <= i2 < i && 0 <= j2 < h implies #[trigger] points@[i2
                        * h + j2] == self.grid_point(i2, j2) by {
                        lemma_grid_index(i2, j2, h);
                        lemma_grid_rows_ordered(i2, i, h);
                        assert(before[i2 * h + j2] == self.grid_point(i2, j2));
                    }
                }
                y = y + 1;
            }
            proof {
                assert((i + 1) * h == i * h + h) by (nonlinear_arith);
            }
            x = x + 1;
        }
        points
    }
}

/// Splits an index of a grid with `h` rows into its column and row.
pub(crate) proof fn lemma_grid_split(k: int, w: int, h: int) -> (ij: (int, int))
    requires
        0 <= k < w * h,
        0 < h,
    ensures
        0 <= ij.0 < w,
        0 <= ij.1 < h,
        k == ij.0 * h + ij.1,
{
    let i = k / h;
    let j = k % h;
    vstd::arithmetic::div_mod::lemma_fundamental_div_mod(k, h);
    vstd::arithmetic::div_mod::lemma_mod_pos_bound(k, h);
    vstd::arithmetic::div_mod::lemma_div_pos_is_pos(k, h);
    assert(k == i * h + j) by (nonlinear_arith)
        requires
            k == h * (k / h) + (k % h),
            i == k / h,
            j == k % h,
    ;
    assert(i < w) by (nonlinear_arith)
        requires
            k == i * h + j,
            0 <= j,
            k < w * h,
            0 < h,
    ;
    (i, j)
}

/// A point lies in the intersection of two boxes exactly when it lies in both,
/// and the intersection is absent only when no point lies in both.
pub proof fn lemma_intersect_contains(a: Bounds2<i32>, b: Bounds2<i32>, p: Point2<i32>)
    ensures
        match a.spec_intersect(b) {
            Some(r) => r.spec_contains(p) <==> (a.spec_contains(p) && b.spec_contains(p)),
            None => !(a.spec_contains(p) && b.spec_contains(p)),
        },
{
}

/// Intersecting two boxes does not depend on their order.
pub proof fn lemma_intersect_commutes(a: Bounds2<i32>, b: Bounds2<i32>)
    ensures
        a.spec_intersect(b) == b.spec_intersect(a),
{
}

/// A box whose minimum does not exceed its maximum intersected with itself
/// gives the box back.
pub proof fn lemma_intersect_self(a: Bounds2<i32>)
    requires
        a.min.x <= a.max.x,
        a.min.y <= a.max.y,
    ensures
        a.spec_intersect(a) == Some(a),
{
}

/// The range of a box lists each point inside the box exactly once and no
/// other point; for a box whose minimum does not exceed its maximum, it has as
/// many points as the box's area.
pub proof fn lemma_range_exact(b: Bounds2<i32>, points: Seq<Point2<i32>>)
    requires
        b.is_range(points),
    ensures
        forall|p: Point2<i32>| points.contains(p) <==> b.spec_contains(p),
        points.no_duplicates(),
        b.width() >= 0 && b.height() >= 0 ==> points.len() == b.spec_area(),
{
    let w = b.columns();
    let h = b.rows();
    assert forall|p: Point2<i32>| points.contains(p) <==> b.spec_contains(p) by {
        if b.spec_contains(p) {
            let i = p.x - b.min.x;
            let j = p.y - b.min.y;
            lemma_grid_index(i, j, h);
            assert(i * h + j < w * h) by (nonlinear_arith)
                requires
                    i * h + j < (i + 1) * h,
                    i + 1 <= w,
                    0 <= h,
            ;
            assert(points[i * h + j] == b.grid_point(i, j));
        }
        if points.contains(p) {
            let k = choose|k: int| 0 <= k < points.len() && points[k] == p;
            assert(h > 0) by {
                if h <= 0 {
                    assert(w * h <= 0) by (nonlinear_arith)
                        requires
                            h <= 0,
                            h >= 0,
                    ;
                }
            }
            let (i, j) = lemma_grid_split(k, w, h);
            assert(points[i * h + j] == b.grid_point(i, j));
        }
    }
    assert forall|k1: int, k2: int|
        0 <= k1 < points.len() && 0 <= k2 < points.len() && k1 != k2 implies points[k1]
        != points[k2] by {
        assert(h > 0) by {
            if h <= 0 {
                assert(w * h <= 0) by (nonlinear_arith)
                    requires
                        h <= 0,
                        h >= 0,
                ;
            }
        }
        let (i1, j1) = lemma_grid_split(k1, w, h);
        let (i2, j2) = lemma_grid_split(k2, w, h);
        assert(points[i1 * h + j1] == b.grid_point(i1, j1));
        assert(points[i2 * h + j2] == b.grid_point(i2, j2));
    }
}

} // verus!
