use crate::geometry::bounds::Bounds2;
use crate::geometry::point::Point2;
use vstd::prelude::*;

verus! {

/// Returns `count` copies of `value`.
pub(crate) fn filled<P: Copy>(count: usize, value: P) -> (v: Vec<P>)
    ensures
        v.len() == count,
        forall|i: int| 0 <= i < count ==> #[trigger] v@[i] == value,
{
    let mut v: Vec<P> = Vec::new();
    let mut i: usize = 0;
    while i < count
        invariant
            i <= count,
            v.len() == i,
            forall|j: int| 0 <= j < i ==> #[trigger] v@[j] == value,
        decreases count - i,
    {
        v.push(value);
        i = i + 1;
    }
    v
}

/// Stores the pixel data for a subset of a larger `Film`. A `FilmTile` can be
/// merged into a `Film` to add its pixel contributions to the `Film`.
///
/// The pixels are stored row by row: the pixel whose top-left corner is `p`
/// sits at index `(p.y - min.y) * width + (p.x - min.x)`.
pub struct FilmTile<P> {
    /// A bounding box around the pixels (in raster space) that the tile
    /// contains.
    pub pixel_bounds: Bounds2<i32>,
    pub pixels: Vec<P>,
}

/// The area of `b` when it is positive, and zero otherwise.
pub open spec fn pixel_count(b: Bounds2<i32>) -> int {
    if b.spec_area() > 0 {
        b.spec_area()
    } else {
        0
    }
}

impl<P: Copy> FilmTile<P> {
    /// Creates a tile covering `pixel_bounds` whose pixels all hold `blank`.
    /// A tile with a negative area holds no pixels.
    pub fn new(pixel_bounds: Bounds2<i32>, blank: P) -> (tile: Self)
        requires
            i32::MIN <= pixel_bounds.width() <= i32::MAX,
            i32::MIN <= pixel_bounds.height() <= i32::MAX,
            i32::MIN <= pixel_bounds.spec_area() <= i32::MAX,
        ensures
            tile.pixel_bounds == pixel_bounds,
            tile.pixels.len() == pixel_count(pixel_bounds),
            forall|i: int| 0 <= i < tile.pixels.len() ==> #[trigger] tile.pixels@[i] == blank,
    {
        let pixels = filled(pixel_bounds.area().max(0) as usize, blank);
        Self { pixel_bounds, pixels }
    }

    /// The position in `pixels` of the pixel whose top-left corner is `p`:
    /// `(p.y - min.y) * width + (p.x - min.x)`.
    pub open spec fn spec_pixel_index(&self, p: Point2<i32>) -> int {
        (p.y - self.pixel_bounds.min.y) * self.pixel_bounds.width() + (p.x
            - self.pixel_bounds.min.x)
    }

    /// The arithmetic of `pixel_index` stays within `i32` for `p`.
    pub open spec fn index_in_range(&self, p: Point2<i32>) -> bool {
        &&& i32::MIN <= p.x - self.pixel_bounds.min.x <= i32::MAX
        &&& i32::MIN <= p.y - self.pixel_bounds.min.y <= i32::MAX
        &&& i32::MIN <= self.pixel_bounds.width() <= i32::MAX
        &&& i32::MIN <= self.pixel_bounds.height() <= i32::MAX
        &&& i32::MIN <= (p.y - self.pixel_bounds.min.y) * self.pixel_bounds.width() <= i32::MAX
        &&& i32::MIN <= self.spec_pixel_index(p) <= i32::MAX
    }

    /// Get the index into `pixels` of the pixel with the given top-left corner
    /// in raster space.
    pub fn pixel_index(&self, p: &Point2<i32>) -> (i: usize)
        requires
            self.index_in_range(*p),
            0 <= self.spec_pixel_index(*p),
        ensures
            i == self.spec_pixel_index(*p),
    {
        let relative_p = Point2::new(
            p.x - self.pixel_bounds.min.x,
            p.y - self.pixel_bounds.min.y,
        );
        (relative_p.y * self.pixel_bounds.diagonal().x + relative_p.x) as usize
    }

    /// Get the pixel whose top-left corner is at the given point, or nothing
    /// when the tile holds no such pixel.
    pub fn pixel_at(&self, pixel_min_corner: Point2<i32>) -> (r: Option<&P>)
        requires
            i32::MIN <= self.pixel_bounds.width() <= i32::MAX,
            i32::MIN <= self.pixel_bounds.height() <= i32::MAX,
            i32::MIN <= self.pixel_bounds.spec_area() <= i32::MAX,
        ensures
            r == (if self.pixel_bounds.spec_contains(pixel_min_corner) && self.spec_pixel_index(
                pixel_min_corner,
            ) < self.pixels.len() {
                Some(&self.pixels@[self.spec_pixel_index(pixel_min_corner)])
            } else {
                None
            }),
    {
        let b = self.pixel_bounds;
        if !(b.min.x <= pixel_min_corner.x && pixel_min_corner.x < b.max.x && b.min.y
            <= pixel_min_corner.y && pixel_min_corner.y < b.max.y) {
            return None;
        }
        proof {
            lemma_index_in_range(*self, pixel_min_corner);
        }
        let index = self.pixel_index(&pixel_min_corner);
        if index < self.pixels.len() {
            Some(&self.pixels[index])
        } else {
            None
        }
    }
}

/// For a point inside the bounds of a tile whose area fits an `i32`, the
/// arithmetic of `pixel_index` stays within `i32` and gives an index in
/// `[0, area)`.
pub proof fn lemma_index_in_range<P: Copy>(tile: FilmTile<P>, p: Point2<i32>)
    requires
        tile.pixel_bounds.spec_contains(p),
        i32::MIN <= tile.pixel_bounds.width() <= i32::MAX,
        i32::MIN <= tile.pixel_bounds.height() <= i32::MAX,
        i32::MIN <= tile.pixel_bounds.spec_area() <= i32::MAX,
    ensures
        tile.index_in_range(p),
        0 <= tile.spec_pixel_index(p) < tile.pixel_bounds.spec_area(),
{
    let b = tile.pixel_bounds;
    let w = b.width();
    let h = b.height();
    let (px, py) = (p.x - b.min.x, p.y - b.min.y);
    crate::geometry::bounds::lemma_grid_index(py, px, w);
    assert(py * w + px < w * h) by (nonlinear_arith)
        requires
            py * w + px < (py + 1) * w,
            py + 1 <= h,
            0 <= w,
    ;
    assert(0 <= py * w <= py * w + px) by (nonlinear_arith)
        requires
            0 <= py,
            0 <= w,
            0 <= px,
    ;
}

/// A tile as `new` makes it holds the blank pixel at every point inside its
/// bounds: each such point's index lies in `pixels` and names a blank pixel.
pub proof fn lemma_new_tile_holds_blank_pixels<P: Copy>(tile: FilmTile<P>, blank: P, p: Point2<i32>)
    requires
        i32::MIN <= tile.pixel_bounds.width() <= i32::MAX,
        i32::MIN <= tile.pixel_bounds.height() <= i32::MAX,
        i32::MIN <= tile.pixel_bounds.spec_area() <= i32::MAX,
        tile.pixels.len() == pixel_count(tile.pixel_bounds),
        forall|i: int| 0 <= i < tile.pixels.len() ==> #[trigger] tile.pixels@[i] == blank,
        tile.pixel_bounds.spec_contains(p),
    ensures
        0 <= tile.spec_pixel_index(p) < tile.pixels.len(),
        tile.pixels@[tile.spec_pixel_index(p)] == blank,
{
    lemma_index_in_range(tile, p);
}

/// Pixels are stored row by row: the top-left pixel of the bounds has index
/// zero, the pixel to the right of a pixel follows it directly, and the pixel
/// below a pixel comes one row width later.
pub proof fn lemma_pixel_index_row_major<P: Copy>(tile: FilmTile<P>, p: Point2<i32>)
    ensures
        tile.spec_pixel_index(tile.pixel_bounds.min) == 0,
        tile.spec_pixel_index(Point2 { x: (p.x + 1) as i32, y: p.y }) == tile.spec_pixel_index(p)
            + 1 || p.x + 1 > i32::MAX,
        tile.spec_pixel_index(Point2 { x: p.x, y: (p.y + 1) as i32 }) == tile.spec_pixel_index(p)
            + (tile.pixel_bounds.max.x - tile.pixel_bounds.min.x) || p.y + 1 > i32::MAX,
{
    let w = tile.pixel_bounds.width();
    let dy = p.y - tile.pixel_bounds.min.y;
    assert((dy + 1) * w == dy * w + w) by (nonlinear_arith);
    assert(0 * w == 0) by (nonlinear_arith);
}

/// Inside the tile's bounds, pixel indices number the pixels one to one: each
/// point inside the bounds has an index in `[0, pixel_count)`, and two
/// different points inside the bounds have different indices.
pub proof fn lemma_pixel_index_one_to_one<P: Copy>(
    tile: FilmTile<P>,
    p: Point2<i32>,
    q: Point2<i32>,
)
    requires
        tile.pixel_bounds.spec_contains(p),
        tile.pixel_bounds.spec_contains(q),
    ensures
        0 <= tile.spec_pixel_index(p) < pixel_count(tile.pixel_bounds),
        p != q ==> tile.spec_pixel_index(p) != tile.spec_pixel_index(q),
{
    let b = tile.pixel_bounds;
    let w = b.width();
    let h = b.height();
    let (px, py) = (p.x - b.min.x, p.y - b.min.y);
    let (qx, qy) = (q.x - b.min.x, q.y - b.min.y);
    crate::geometry::bounds::lemma_grid_index(py, px, w);
    assert(py * w + px < w * h) by (nonlinear_arith)
        requires
            py * w + px < (py + 1) * w,
            py + 1 <= h,
            0 <= w,
    ;
    if p != q {
        if py == qy {
            assert(px != qx);
        } else if py < qy {
            crate::geometry::bounds::lemma_grid_index(qy, qx, w);
            crate::geometry::bounds::lemma_grid_rows_ordered(py, qy, w);
        } else {
            crate::geometry::bounds::lemma_grid_index(qy, qx, w);
            crate::geometry::bounds::lemma_grid_rows_ordered(qy, py, w);
        }
    }
}

} // verus!
