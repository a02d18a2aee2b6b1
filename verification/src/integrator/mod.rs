use crate::geometry::bounds::Bounds2;
use crate::geometry::point::Point2;
use vstd::prelude::*;

verus! {

/// The width and height, in pixels, of a render tile.
pub const TILE_SIZE: usize = 16;

/// A ray tracer based on Whitted's ray tracing algorithm. This can accurately
/// compute reflected and transmitted light from specular surfaces like glass,
/// mirrors, and water. It does not account for indirect lighting effects.
pub struct WhittedRayTracer {}

/// A ray tracer that shades surfaces with ambient, diffuse and specular terms
/// for each light.
pub struct OriginalRayTracer {}

/// A tile in an image's sample bounds that can be rendered in parallel with
/// other tiles.
#[derive(Debug, Clone, Copy, PartialEq, Eq)]
pub struct Tile {
    pub sample_bounds: Bounds2<i32>,
    /// The index of the tile in a vector represeting a row-major grid of tiles.
    ///
    /// This index is mostly useful as a unique ID for each tile, such as a
    /// seed for a tile's pseudo-random number generator.
    pub row_major_index: usize,
}

/// The number of tile columns needed to cover `b`: its width divided by the
/// tile size, rounded up.
pub open spec fn tile_columns(b: Bounds2<i32>) -> int {
    (b.width() + 15) / 16
}

/// The number of tile rows needed to cover `b`: its height divided by the tile
/// size, rounded up.
pub open spec fn tile_rows(b: Bounds2<i32>) -> int {
    (b.height() + 15) / 16
}

/// The sample bounds of the tile in column `tx` and row `ty` of the tiles
/// covering `image_sample_bounds`: a 16-by-16 box whose minimum corner is
/// offset by 16 times the tile indices from the image's minimum corner,
/// limited to the image's maximum corner.
pub open spec fn spec_tile_sample_bounds(
    image_sample_bounds: Bounds2<i32>,
    tx: int,
    ty: int,
) -> Bounds2<i32> {
    let min = Point2 {
        x: (image_sample_bounds.min.x + ((tx * 16) as i32)) as i32,
        y: (image_sample_bounds.min.y + ((ty * 16) as i32)) as i32,
    };
    let max = Point2 {
        x: if min.x + 16 <= image_sample_bounds.max.x {
            (min.x + 16) as i32
        } else {
            image_sample_bounds.max.x
        },
        y: if min.y + 16 <= image_sample_bounds.max.y {
            (min.y + 16) as i32
        } else {
            image_sample_bounds.max.y
        },
    };
    Bounds2 { min, max }
}

/// The tile indices stay within what the arithmetic of
/// `tile_sample_bounds` can compute without overflow.
pub open spec fn tile_indices_in_range(
    image_sample_bounds: Bounds2<i32>,
    tx: int,
    ty: int,
) -> bool {
    &&& 0 <= tx * 16 <= usize::MAX
    &&& 0 <= ty * 16 <= usize::MAX
    &&& i32::MIN <= image_sample_bounds.min.x + ((tx * 16) as i32)
    &&& image_sample_bounds.min.x + ((tx * 16) as i32) + 16 <= i32::MAX
    &&& i32::MIN <= image_sample_bounds.min.y + ((ty * 16) as i32)
    &&& image_sample_bounds.min.y + ((ty * 16) as i32) + 16 <= i32::MAX
}

/// Return the sample bounds of the tile in column `tile_x_index` and row
/// `tile_y_index` of the 16-by-16 tiles that cover the image sample bounds.
pub fn tile_sample_bounds(
    image_sample_bounds: &Bounds2<i32>,
    tile_x_index: usize,
    tile_y_index: usize,
) -> (r: Bounds2<i32>)
    requires
        tile_indices_in_range(*image_sample_bounds, tile_x_index as int, tile_y_index as int),
    ensures
        r == spec_tile_sample_bounds(*image_sample_bounds, tile_x_index as int, tile_y_index as int),
{
    let min = Point2::new(
        image_sample_bounds.min.x + (tile_x_index * TILE_SIZE) as i32,
        image_sample_bounds.min.y + (tile_y_index * TILE_SIZE) as i32,
    );
    let max = Point2::new(
        // Tiles on the bottom and right edges might extend beyond the image
        // sample bounds, so be sure to limit the tile sample bounds to the
        // image sample bounds.
        (min.x + TILE_SIZE as i32).min(image_sample_bounds.max.x),
        (min.y + TILE_SIZE as i32).min(image_sample_bounds.max.y),
    );
    Bounds2::new(min, max)
}

/// What `Tile::span_image_sample_bounds` asks of the image sample bounds:
/// a minimum corner that does not exceed the maximum one, a width and height
/// that fit an `i32`, a tile count that fits a `usize`, and tiles whose corners
/// fit an `i32`.
pub open spec fn spannable(b: Bounds2<i32>) -> bool {
    &&& 0 <= b.width() <= i32::MAX
    &&& 0 <= b.height() <= i32::MAX
    &&& tile_columns(b) * tile_rows(b) <= usize::MAX
    &&& tile_columns(b) > 0 && tile_rows(b) > 0 ==> b.min.x + 16 * tile_columns(b) <= i32::MAX
        && b.min.y + 16 * tile_rows(b) <= i32::MAX
}

/// `tiles` is the row-major grid of 16-by-16 tiles that spans `b`: the tile in
/// column `tx` and row `ty` stands at index `ty * columns + tx`, carries that
/// index, and has the sample bounds `spec_tile_sample_bounds(b, tx, ty)`.
pub open spec fn is_tiling(b: Bounds2<i32>, tiles: Seq<Tile>) -> bool {
    &&& tiles.len() == tile_columns(b) * tile_rows(b)
    &&& forall|tx: int, ty: int|
        0 <= tx < tile_columns(b) && 0 <= ty < tile_rows(b) ==> #[trigger] tiles[ty
            * tile_columns(b) + tx] == (Tile {
            sample_bounds: spec_tile_sample_bounds(b, tx, ty),
            row_major_index: (ty * tile_columns(b) + tx) as usize,
        })
}

/// The tile corners stay in range for every tile of a spannable box.
proof fn lemma_spannable_indices(b: Bounds2<i32>, tx: int, ty: int)
    requires
        spannable(b),
        0 <= tx < tile_columns(b),
        0 <= ty < tile_rows(b),
    ensures
        tile_indices_in_range(b, tx, ty),
        (tx * 16) as i32 == tx * 16,
        (ty * 16) as i32 == ty * 16,
{
    assert(16 * tile_columns(b) <= b.width() + 15);
    assert(16 * tile_rows(b) <= b.height() + 15);
}

impl Tile {
    /// Return a vector of 16-by-16 tiles that span the given image sample
    /// bounds, in row-major order.
    pub fn span_image_sample_bounds(image_sample_bounds: &Bounds2<i32>) -> (tiles: Vec<Tile>)
        requires
            spannable(*image_sample_bounds),
        ensures
            is_tiling(*image_sample_bounds, tiles@),
    {
        let ghost b = *image_sample_bounds;
        let image_sample_extent = image_sample_bounds.diagonal();
        let tile_count_x = (image_sample_extent.x as usize + TILE_SIZE - 1) / TILE_SIZE;
        let tile_count_y = (image_sample_extent.y as usize + TILE_SIZE - 1) / TILE_SIZE;
        let ghost w = tile_count_x as int;
        assert(w == tile_columns(b));
        assert(tile_count_y == tile_rows(b));
        let mut tiles: Vec<Tile> = Vec::new();
        let mut y: usize = 0;
        while y < tile_count_y
            invariant
                b == *image_sample_bounds,
                spannable(b),
                w == tile_count_x,
                w == tile_columns(b),
                tile_count_y == tile_rows(b),
                y <= tile_count_y,
                tiles.len() == y * w,
                forall|tx: int, ty: int|
                    0 <= tx < w && 0 <= ty < y ==> #[trigger] tiles@[ty * w + tx] == (Tile {
                        sample_bounds: spec_tile_sample_bounds(b, tx, ty),
                        row_major_index: (ty * w + tx) as usize,
                    }),
            decreases tile_count_y - y,
        {
            let mut x: usize = 0;
            while x < tile_count_x
                invariant
                    b == *image_sample_bounds,
                    spannable(b),
                    w == tile_count_x,
                    w == tile_columns(b),
                    tile_count_y == tile_rows(b),
                    y < tile_count_y,
                    x <= tile_count_x,
                    tiles.len() == y * w + x,
                    forall|tx: int, ty: int|
                        0 <= tx < w && 0 <= ty < y ==> #[trigger] tiles@[ty * w + tx] == (Tile {
                            sample_bounds: spec_tile_sample_bounds(b, tx, ty),
                            row_major_index: (ty * w + tx) as usize,
                        }),
                    forall|tx: int|
                        0 <= tx < x ==> #[trigger] tiles@[y * w + tx] == (Tile {
                            sample_bounds: spec_tile_sample_bounds(b, tx, y as int),
                            row_major_index: (y * w + tx) as usize,
                        }),
                decreases tile_count_x - x,
            {
                proof {
                    lemma_spannable_indices(b, x as int, y as int);
                    crate::geometry::bounds::lemma_grid_index(y as int, x as int, w);
                    assert((y + 1) * w <= tile_count_x * tile_count_y) by (nonlinear_arith)
                        requires
                            y + 1 <= tile_count_y,
                            0 <= w == tile_count_x,
                    ;
                }
                let row_major_index = y * tile_count_x + x;
                let ghost before = tiles@;
                tiles.push(
                    Tile {
                        sample_bounds: Self::tile_sample_bounds(image_sample_bounds, x, y),
                        row_major_index,
                    },
                );
                proof {
                    assert forall|tx: int, ty: int| 0 <= tx < w && 0 <= ty < y implies #[trigger] tiles@[ty
                        * w + tx] == (Tile {
                        sample_bounds: spec_tile_sample_bounds(b, tx, ty),
                        row_major_index: (ty * w + tx) as usize,
                    }) by {
                        crate::geometry::bounds::lemma_grid_index(ty, tx, w);
                        crate::geometry::bounds::lemma_grid_rows_ordered(ty, y as int, w);
                        assert(before[ty * w + tx] == (Tile {
                            sample_bounds: spec_tile_sample_bounds(b, tx, ty),
                            row_major_index: (ty * w + tx) as usize,
                        }));
                    }
                }
                x = x + 1;
            }
            proof {
                assert((y + 1) * w == y * w + w) by (nonlinear_arith);
            }
            y = y + 1;
        }
        assert(y * w == w * y) by (nonlinear_arith);
        assert forall|tx: int, ty: int|
            0 <= tx < tile_columns(b) && 0 <= ty < tile_rows(b) implies #[trigger] tiles@[ty
            * tile_columns(b) + tx] == (Tile {
            sample_bounds: spec_tile_sample_bounds(b, tx, ty),
            row_major_index: (ty * tile_columns(b) + tx) as usize,
        }) by {
            assert(tiles@[ty * w + tx] == (Tile {
                sample_bounds: spec_tile_sample_bounds(b, tx, ty),
                row_major_index: (ty * w + tx) as usize,
            }));
        }
        tiles
    }

    /// Return a vector of 16-by-16 tiles that span the given image sample
    /// bounds, in row-major order.
    pub fn from_image_sample_bounds(image_sample_bounds: &Bounds2<i32>) -> (tiles: Vec<Tile>)
        requires
            spannable(*image_sample_bounds),
        ensures
            is_tiling(*image_sample_bounds, tiles@),
    {
        Self::span_image_sample_bounds(image_sample_bounds)
    }

    /// Return the sample bounds of the tile in column `tile_x_index` and row
    /// `tile_y_index` of the tiles that span the image sample bounds.
    pub fn tile_sample_bounds(
        image_sample_bounds: &Bounds2<i32>,
        tile_x_index: usize,
        tile_y_index: usize,
    ) -> (r: Bounds2<i32>)
        requires
            tile_indices_in_range(*image_sample_bounds, tile_x_index as int, tile_y_index as int),
        ensures
            r == spec_tile_sample_bounds(
                *image_sample_bounds,
                tile_x_index as int,
                tile_y_index as int,
            ),
    {
        tile_sample_bounds(image_sample_bounds, tile_x_index, tile_y_index)
    }
}

/// Return the number of 16-by-16 tiles into which the image's sample bounds
/// can be divided for parallelized rendering.
///
/// If a dimension of the sample bounds cannot be evenly divided by 16, then
/// the number of tiles in that dimension is rounded up so that the entire
/// sample bounds can be contained in the tiles. A dimension whose extent is
/// not positive has no tiles.
pub fn tile_count(image_sample_bounds: &Bounds2<i32>) -> (r: (usize, usize))
    requires
        i32::MIN <= image_sample_bounds.width() <= i32::MAX,
        i32::MIN <= image_sample_bounds.height() <= i32::MAX,
    ensures
        r.0 == (if image_sample_bounds.width() > 0 {
            tile_columns(*image_sample_bounds)
        } else {
            0
        }),
        r.1 == (if image_sample_bounds.height() > 0 {
            tile_rows(*image_sample_bounds)
        } else {
            0
        }),
{
    let sample_extent = image_sample_bounds.diagonal();
    (
        (sample_extent.x.max(0) as usize + TILE_SIZE - 1) / TILE_SIZE,
        (sample_extent.y.max(0) as usize + TILE_SIZE - 1) / TILE_SIZE,
    )
}

/// `tile_count` gives the number of columns and rows of the tiles that
/// `span_image_sample_bounds` returns.
pub proof fn lemma_tile_count_agrees(b: Bounds2<i32>, tiles: Seq<Tile>)
    requires
        spannable(b),
        is_tiling(b, tiles),
    ensures
        tiles.len() == (if b.width() > 0 {
            tile_columns(b)
        } else {
            0
        }) * (if b.height() > 0 {
            tile_rows(b)
        } else {
            0
        }),
{
}

/// Each tile of a spannable box lies inside the box, holds at least one point
/// and spans at most 16 points along each axis.
pub proof fn lemma_tile_inside(b: Bounds2<i32>, tx: int, ty: int)
    requires
        spannable(b),
        0 <= tx < tile_columns(b),
        0 <= ty < tile_rows(b),
    ensures
        ({
            let t = spec_tile_sample_bounds(b, tx, ty);
            &&& b.min.x <= t.min.x < t.max.x <= b.max.x
            &&& b.min.y <= t.min.y < t.max.y <= b.max.y
            &&& t.max.x - t.min.x <= 16
            &&& t.max.y - t.min.y <= 16
        }),
{
    lemma_spannable_indices(b, tx, ty);
}

/// Every point of a spannable box lies in the tile whose column and row are
/// the point's offsets from the box's minimum corner divided by 16, and in no
/// other tile.
pub proof fn lemma_tile_of_point(b: Bounds2<i32>, p: Point2<i32>, tx: int, ty: int)
    requires
        spannable(b),
        0 <= tx < tile_columns(b),
        0 <= ty < tile_rows(b),
    ensures
        b.spec_contains(p) ==> 0 <= (p.x - b.min.x) / 16 < tile_columns(b) && 0 <= (p.y
            - b.min.y) / 16 < tile_rows(b),
        spec_tile_sample_bounds(b, tx, ty).spec_contains(p) <==> (b.spec_contains(p) && tx == (
        p.x - b.min.x) / 16 && ty == (p.y - b.min.y) / 16),
{
    lemma_spannable_indices(b, tx, ty);
}

/// The tiles that `span_image_sample_bounds` returns partition the image
/// sample bounds: every point inside the bounds lies in exactly one tile, and
/// every point of a tile lies inside the bounds. Each tile holds at least one
/// point, spans at most 16 points along each axis, and carries its own
/// position in the vector as its row-major index.
pub proof fn lemma_tiling_partitions(b: Bounds2<i32>, tiles: Seq<Tile>, p: Point2<i32>)
    requires
        spannable(b),
        is_tiling(b, tiles),
    ensures
        b.spec_contains(p) ==> exists|k: int|
            0 <= k < tiles.len() && (#[trigger] tiles[k]).sample_bounds.spec_contains(p),
        forall|k: int|
            0 <= k < tiles.len() && (#[trigger] tiles[k]).sample_bounds.spec_contains(p)
                ==> b.spec_contains(p),
        forall|k1: int, k2: int|
            0 <= k1 < tiles.len() && 0 <= k2 < tiles.len() && (#[trigger] tiles[k1]).sample_bounds.spec_contains(p)
                && (#[trigger] tiles[k2]).sample_bounds.spec_contains(p) ==> k1 == k2,
        forall|k: int|
            0 <= k < tiles.len() ==> {
                let t = (#[trigger] tiles[k]).sample_bounds;
                &&& t.min.x < t.max.x <= t.min.x + 16
                &&& t.min.y < t.max.y <= t.min.y + 16
                &&& tiles[k].row_major_index == k
            },
{
    let w = tile_columns(b);
    let h = tile_rows(b);
    if b.spec_contains(p) {
        let tx = (p.x - b.min.x) / 16;
        let ty = (p.y - b.min.y) / 16;
        assert(0 <= tx < w && 0 <= ty < h);
        lemma_tile_of_point(b, p, tx, ty);
        crate::geometry::bounds::lemma_grid_index(ty, tx, w);
        assert(ty * w + tx < w * h) by (nonlinear_arith)
            requires
                ty * w + tx < (ty + 1) * w,
                ty + 1 <= h,
                0 <= w,
        ;
        assert(tiles[ty * w + tx].sample_bounds.spec_contains(p));
    }
    assert forall|k: int| 0 <= k < tiles.len() implies {
        let t = (#[trigger] tiles[k]).sample_bounds;
        &&& (t.spec_contains(p) ==> b.spec_contains(p) && k == (p.y - b.min.y) / 16 * w + (p.x
            - b.min.x) / 16)
        &&& t.min.x < t.max.x <= t.min.x + 16
        &&& t.min.y < t.max.y <= t.min.y + 16
        &&& tiles[k].row_major_index == k
    } by {
        assert(w * h == h * w && w > 0) by (nonlinear_arith)
            requires
                0 <= k < w * h,
                0 <= h,
                0 <= w,
        ;
        let (ty, tx) = crate::geometry::bounds::lemma_grid_split(k, h, w);
        assert(tiles[ty * w + tx].sample_bounds == spec_tile_sample_bounds(b, tx, ty));
        lemma_tile_inside(b, tx, ty);
        lemma_tile_of_point(b, p, tx, ty);
    }
}

} // verus!
