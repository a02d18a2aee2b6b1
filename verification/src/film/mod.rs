pub mod tile;

use crate::geometry::bounds::Bounds2;
use crate::geometry::point::{Point2, Vector2};
use vstd::prelude::*;

verus! {

/// Models the sensing device in a simulated camera. Acts as a 2D plane of
/// pixels onto which a final image is rendered.
pub struct Film<P> {
    /// The image's resolution in pixels.
    pub resolution: Vector2<usize>,
    /// A bounding box around the film's pixels in raster space.
    ///
    /// Note that `pixel_bounds.min` is the point `(0, 0)` at the top-left
    /// corner of the top-left pixel, whose index is `(0, 0)`.
    /// `pixel_bounds.max` is the point `(resolution.x, resolution.y)` at the
    /// bottom right corner of the bottom-right pixel, whose index is
    /// `(resolution.x - 1, resolution.y - 1)`.
    pub pixel_bounds: Bounds2<i32>,
    /// The film's pixels, row by row.
    pub pixels: Vec<P>,
}

impl<P: Copy> Film<P> {
    /// Creates a film of `x` by `y` pixels, each holding `blank`. The pixel
    /// bounds reach from `(0, 0)` to `(x, y)`, each converted to `i32`.
    pub fn new(x: usize, y: usize, blank: P) -> (film: Self)
        requires
            x * y <= usize::MAX,
        ensures
            film.resolution == (Vector2 { x, y }),
            film.pixel_bounds == (Bounds2 {
                min: Point2 { x: 0i32, y: 0i32 },
                max: Point2 { x: x as i32, y: y as i32 },
            }),
            film.pixels.len() == x * y,
            forall|i: int| 0 <= i < x * y ==> #[trigger] film.pixels@[i] == blank,
    {
        let pixel_bounds = Bounds2::new(Point2::new(0, 0), Point2::new(x as i32, y as i32));
        let pixels = crate::film::tile::filled(x * y, blank);
        Film { resolution: Vector2::new(x, y), pixel_bounds, pixels }
    }
}

} // verus!
