use crate::geometry::point::Point2;
use vstd::prelude::*;

verus! {

/// The errors that the part viewer reports.
#[derive(Debug, Clone, Copy, PartialEq, Eq)]
pub enum Error {
    /// The mesh has no vertices, so it has no bounding box.
    EmptyMesh,
    /// Every pixel of the image is fully transparent, so there is nothing to
    /// crop to.
    ZeroAreaImage,
}

/// An image of RGBA pixels with 8 bits per channel, stored row by row with the
/// four channels of a pixel next to each other.
pub struct RgbaImage {
    pub width: u32,
    pub height: u32,
    pub data: Vec<u8>,
}

impl RgbaImage {
    /// The buffer holds exactly four bytes for each pixel.
    pub open spec fn wf(&self) -> bool {
        self.data.len() == self.width * self.height * 4
    }

    /// The index in `data` of channel `c` of the pixel at `(x, y)`.
    pub open spec fn channel_index(&self, x: int, y: int, c: int) -> int {
        (y * self.width + x) * 4 + c
    }

    /// The pixel at `(x, y)` lies in the image and its alpha channel is not
    /// zero.
    pub open spec fn non_transparent(&self, x: int, y: int) -> bool {
        &&& 0 <= x < self.width
        &&& 0 <= y < self.height
        &&& self.data@[self.channel_index(x, y, 3)] != 0
    }

    /// `min` and `max` are the inclusive corners of the smallest box that
    /// holds every non-transparent pixel of the image.
    pub open spec fn is_non_transparent_bounds(&self, min: Point2<u32>, max: Point2<u32>) -> bool {
        &&& forall|x: int, y: int|
            #[trigger] self.non_transparent(x, y) ==> min.x <= x <= max.x && min.y <= y <= max.y
        &&& exists|y: int| #[trigger] self.non_transparent(min.x as int, y)
        &&& exists|y: int| #[trigger] self.non_transparent(max.x as int, y)
        &&& exists|x: int| #[trigger] self.non_transparent(x, min.y as int)
        &&& exists|x: int| #[trigger] self.non_transparent(x, max.y as int)
    }

    /// The image has a pixel that is not fully transparent.
    pub open spec fn has_non_transparent(&self) -> bool {
        exists|x: int, y: int| #[trigger] self.non_transparent(x, y)
    }

    /// The image is the `width` by `height` part of `source` whose top-left
    /// pixel is `(x, y)`.
    pub open spec fn is_crop_of(
        &self,
        source: RgbaImage,
        x: int,
        y: int,
        width: int,
        height: int,
    ) -> bool {
        &&& self.width == width
        &&& self.height == height
        &&& self.wf()
        &&& forall|i: int, j: int, c: int|
            0 <= i < width && 0 <= j < height && 0 <= c < 4 ==> #[trigger] self.data@[self.channel_index(
                i,
                j,
                c,
            )] == source.data@[source.channel_index(x + i, y + j, c)]
    }
}

/// The channel indices of the pixels of a well-formed image lie inside its
/// buffer.
proof fn lemma_channel_index_in_buffer(image: &RgbaImage, x: int, y: int, c: int)
    requires
        image.wf(),
        0 <= x < image.width,
        0 <= y < image.height,
        0 <= c < 4,
    ensures
        0 <= image.channel_index(x, y, c) < image.data.len(),
        y * image.width + x < image.width * image.height,
{
    let w = image.width as int;
    let h = image.height as int;
    crate::geometry::bounds::lemma_grid_index(y, x, w);
    assert(y * w + x < w * h) by (nonlinear_arith)
        requires
            y * w + x < (y + 1) * w,
            y + 1 <= h,
            0 <= w,
    ;
    assert((y * w + x) * 4 + c < w * h * 4) by (nonlinear_arith)
        requires
            y * w + x < w * h,
            0 <= c < 4,
    ;
}

/// The state of a scan that has looked at every row above `y` and at the
/// first `x` pixels of row `y`: with no bounds yet, none of those pixels is
/// non-transparent; with bounds, they are the inclusive corners of the
/// smallest box around the non-transparent pixels looked at.
spec fn scanned(image: &RgbaImage, min_max: Option<(Point2<u32>, Point2<u32>)>, y: int, x: int) -> bool {
    match min_max {
        None => forall|px: int, py: int|
            #[trigger] image.non_transparent(px, py) ==> !(py < y || (py == y && px < x)),
        Some((min, max)) => {
            &&& forall|px: int, py: int|
                #[trigger] image.non_transparent(px, py) && (py < y || (py == y && px < x))
                    ==> min.x <= px <= max.x && min.y <= py <= max.y
            &&& exists|py: int| #[trigger] image.non_transparent(min.x as int, py)
            &&& exists|py: int| #[trigger] image.non_transparent(max.x as int, py)
            &&& exists|px: int| #[trigger] image.non_transparent(px, min.y as int)
            &&& exists|px: int| #[trigger] image.non_transparent(px, max.y as int)
        },
    }
}

/// The bounds after looking at pixel `(x, y)`, which is non-transparent.
spec fn grow(min_max: Option<(Point2<u32>, Point2<u32>)>, x: u32, y: u32) -> Option<
    (Point2<u32>, Point2<u32>),
> {
    match min_max {
        None => Some((Point2 { x, y }, Point2 { x, y })),
        Some((min, max)) => Some(
            (
                Point2 { x: if x < min.x { x } else { min.x }, y: if y < min.y { y } else { min.y } },
                Point2 { x: if x > max.x { x } else { max.x }, y: if y > max.y { y } else { max.y } },
            ),
        ),
    }
}

/// Looking at one more pixel keeps the scan state.
proof fn lemma_scan_step(
    image: &RgbaImage,
    min_max: Option<(Point2<u32>, Point2<u32>)>,
    x: u32,
    y: u32,
)
    requires
        image.wf(),
        x < image.width,
        y < image.height,
        scanned(image, min_max, y as int, x as int),
    ensures
        image.non_transparent(x as int, y as int) ==> scanned(
            image,
            grow(min_max, x, y),
            y as int,
            x + 1,
        ),
        !image.non_transparent(x as int, y as int) ==> scanned(image, min_max, y as int, x + 1),
{
    if image.non_transparent(x as int, y as int) {
        let next = grow(min_max, x, y);
        match min_max {
            None => {
                assert forall|px: int, py: int|
                    #[trigger] image.non_transparent(px, py) && (py < y || (py == y && px < x
                        + 1)) implies px == x && py == y by {
                }
                let (nmin, nmax) = next.unwrap();
                assert(image.non_transparent(nmin.x as int, y as int));
                assert(image.non_transparent(nmax.x as int, y as int));
                assert(image.non_transparent(x as int, nmin.y as int));
                assert(image.non_transparent(x as int, nmax.y as int));
                assert(scanned(image, next, y as int, x + 1));
            },
            Some((min, max)) => {
                let (nmin, nmax) = next.unwrap();
                assert forall|px: int, py: int|
                    #[trigger] image.non_transparent(px, py) && (py < y || (py == y && px < x
                        + 1)) implies nmin.x <= px <= nmax.x && nmin.y <= py <= nmax.y by {
                    if !(px == x && py == y) {
                        assert(min.x <= px <= max.x && min.y <= py <= max.y);
                    }
                }
                if x < min.x {
                    assert(image.non_transparent(nmin.x as int, y as int));
                } else {
                    let w = choose|py: int| #[trigger] image.non_transparent(min.x as int, py);
                    assert(image.non_transparent(nmin.x as int, w));
                }
                if x > max.x {
                    assert(image.non_transparent(nmax.x as int, y as int));
                } else {
                    let w = choose|py: int| #[trigger] image.non_transparent(max.x as int, py);
                    assert(image.non_transparent(nmax.x as int, w));
                }
                if y < min.y {
                    assert(image.non_transparent(x as int, nmin.y as int));
                } else {
                    let w = choose|px: int| #[trigger] image.non_transparent(px, min.y as int);
                    assert(image.non_transparent(w, nmin.y as int));
                }
                if y > max.y {
                    assert(image.non_transparent(x as int, nmax.y as int));
                } else {
                    let w = choose|px: int| #[trigger] image.non_transparent(px, max.y as int);
                    assert(image.non_transparent(w, nmax.y as int));
                }
                assert(scanned(image, next, y as int, x + 1));
            },
        }
    }
}

/// Return the min and max (inclusive) pixels of a 2D bounding box around any
/// non-transparent content in the image, or nothing when every pixel is fully
/// transparent.
pub fn non_transparent_bounds(image: &RgbaImage) -> (r: Option<(Point2<u32>, Point2<u32>)>)
    requires
        image.wf(),
    ensures
        match r {
            None => !image.has_non_transparent(),
            Some((min, max)) => image.is_non_transparent_bounds(min, max),
        },
{
    let mut min_max: Option<(Point2<u32>, Point2<u32>)> = None;
    let mut y: u32 = 0;
    while y < image.height
        invariant
            image.wf(),
            y <= image.height,
            scanned(image, min_max, y as int, 0),
        decreases image.height - y,
    {
        let mut x: u32 = 0;
        while x < image.width
            invariant
                image.wf(),
                y < image.height,
                x <= image.width,
                scanned(image, min_max, y as int, x as int),
            decreases image.width - x,
        {
            proof {
                lemma_channel_index_in_buffer(image, x as int, y as int, 3);
            }
            let index = ((y as usize) * (image.width as usize) + (x as usize)) * 4 + 3;
            proof {
                lemma_scan_step(image, min_max, x, y);
            }
            let ghost before = min_max;
            if image.data[index] != 0 {
                assert(image.non_transparent(x as int, y as int));
                min_max =
                    match min_max {
                        None => Some((Point2::new(x, y), Point2::new(x, y))),
                        Some((min, max)) => {
                            let new_min = Point2::new(min.x.min(x), min.y.min(y));
                            let new_max = Point2::new(max.x.max(x), max.y.max(y));
                            Some((new_min, new_max))
                        },
                    };
                assert(min_max == grow(before, x, y));
            }
            x = x + 1;
        }
        assert(scanned(image, min_max, y + 1, 0));
        y = y + 1;
    }
    assert(scanned(image, min_max, image.height as int, 0));
    min_max
}

/// Copies the `width` by `height` part of `image` whose top-left pixel is
/// `(x, y)` into an image of its own, with `image::imageops::crop_imm`
/// followed by `SubImage::to_image`.
///
/// The contract claims what the source of `crop_imm` and `to_image` shows for a
/// region that lies inside the image (so that `crop_imm` clamps nothing): the
/// result has the requested width and height, and its pixel `(i, j)` is the
/// source pixel `(x + i, y + j)`.
#[verifier::external_body]
fn crop_imm_to_image(image: &RgbaImage, x: u32, y: u32, width: u32, height: u32) -> (r:
    RgbaImage)
    requires
        image.wf(),
        x + width <= image.width,
        y + height <= image.height,
    ensures
        r.is_crop_of(*image, x as int, y as int, width as int, height as int),
{
    let buffer: image::ImageBuffer<image::Rgba<u8>, Vec<u8>> = image::ImageBuffer::from_raw(
        image.width,
        image.height,
        image.data.clone(),
    ).unwrap();
    let cropped = image::imageops::crop_imm(&buffer, x, y, width, height).to_image();
    RgbaImage { width: cropped.width(), height: cropped.height(), data: cropped.into_raw() }
}

/// Crop transparent edges from the image: the result is the part of the image
/// inside the smallest box around its non-transparent pixels, and an image
/// whose pixels are all fully transparent gives `Error::ZeroAreaImage`.
pub fn crop_to_non_transparent(image: &RgbaImage) -> (r: Result<RgbaImage, Error>)
    requires
        image.wf(),
    ensures
        r is Err <==> !image.has_non_transparent(),
        r matches Err(e) ==> e == Error::ZeroAreaImage,
        r matches Ok(cropped) ==> exists|min: Point2<u32>, max: Point2<u32>|
            #[trigger] image.is_non_transparent_bounds(min, max) && cropped.is_crop_of(
                *image,
                min.x as int,
                min.y as int,
                max.x - min.x + 1,
                max.y - min.y + 1,
            ),
{
    let (crop_bounds_min, crop_bounds_max) = match non_transparent_bounds(image) {
        Some(bounds) => bounds,
        None => return Err(Error::ZeroAreaImage),
    };
    proof {
        let wx = choose|py: int| #[trigger] image.non_transparent(crop_bounds_max.x as int, py);
        let wy = choose|px: int| #[trigger] image.non_transparent(px, crop_bounds_max.y as int);
        assert(image.non_transparent(crop_bounds_max.x as int, wx));
        assert(image.non_transparent(wy, crop_bounds_max.y as int));
        assert(image.has_non_transparent());
    }
    let crop_bounds_diag = crate::geometry::point::Vector2::new(
        crop_bounds_max.x - crop_bounds_min.x,
        crop_bounds_max.y - crop_bounds_min.y,
    );
    let cropped = crop_imm_to_image(
        image,
        crop_bounds_min.x,
        crop_bounds_min.y,
        crop_bounds_diag.x + 1,
        crop_bounds_diag.y + 1,
    );
    assert(image.is_non_transparent_bounds(crop_bounds_min, crop_bounds_max));
    Ok(cropped)
}

/// The inclusive corners of the smallest box around the non-transparent pixels
/// are unique.
pub proof fn lemma_non_transparent_bounds_unique(
    image: &RgbaImage,
    min1: Point2<u32>,
    max1: Point2<u32>,
    min2: Point2<u32>,
    max2: Point2<u32>,
)
    requires
        image.is_non_transparent_bounds(min1, max1),
        image.is_non_transparent_bounds(min2, max2),
    ensures
        min1 == min2,
        max1 == max2,
{
    let a = choose|py: int| #[trigger] image.non_transparent(min1.x as int, py);
    let b = choose|py: int| #[trigger] image.non_transparent(min2.x as int, py);
    let c = choose|py: int| #[trigger] image.non_transparent(max1.x as int, py);
    let d = choose|py: int| #[trigger] image.non_transparent(max2.x as int, py);
    let e = choose|px: int| #[trigger] image.non_transparent(px, min1.y as int);
    let f = choose|px: int| #[trigger] image.non_transparent(px, min2.y as int);
    let g = choose|px: int| #[trigger] image.non_transparent(px, max1.y as int);
    let h = choose|px: int| #[trigger] image.non_transparent(px, max2.y as int);
    assert(image.non_transparent(min1.x as int, a));
    assert(image.non_transparent(min2.x as int, b));
    assert(image.non_transparent(max1.x as int, c));
    assert(image.non_transparent(max2.x as int, d));
    assert(image.non_transparent(e, min1.y as int));
    assert(image.non_transparent(f, min2.y as int));
    assert(image.non_transparent(g, max1.y as int));
    assert(image.non_transparent(h, max2.y as int));
}

/// Cropping to the non-transparent content keeps every non-transparent pixel:
/// the source pixel `(x, y)` reappears, with all four channels, at its offset
/// from the box's minimum corner.
pub proof fn lemma_crop_keeps_non_transparent(
    image: &RgbaImage,
    cropped: &RgbaImage,
    min: Point2<u32>,
    max: Point2<u32>,
    x: int,
    y: int,
    c: int,
)
    requires
        image.is_non_transparent_bounds(min, max),
        cropped.is_crop_of(*image, min.x as int, min.y as int, max.x - min.x + 1, max.y - min.y + 1),
        image.non_transparent(x, y),
        0 <= c < 4,
    ensures
        0 <= x - min.x < cropped.width,
        0 <= y - min.y < cropped.height,
        cropped.data@[cropped.channel_index(x - min.x, y - min.y, c)] == image.data@[image.channel_index(x, y, c)],
{
    assert(cropped.data@[cropped.channel_index(x - min.x, y - min.y, c)] == image.data@[image.channel_index(
        min.x + (x - min.x),
        min.y + (y - min.y),
        c,
    )]);
}

} // verus!
