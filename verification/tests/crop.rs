use renderer::crop::{crop_to_non_transparent, non_transparent_bounds, Error, RgbaImage};
use renderer::geometry::point::Point2;

/// A `width` by `height` image whose pixel at `(x, y)` is
/// `(x, y, x + y, alpha(x, y))`.
fn image(width: u32, height: u32, alpha: impl Fn(u32, u32) -> u8) -> RgbaImage {
    let mut data = Vec::new();
    for y in 0..height {
        for x in 0..width {
            data.extend_from_slice(&[x as u8, y as u8, (x + y) as u8, alpha(x, y)]);
        }
    }
    RgbaImage { width, height, data }
}

#[test]
fn fully_transparent_image_has_no_bounds() {
    let img = image(5, 4, |_, _| 0);
    assert_eq!(non_transparent_bounds(&img), None);
    assert_eq!(crop_to_non_transparent(&img).err(), Some(Error::ZeroAreaImage));
}

#[test]
fn empty_image_has_no_bounds() {
    let img = image(0, 0, |_, _| 255);
    assert_eq!(non_transparent_bounds(&img), None);
    assert_eq!(crop_to_non_transparent(&img).err(), Some(Error::ZeroAreaImage));
}

#[test]
fn bounds_around_scattered_pixels() {
    let img = image(8, 6, |x, y| if (x, y) == (2, 4) || (x, y) == (5, 1) { 9 } else { 0 });
    assert_eq!(
        non_transparent_bounds(&img),
        Some((Point2::new(2, 1), Point2::new(5, 4)))
    );
}

#[test]
fn single_pixel_bounds() {
    let img = image(3, 3, |x, y| if (x, y) == (1, 2) { 1 } else { 0 });
    assert_eq!(
        non_transparent_bounds(&img),
        Some((Point2::new(1, 2), Point2::new(1, 2)))
    );
}

#[test]
fn crop_keeps_the_non_transparent_box() {
    let img = image(8, 6, |x, y| if (x, y) == (2, 4) || (x, y) == (5, 1) { 9 } else { 0 });
    let cropped = crop_to_non_transparent(&img).unwrap();
    assert_eq!(cropped.width, 4);
    assert_eq!(cropped.height, 4);
    assert_eq!(cropped.data.len(), 4 * 4 * 4);
    // The top-left pixel of the crop is the source pixel (2, 1).
    assert_eq!(&cropped.data[0..4], &[2, 1, 3, 0]);
    // The source pixel (5, 1) sits at (3, 0) in the crop.
    assert_eq!(&cropped.data[12..16], &[5, 1, 6, 9]);
    // The source pixel (2, 4) sits at (0, 3) in the crop.
    let i = (3 * 4) * 4;
    assert_eq!(&cropped.data[i..i + 4], &[2, 4, 6, 9]);
}

#[test]
fn crop_of_opaque_image_is_the_image() {
    let img = image(3, 2, |_, _| 255);
    let cropped = crop_to_non_transparent(&img).unwrap();
    assert_eq!(cropped.width, 3);
    assert_eq!(cropped.height, 2);
    assert_eq!(cropped.data, img.data);
}
