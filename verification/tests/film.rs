use renderer::film::tile::FilmTile;
use renderer::film::Film;
use renderer::geometry::bounds::Bounds2;
use renderer::geometry::point::{Point2, Vector2};

#[test]
fn film_covers_resolution() {
    let film = Film::new(4, 3, 0u8);
    assert_eq!(film.resolution, Vector2::new(4, 3));
    assert_eq!(
        film.pixel_bounds,
        Bounds2::new(Point2::new(0, 0), Point2::new(4, 3))
    );
    assert_eq!(film.pixels.len(), 12);
    assert!(film.pixels.iter().all(|&p| p == 0));
}

#[test]
fn tile_has_one_pixel_per_point() {
    let tile = FilmTile::new(Bounds2::new(Point2::new(2, 5), Point2::new(5, 7)), 7u32);
    assert_eq!(tile.pixels.len(), 6);
    assert!(tile.pixels.iter().all(|&p| p == 7));
}

#[test]
fn tile_with_negative_area_is_empty() {
    let tile = FilmTile::new(Bounds2::new(Point2::new(5, 0), Point2::new(2, 4)), 1i64);
    assert!(tile.pixels.is_empty());
}

#[test]
fn pixel_index_is_row_major() {
    let tile = FilmTile::new(Bounds2::new(Point2::new(2, 5), Point2::new(5, 7)), 0u32);
    assert_eq!(tile.pixel_index(&Point2::new(2, 5)), 0);
    assert_eq!(tile.pixel_index(&Point2::new(4, 5)), 2);
    assert_eq!(tile.pixel_index(&Point2::new(2, 6)), 3);
    assert_eq!(tile.pixel_index(&Point2::new(4, 6)), 5);
}

#[test]
fn pixel_at_finds_pixels_inside_the_tile_only() {
    let mut tile = FilmTile::new(Bounds2::new(Point2::new(2, 5), Point2::new(5, 7)), 0u32);
    for (i, p) in tile.pixels.iter_mut().enumerate() {
        *p = i as u32 * 10;
    }
    assert_eq!(tile.pixel_at(Point2::new(3, 6)), Some(&40));
    assert_eq!(tile.pixel_at(Point2::new(2, 5)), Some(&0));
    assert_eq!(tile.pixel_at(Point2::new(5, 5)), None);
    assert_eq!(tile.pixel_at(Point2::new(1, 6)), None);
    assert_eq!(tile.pixel_at(Point2::new(3, 7)), None);
    assert_eq!(tile.pixel_at(Point2::new(3, 4)), None);
}
