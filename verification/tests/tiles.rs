use renderer::geometry::bounds::Bounds2;
use renderer::geometry::point::Point2;
use renderer::integrator::{tile_count, tile_sample_bounds, Tile, TILE_SIZE};

fn bounds(x0: i32, y0: i32, x1: i32, y1: i32) -> Bounds2<i32> {
    Bounds2::new(Point2::new(x0, y0), Point2::new(x1, y1))
}

#[test]
fn span_covers_bounds_row_major() {
    let image = bounds(-2, -2, 38, 18);
    let tiles = Tile::span_image_sample_bounds(&image);
    assert_eq!(TILE_SIZE, 16);
    assert_eq!(tiles.len(), 6);
    assert_eq!(tiles[0].sample_bounds, bounds(-2, -2, 14, 14));
    assert_eq!(tiles[1].sample_bounds, bounds(14, -2, 30, 14));
    assert_eq!(tiles[2].sample_bounds, bounds(30, -2, 38, 14));
    assert_eq!(tiles[3].sample_bounds, bounds(-2, 14, 14, 18));
    assert_eq!(tiles[4].sample_bounds, bounds(14, 14, 30, 18));
    assert_eq!(tiles[5].sample_bounds, bounds(30, 14, 38, 18));
    for (i, tile) in tiles.iter().enumerate() {
        assert_eq!(tile.row_major_index, i);
    }
    let total: i32 = tiles.iter().map(|t| t.sample_bounds.area()).sum();
    assert_eq!(total, image.area());
}

#[test]
fn span_of_exact_multiple() {
    let tiles = Tile::from_image_sample_bounds(&bounds(0, 0, 32, 16));
    assert_eq!(tiles.len(), 2);
    assert_eq!(tiles[0].sample_bounds, bounds(0, 0, 16, 16));
    assert_eq!(tiles[1].sample_bounds, bounds(16, 0, 32, 16));
}

#[test]
fn span_of_empty_bounds_has_no_tiles() {
    assert!(Tile::span_image_sample_bounds(&bounds(3, 3, 3, 50)).is_empty());
    assert!(Tile::span_image_sample_bounds(&bounds(3, 3, 50, 3)).is_empty());
}

#[test]
fn every_point_in_one_tile() {
    let image = bounds(-7, 3, 29, 40);
    let tiles = Tile::span_image_sample_bounds(&image);
    for p in image.range() {
        let holding = tiles
            .iter()
            .filter(|t| {
                let b = t.sample_bounds;
                b.min.x <= p.x && p.x < b.max.x && b.min.y <= p.y && p.y < b.max.y
            })
            .count();
        assert_eq!(holding, 1);
    }
}

#[test]
fn tile_bounds_are_clamped() {
    let image = bounds(0, 0, 20, 20);
    assert_eq!(tile_sample_bounds(&image, 1, 1), bounds(16, 16, 20, 20));
    assert_eq!(tile_sample_bounds(&image, 0, 1), bounds(0, 16, 16, 20));
    assert_eq!(Tile::tile_sample_bounds(&image, 1, 0), bounds(16, 0, 20, 16));
}

#[test]
fn tile_count_rounds_up() {
    assert_eq!(tile_count(&bounds(0, 0, 33, 16)), (3, 1));
    assert_eq!(tile_count(&bounds(-5, -5, 11, 12)), (1, 2));
    assert_eq!(tile_count(&bounds(4, 4, 4, 30)), (0, 2));
    assert_eq!(tile_count(&bounds(10, 0, 2, 16)), (0, 1));
}

#[test]
fn tile_count_matches_span() {
    for b in [
        bounds(0, 0, 33, 16),
        bounds(-5, -5, 11, 12),
        bounds(4, 4, 4, 30),
        bounds(-2, -2, 802, 802),
    ] {
        let (columns, rows) = tile_count(&b);
        assert_eq!(Tile::span_image_sample_bounds(&b).len(), columns * rows);
    }
}

#[test]
fn tiles_stay_inside_and_small() {
    let image = bounds(-3, 5, 50, 37);
    for tile in Tile::span_image_sample_bounds(&image) {
        let t = tile.sample_bounds;
        assert!(image.min.x <= t.min.x && t.min.x < t.max.x && t.max.x <= image.max.x);
        assert!(image.min.y <= t.min.y && t.min.y < t.max.y && t.max.y <= image.max.y);
        assert!(t.max.x - t.min.x <= 16 && t.max.y - t.min.y <= 16);
    }
}
