use tile_pyramid::canvas::Canvas;
use tile_pyramid::canvas::Rgb;
use tile_pyramid::pipeline::build_level_tiles;

fn solid(width: u32, height: u32, r: u8, g: u8, b: u8) -> Canvas {
    let mut data = Vec::new();
    for _ in 0..width * height {
        data.extend_from_slice(&[r, g, b, 255]);
    }
    Canvas { width, height, data }
}

#[test]
fn one_level_yields_four_to_the_level_tiles() {
    let img = solid(4, 4, 200, 10, 10);
    let bg = Rgb { r: 0, g: 0, b: 0 };
    let tiles = build_level_tiles(&img, 1, 2, bg);
    assert_eq!(tiles.len(), 4);
    let coords: Vec<(u32, u32)> = tiles.iter().map(|t| (t.tile_x, t.tile_y)).collect();
    assert_eq!(coords, vec![(0, 0), (0, 1), (1, 0), (1, 1)]);
}

#[test]
fn tiles_are_real_jpegs_of_the_tile_size() {
    let img = solid(4, 4, 200, 10, 10);
    let bg = Rgb { r: 0, g: 0, b: 0 };
    let tiles = build_level_tiles(&img, 1, 2, bg);
    for tile in &tiles {
        let decoded = image::load_from_memory(&tile.jpeg).expect("tile must decode as an image");
        let rgb = decoded.to_rgb8();
        assert_eq!(rgb.dimensions(), (2, 2));
        // JPEG is lossy, but a solid colour survives closely.
        let p = rgb.get_pixel(0, 0);
        assert!(p[0] > 150 && p[1] < 60 && p[2] < 60);
    }
}

#[test]
fn resampling_preserves_the_picture_layout() {
    // Left half red, right half blue, shrunk to one 2x2 tile at level 0:
    // the left column stays red-dominant and the right column
    // blue-dominant, so the tile really is a resampled rendition.
    let mut data = Vec::new();
    for _y in 0..4u32 {
        for x in 0..4u32 {
            if x < 2 {
                data.extend_from_slice(&[255, 0, 0, 255]);
            } else {
                data.extend_from_slice(&[0, 0, 255, 255]);
            }
        }
    }
    let img = Canvas { width: 4, height: 4, data };
    let bg = Rgb { r: 0, g: 255, b: 0 };
    let tiles = build_level_tiles(&img, 0, 2, bg);
    assert_eq!(tiles.len(), 1);
    assert_eq!((tiles[0].tile_x, tiles[0].tile_y), (0, 0));
    let rgb = image::load_from_memory(&tiles[0].jpeg).unwrap().to_rgb8();
    assert_eq!(rgb.dimensions(), (2, 2));
    let left = rgb.get_pixel(0, 0);
    let right = rgb.get_pixel(1, 0);
    assert!(left[0] > right[0]);
    assert!(right[2] > left[2]);
}

#[test]
fn thin_image_is_padded_with_the_background() {
    // A 4x1 white strip at level 0 with tile size 2 gives a 2x2 canvas.
    // The strip scales to 2 pixels wide and floor(1 * 2/4) = 0 rows high,
    // so the whole tile is the magenta background.
    let img = solid(4, 1, 255, 255, 255);
    let bg = Rgb { r: 255, g: 0, b: 255 };
    let tiles = build_level_tiles(&img, 0, 2, bg);
    assert_eq!(tiles.len(), 1);
    let rgb = image::load_from_memory(&tiles[0].jpeg).unwrap().to_rgb8();
    assert_eq!(rgb.dimensions(), (2, 2));
    let p = rgb.get_pixel(0, 1);
    assert!(p[0] > 200 && p[2] > 200);
}
