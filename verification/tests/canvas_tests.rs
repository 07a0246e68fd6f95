use tile_pyramid::canvas::Canvas;
use tile_pyramid::canvas::Rgb;
use tile_pyramid::canvas::pad_centered;

fn pixel(c: &Canvas, x: u32, y: u32) -> (u8, u8, u8, u8) {
    (
        c.read_chan(x, y, 0),
        c.read_chan(x, y, 1),
        c.read_chan(x, y, 2),
        c.read_chan(x, y, 3),
    )
}

#[test]
fn pad_centers_source_and_fills_background() {
    // A 2x1 source (red, green) centered on a 4x2 blue canvas: offsets are
    // (4-2)/2 = 1 and (2-1)/2 = 0.
    let src = Canvas {
        width: 2,
        height: 1,
        data: vec![255, 0, 0, 255, 0, 255, 0, 255],
    };
    let bg = Rgb { r: 0, g: 0, b: 255 };
    let padded = pad_centered(&src, 4, 2, bg);
    assert_eq!(padded.width, 4);
    assert_eq!(padded.height, 2);
    assert_eq!(pixel(&padded, 1, 0), (255, 0, 0, 255));
    assert_eq!(pixel(&padded, 2, 0), (0, 255, 0, 255));
    // Every pixel outside the centered placement is exactly the background
    // colour at full opacity, with no blending at the seam.
    for (x, y) in [(0u32, 0u32), (3, 0), (0, 1), (1, 1), (2, 1), (3, 1)] {
        assert_eq!(pixel(&padded, x, y), (0, 0, 255, 255));
    }
}

#[test]
fn pad_with_equal_size_changes_nothing() {
    let src = Canvas {
        width: 1,
        height: 2,
        data: vec![1, 2, 3, 4, 5, 6, 7, 8],
    };
    let bg = Rgb { r: 9, g: 9, b: 9 };
    let padded = pad_centered(&src, 1, 2, bg);
    assert_eq!(padded.data, vec![1, 2, 3, 4, 5, 6, 7, 8]);
}

#[test]
fn crop_reads_the_right_block() {
    // 3x2 canvas with distinct bytes; crop the 1x1 block at (2, 1).
    let data: Vec<u8> = (0..24).collect();
    let c = Canvas { width: 3, height: 2, data };
    let tile = c.crop(2, 1, 1);
    assert_eq!(tile.width, 1);
    assert_eq!(tile.height, 1);
    // Pixel (2, 1) starts at 4 * (1 * 3 + 2) = 20.
    assert_eq!(tile.data, vec![20, 21, 22, 23]);
}

#[test]
fn slice_yields_full_grid_of_whole_tiles() {
    // A 4x2 canvas with distinct bytes, tile size 2: exactly 2x1 tiles,
    // each 2x2, covering every pixel once.
    let data: Vec<u8> = (0..32).collect();
    let c = Canvas { width: 4, height: 2, data };
    let tiles = c.slice_tiles(2);
    assert_eq!(tiles.len(), 2);
    for (k, tile) in tiles.iter().enumerate() {
        assert_eq!(tile.width, 2);
        assert_eq!(tile.height, 2);
        let tx = k as u32; // tiles_y == 1, so the index is the grid column
        for y in 0..2u32 {
            for x in 0..2u32 {
                for ch in 0..4u32 {
                    assert_eq!(
                        tile.read_chan(x, y, ch),
                        c.read_chan(tx * 2 + x, y, ch)
                    );
                }
            }
        }
    }
}

#[test]
fn slice_single_tile_is_the_canvas() {
    let data: Vec<u8> = (0..16).collect();
    let c = Canvas { width: 2, height: 2, data: data.clone() };
    let tiles = c.slice_tiles(2);
    assert_eq!(tiles.len(), 1);
    assert_eq!(tiles[0].data, data);
}

#[test]
fn to_rgb_drops_alpha() {
    let c = Canvas {
        width: 2,
        height: 1,
        data: vec![10, 20, 30, 40, 50, 60, 70, 80],
    };
    assert_eq!(c.to_rgb(), vec![10, 20, 30, 50, 60, 70]);
}
