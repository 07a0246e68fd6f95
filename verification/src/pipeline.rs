//! The per-level tile pipeline: resample the source image (through the
//! `image` crate), center it on a background canvas whose side is an exact
//! multiple of the tile size, slice the full tile grid, and encode each tile
//! as JPEG.

use vstd::prelude::*;

verus! {

use crate::canvas::Canvas;
use crate::canvas::Rgb;
use crate::canvas::crop_seq;
use crate::canvas::pad_seq;
use crate::canvas::rgb_flat_spec;
use crate::zoom::max_dim;
use crate::zoom::pow2_u32;
use crate::zoom::scaled_dim;
use crate::zoom::scaled_dimensions;
use crate::zoom::tiles_at_level;
use vstd::arithmetic::power2::pow2;
use vstd::arithmetic::power2::lemma_pow2_pos;
use vstd::arithmetic::div_mod::lemma_div_by_multiple;
use vstd::arithmetic::div_mod::lemma_mod_bound;
use vstd::arithmetic::div_mod::lemma_mod_multiples_basic;
use vstd::arithmetic::div_mod::lemma_multiply_divide_lt;

/// What `image::imageops::resize` returns for a row-major RGBA buffer: a
/// pure function of the source pixels and the requested size.
pub uninterp spec fn resample_of(data: Seq<u8>, w: nat, h: nat, nw: nat, nh: nat) -> Seq<u8>;

/// What JPEG encoding returns for a row-major RGB buffer of the given size.
pub uninterp spec fn jpeg_of(rgb: Seq<u8>, w: nat, h: nat) -> Seq<u8>;

/// Relies on `image::imageops::resize` with `FilterType::Lanczos3`: the
/// result is an image of exactly `new_width x new_height` whose pixels are
/// determined by the source pixels and the requested size alone.
#[verifier::external_body]
fn resample_rgba(src: &Canvas, new_width: u32, new_height: u32) -> (r: Canvas)
    requires
        src.wf(),
        4 * new_width * new_height <= usize::MAX,
    ensures
        r.wf(),
        r.width == new_width,
        r.height == new_height,
        r.data@ == resample_of(
            src.data@,
            src.width as nat,
            src.height as nat,
            new_width as nat,
            new_height as nat,
        ),
{
    let buffer = image::RgbaImage::from_raw(src.width, src.height, src.data.clone()).expect(
        "the canvas buffer matches its dimensions",
    );
    let resized = image::imageops::resize(
        &buffer,
        new_width,
        new_height,
        image::imageops::FilterType::Lanczos3,
    );
    Canvas { width: new_width, height: new_height, data: resized.into_raw() }
}

/// Relies on `image::ImageBuffer::write_to` with `ImageFormat::Jpeg`: the
/// JPEG bytes depend on the RGB pixels and the dimensions alone, and
/// encoding an image within JPEG's size limits to a growable buffer does
/// not fail.
#[verifier::external_body]
fn encode_jpeg_rgb(rgb: &Vec<u8>, width: u32, height: u32) -> (r: Vec<u8>)
    requires
        rgb@.len() == 3 * width * height,
        1 <= width <= 65535,
        1 <= height <= 65535,
    ensures
        r@ == jpeg_of(rgb@, width as nat, height as nat),
{
    let buffer = image::RgbImage::from_raw(width, height, rgb.clone()).expect(
        "the tile buffer matches its dimensions",
    );
    let mut out: Vec<u8> = Vec::new();
    buffer.write_to(&mut std::io::Cursor::new(&mut out), image::ImageFormat::Jpeg).expect(
        "JPEG accepts any image within its size limits",
    );
    out
}

/// Relies on `uuid::Uuid::new_v4` and its hyphenated rendering: a freshly
/// generated random identifier of 36 ASCII characters; nothing else is
/// assumed of its value.
#[verifier::external_body]
pub(crate) fn fresh_layout_path() -> (r: String)
    ensures
        r@.len() == 36,
{
    uuid::Uuid::new_v4().to_string()
}

/// The side in pixels of the padded canvas of `level`: a `2^level`-tile
/// grid of `t`-pixel tiles.
pub open spec fn level_side(level: nat, t: nat) -> nat {
    pow2(level) * t
}

/// Every level canvas side is an exact multiple of the tile size, on both
/// axes, so the slicer's grid is exact with no partial edge tiles.
pub proof fn lemma_level_side_divisible(level: nat, t: nat)
    requires
        1 <= t,
    ensures
        level_side(level, t) % t == 0,
{
    lemma_mod_multiples_basic(pow2(level) as int, t as int);
}

/// The padded canvas of `level` as a buffer: the source image (`w x h`
/// RGBA bytes `img`), resampled to the level's scale and centered on a
/// square canvas of side [`level_side`] filled with `bg`.
pub open spec fn level_canvas_spec(
    img: Seq<u8>,
    w: nat,
    h: nat,
    level: nat,
    t: nat,
    bg: Rgb,
) -> Seq<u8> {
    let m = max_dim(w, h);
    let nw = scaled_dim(w, level, t, m);
    let nh = scaled_dim(h, level, t, m);
    pad_seq(
        resample_of(img, w, h, nw, nh),
        nw as int,
        nh as int,
        level_side(level, t) as int,
        level_side(level, t) as int,
        bg,
    )
}

/// The JPEG bytes of the tile at grid cell `(tx, ty)` of `level`: the
/// `t x t` block of the level canvas at `(tx * t, ty * t)`, alpha dropped,
/// JPEG-encoded.
pub open spec fn level_tile_jpeg_spec(
    img: Seq<u8>,
    w: nat,
    h: nat,
    level: nat,
    t: nat,
    bg: Rgb,
    tx: int,
    ty: int,
) -> Seq<u8> {
    let side = level_side(level, t) as int;
    jpeg_of(
        rgb_flat_spec(
            crop_seq(level_canvas_spec(img, w, h, level, t, bg), side, tx * t, ty * t, t as int),
            t as int,
            t as int,
        ),
        t,
        t,
    )
}

/// One encoded tile: its grid cell within its level, and its JPEG bytes.
pub struct EncodedTile {
    pub tile_x: u32,
    pub tile_y: u32,
    pub jpeg: Vec<u8>,
}

/// Builds every tile of one zoom level, in upload order (grid column
/// `tile_x` outermost, `tile_y` within it). The level's canvas side is an
/// exact multiple of the tile size by construction, so the grid is exact:
/// `4^level` tiles, each `tile_size` pixels square.
pub fn build_level_tiles(img: &Canvas, level: u32, tile_size: u32, bg: Rgb) -> (tiles: Vec<
    EncodedTile,
>)
    requires
        img.wf(),
        1 <= img.width,
        1 <= img.height,
        1 <= tile_size <= 65535,
        level <= 15,
        pow2(level as nat) * tile_size <= u32::MAX,
        4 * (pow2(level as nat) * tile_size) * (pow2(level as nat) * tile_size) <= usize::MAX,
    ensures
        tiles.len() == tiles_at_level(level as nat),
        forall|k: int|
            0 <= k < tiles.len() ==> {
                let n = pow2(level as nat) as int;
                &&& (#[trigger] tiles[k]).tile_x == k / n
                &&& tiles[k].tile_y == k % n
                &&& tiles[k].jpeg@ == level_tile_jpeg_spec(
                    img.data@,
                    img.width as nat,
                    img.height as nat,
                    level as nat,
                    tile_size as nat,
                    bg,
                    k / n,
                    k % n,
                )
            },
{
    let n: u32 = pow2_u32(level);
    let side: u32 = n * tile_size;
    proof {
        lemma_pow2_pos(level as nat);
        assert(1 <= side) by (nonlinear_arith)
            requires
                side == n * tile_size,
                1 <= n,
                1 <= tile_size,
        ;
    }
    let (new_w, new_h) = scaled_dimensions(level, img.width, img.height, tile_size);
    proof {
        assert(4 * (new_w as int) * (new_h as int) <= 4 * (side as int) * (side as int))
            by (nonlinear_arith)
            requires
                0 <= new_w <= side,
                0 <= new_h <= side,
        ;
    }
    let resampled = resample_rgba(img, new_w, new_h);
    let padded = crate::canvas::pad_centered(&resampled, side, side, bg);
    proof {
        lemma_mod_multiples_basic(n as int, tile_size as int);
        lemma_div_by_multiple(n as int, tile_size as int);
        assert(padded.data@ == level_canvas_spec(
            img.data@,
            img.width as nat,
            img.height as nat,
            level as nat,
            tile_size as nat,
            bg,
        ));
    }
    let tile_canvases = padded.slice_tiles(tile_size);
    proof {
        assert(tile_canvases.len() == tiles_at_level(level as nat)) by (nonlinear_arith)
            requires
                tile_canvases.len() == (side as int / tile_size as int) * (side as int
                    / tile_size as int),
                side as int / tile_size as int == n as int,
                n == pow2(level as nat),
                tiles_at_level(level as nat) == pow2(level as nat) * pow2(level as nat),
        ;
    }
    let mut tiles: Vec<EncodedTile> = Vec::new();
    let mut k: usize = 0;
    while k < tile_canvases.len()
        invariant
            k <= tile_canvases.len(),
            1 <= tile_size <= 65535,
            1 <= n,
            n == pow2(level as nat),
            side == n * tile_size,
            tile_canvases.len() == tiles_at_level(level as nat),
            tile_canvases.len() == n as int * n as int,
            padded.wf(),
            padded.width == side,
            padded.height == side,
            padded.data@ == level_canvas_spec(
                img.data@,
                img.width as nat,
                img.height as nat,
                level as nat,
                tile_size as nat,
                bg,
            ),
            forall|j: int|
                0 <= j < tile_canvases.len() ==> {
                    let t_x = j / n as int;
                    let t_y = j % n as int;
                    &&& (#[trigger] tile_canvases[j]).wf()
                    &&& tile_canvases[j].width == tile_size
                    &&& tile_canvases[j].height == tile_size
                    &&& tile_canvases[j].data@ == crop_seq(
                        padded.data@,
                        side as int,
                        t_x * tile_size,
                        t_y * tile_size,
                        tile_size as int,
                    )
                },
            tiles.len() == k,
            forall|j: int|
                0 <= j < k ==> {
                    let nn = pow2(level as nat) as int;
                    &&& (#[trigger] tiles[j]).tile_x == j / nn
                    &&& tiles[j].tile_y == j % nn
                    &&& tiles[j].jpeg@ == level_tile_jpeg_spec(
                        img.data@,
                        img.width as nat,
                        img.height as nat,
                        level as nat,
                        tile_size as nat,
                        bg,
                        j / nn,
                        j % nn,
                    )
                },
        decreases tile_canvases.len() - k,
    {
        proof {
            lemma_multiply_divide_lt(k as int, n as int, n as int);
            lemma_mod_bound(k as int, n as int);
        }
        let tile_x: u32 = (k / (n as usize)) as u32;
        let tile_y: u32 = (k % (n as usize)) as u32;
        let rgb = tile_canvases[k].to_rgb();
        let jpeg = encode_jpeg_rgb(&rgb, tile_size, tile_size);
        tiles.push(EncodedTile { tile_x, tile_y, jpeg });
        k = k + 1;
    }
    tiles
}

} // verus!
