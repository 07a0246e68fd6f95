//! Row-major RGBA pixel canvases, and the padding and slicing steps of the
//! pyramid pipeline.
//!
//! A level's canvas must be an exact multiple of the tile size on each axis,
//! so the resampled image is centered on a background-filled canvas
//! (overlaying, not blending), and the result is cut into square tiles with
//! no partial edge tiles.

use vstd::prelude::*;

verus! {

use vstd::arithmetic::div_mod::lemma_div_pos_is_pos;
use vstd::arithmetic::div_mod::lemma_fundamental_div_mod;
use vstd::arithmetic::div_mod::lemma_fundamental_div_mod_converse_div;
use vstd::arithmetic::div_mod::lemma_fundamental_div_mod_converse_mod;
use vstd::arithmetic::div_mod::lemma_mod_bound;
use vstd::arithmetic::div_mod::lemma_multiply_divide_lt;

/// A background colour: three channels, full opacity implied.
#[derive(Clone, Copy, PartialEq, Eq, Structural, Debug)]
pub struct Rgb {
    pub r: u8,
    pub g: u8,
    pub b: u8,
}

/// Channel `c` of the fully opaque RGBA pixel that paints `bg`.
pub open spec fn bg_chan(bg: Rgb, c: int) -> u8 {
    if c == 0 {
        bg.r
    } else if c == 1 {
        bg.g
    } else if c == 2 {
        bg.b
    } else {
        255u8
    }
}

/// Byte of channel `c` of the pixel at `(x, y)` in a row-major buffer of
/// `chans`-channel pixels, `w` pixels per row.
pub open spec fn chan_at(data: Seq<u8>, chans: int, w: int, x: int, y: int, c: int) -> u8 {
    data[chans * (y * w + x) + c]
}

/// A decoded raster image or intermediate canvas: row-major RGBA bytes.
pub struct Canvas {
    pub width: u32,
    pub height: u32,
    pub data: Vec<u8>,
}

/// A pixel's four channel bytes start at `chans * (y * w + x)` and the
/// whole pixel lies inside the buffer.
pub proof fn lemma_pixel_slot(chans: int, w: int, h: int, x: int, y: int)
    requires
        1 <= chans,
        0 <= x < w,
        0 <= y < h,
    ensures
        0 <= chans * (y * w + x),
        chans * (y * w + x) + chans <= chans * w * h,
{
    assert(0 <= chans * (y * w + x) && chans * (y * w + x) + chans <= chans * w * h)
        by (nonlinear_arith)
        requires
            1 <= chans,
            0 <= x < w,
            0 <= y < h,
    ;
}

/// A flat index `i` below `chans * w * h` decodes to the channel `i % chans`
/// of the pixel at `((i / chans) % w, (i / chans) / w)`, and that decoding
/// inverts the row-major index formula.
pub proof fn lemma_flat_index_decode(chans: int, w: int, h: int, i: int)
    requires
        1 <= chans,
        1 <= w,
        0 <= i < chans * w * h,
    ensures
        0 <= i % chans < chans,
        0 <= (i / chans) % w < w,
        0 <= (i / chans) / w < h,
        i == chans * (((i / chans) / w) * w + (i / chans) % w) + i % chans,
{
    assert(chans * w * h == chans * (w * h)) by (nonlinear_arith);
    lemma_multiply_divide_lt(i, chans, w * h);
    lemma_div_pos_is_pos(i, chans);
    lemma_multiply_divide_lt(i / chans, w, h);
    lemma_div_pos_is_pos(i / chans, w);
    lemma_mod_bound(i, chans);
    lemma_mod_bound(i / chans, w);
    lemma_fundamental_div_mod(i, chans);
    lemma_fundamental_div_mod(i / chans, w);
    assert(i == chans * (((i / chans) / w) * w + (i / chans) % w) + i % chans)
        by (nonlinear_arith)
        requires
            i == chans * (i / chans) + i % chans,
            i / chans == w * ((i / chans) / w) + (i / chans) % w,
    ;
}

/// The row-major index formula lands inside the buffer and decodes back to
/// the coordinates it was built from.
pub proof fn lemma_flat_index_encode(chans: int, w: int, h: int, x: int, y: int, c: int)
    requires
        1 <= chans,
        1 <= w,
        0 <= x < w,
        0 <= y < h,
        0 <= c < chans,
    ensures
        0 <= chans * (y * w + x) + c < chans * w * h,
        (chans * (y * w + x) + c) % chans == c,
        ((chans * (y * w + x) + c) / chans) % w == x,
        ((chans * (y * w + x) + c) / chans) / w == y,
{
    let p = y * w + x;
    let i = chans * p + c;
    assert(0 <= p && 0 <= i && i < chans * w * h && i == p * chans + c) by (nonlinear_arith)
        requires
            1 <= chans,
            0 <= x < w,
            0 <= y < h,
            0 <= c < chans,
            p == y * w + x,
            i == chans * p + c,
    ;
    lemma_fundamental_div_mod_converse_mod(i, chans, p, c);
    lemma_fundamental_div_mod_converse_div(i, chans, p, c);
    lemma_fundamental_div_mod_converse_mod(p, w, y, x);
    lemma_fundamental_div_mod_converse_div(p, w, y, x);
}

impl Canvas {
    /// The buffer holds exactly four bytes per pixel.
    pub open spec fn wf(self) -> bool {
        self.data@.len() == 4 * self.width * self.height
    }

    /// Channel `c` (`0..4`: red, green, blue, alpha) of the pixel at `(x, y)`.
    pub open spec fn chan(self, x: int, y: int, c: int) -> u8 {
        chan_at(self.data@, 4, self.width as int, x, y, c)
    }

    /// Reads one channel byte of one pixel.
    pub fn read_chan(&self, x: u32, y: u32, c: u32) -> (b: u8)
        requires
            self.wf(),
            x < self.width,
            y < self.height,
            c < 4,
        ensures
            b == self.chan(x as int, y as int, c as int),
    {
        let buf_len: usize = self.data.len();
        proof {
            lemma_pixel_slot(4, self.width as int, self.height as int, x as int, y as int);
            assert(buf_len == 4 * self.width * self.height);
        }
        let idx: usize = 4 * ((y as usize) * (self.width as usize) + (x as usize)) + (c as usize);
        self.data[idx]
    }
}

/// The buffer of a `out_w x out_h` canvas painted with `bg` and the `src`
/// buffer (of size `sw x sh`) overlaid centered on it: the source is placed
/// at the floored half of the spare room on each axis, and every pixel
/// outside it keeps the background colour at full opacity.
pub open spec fn pad_seq(
    src: Seq<u8>,
    sw: int,
    sh: int,
    out_w: int,
    out_h: int,
    bg: Rgb,
) -> Seq<u8> {
    Seq::new(
        (4 * out_w * out_h) as nat,
        |i: int| padded_chan(src, sw, sh, out_w, out_h, bg, (i / 4) % out_w, (i / 4) / out_w, i % 4),
    )
}

/// Channel `c` of the pixel at `(x, y)` of the padded canvas described in
/// [`pad_seq`].
pub open spec fn padded_chan(
    src: Seq<u8>,
    sw: int,
    sh: int,
    out_w: int,
    out_h: int,
    bg: Rgb,
    x: int,
    y: int,
    c: int,
) -> u8 {
    let x_off = (out_w - sw) / 2;
    let y_off = (out_h - sh) / 2;
    if x_off <= x < x_off + sw && y_off <= y < y_off + sh {
        chan_at(src, 4, sw, x - x_off, y - y_off, c)
    } else {
        bg_chan(bg, c)
    }
}

/// Reading the padded buffer pixel-wise gives exactly [`padded_chan`].
pub proof fn lemma_pad_seq_chan(
    src: Seq<u8>,
    sw: int,
    sh: int,
    out_w: int,
    out_h: int,
    bg: Rgb,
    x: int,
    y: int,
    c: int,
)
    requires
        1 <= out_w,
        0 <= x < out_w,
        0 <= y < out_h,
        0 <= c < 4,
    ensures
        chan_at(pad_seq(src, sw, sh, out_w, out_h, bg), 4, out_w, x, y, c) == padded_chan(
            src,
            sw,
            sh,
            out_w,
            out_h,
            bg,
            x,
            y,
            c,
        ),
{
    lemma_flat_index_encode(4, out_w, out_h, x, y, c);
}

/// Every pixel of the padded canvas that lies outside the centered placement
/// of the source equals the configured background colour exactly, at full
/// opacity; every pixel inside it is the source pixel, overlaid without
/// blending.
pub proof fn lemma_padding_is_background(
    src: Seq<u8>,
    sw: int,
    sh: int,
    out_w: int,
    out_h: int,
    bg: Rgb,
)
    requires
        1 <= out_w,
    ensures
        forall|x: int, y: int, c: int|
            0 <= x < out_w && 0 <= y < out_h && 0 <= c < 4 && !((out_w - sw) / 2 <= x < (out_w - sw)
                / 2 + sw && (out_h - sh) / 2 <= y < (out_h - sh) / 2 + sh)
                ==> #[trigger] chan_at(pad_seq(src, sw, sh, out_w, out_h, bg), 4, out_w, x, y, c)
                == bg_chan(bg, c),
        forall|x: int, y: int, c: int|
            0 <= c < 4 && (out_w - sw) / 2 <= x < (out_w - sw) / 2 + sw && 0 <= y < out_h && (out_h
                - sh) / 2 <= y < (out_h - sh) / 2 + sh && 0 <= x < out_w
                ==> #[trigger] chan_at(pad_seq(src, sw, sh, out_w, out_h, bg), 4, out_w, x, y, c)
                == chan_at(src, 4, sw, x - (out_w - sw) / 2, y - (out_h - sh) / 2, c),
{
    assert forall|x: int, y: int, c: int|
        0 <= x < out_w && 0 <= y < out_h && 0 <= c
            < 4 implies #[trigger] chan_at(pad_seq(src, sw, sh, out_w, out_h, bg), 4, out_w, x, y, c)
        == padded_chan(src, sw, sh, out_w, out_h, bg, x, y, c) by {
        lemma_pad_seq_chan(src, sw, sh, out_w, out_h, bg, x, y, c);
    }
}

/// Centers `src` on a `out_w x out_h` canvas filled with `bg`.
pub fn pad_centered(src: &Canvas, out_w: u32, out_h: u32, bg: Rgb) -> (r: Canvas)
    requires
        src.wf(),
        src.width <= out_w,
        src.height <= out_h,
        1 <= out_w,
        4 * out_w * out_h <= usize::MAX,
    ensures
        r.wf(),
        r.width == out_w,
        r.height == out_h,
        r.data@ == pad_seq(
            src.data@,
            src.width as int,
            src.height as int,
            out_w as int,
            out_h as int,
            bg,
        ),
{
    let ghost target = pad_seq(
        src.data@,
        src.width as int,
        src.height as int,
        out_w as int,
        out_h as int,
        bg,
    );
    let x_off: u32 = (out_w - src.width) / 2;
    let y_off: u32 = (out_h - src.height) / 2;
    proof {
        assert(4 * ((out_w as int) * (out_h as int)) == 4 * out_w * out_h) by (nonlinear_arith);
    }
    let total: usize = 4 * ((out_w as usize) * (out_h as usize));
    let mut data: Vec<u8> = Vec::new();
    let mut i: usize = 0;
    while i < total
        invariant
            src.wf(),
            src.width <= out_w,
            src.height <= out_h,
            1 <= out_w,
            x_off == (out_w - src.width) / 2,
            y_off == (out_h - src.height) / 2,
            total == 4 * out_w * out_h,
            i <= total,
            data@.len() == i,
            target == pad_seq(
                src.data@,
                src.width as int,
                src.height as int,
                out_w as int,
                out_h as int,
                bg,
            ),
            forall|j: int| 0 <= j < i ==> data@[j] == target[j],
        decreases total - i,
    {
        proof {
            lemma_flat_index_decode(4, out_w as int, out_h as int, i as int);
        }
        let p: usize = i / 4;
        let c: usize = i % 4;
        let x: u32 = (p % (out_w as usize)) as u32;
        let y: u32 = (p / (out_w as usize)) as u32;
        let b: u8 = if x_off <= x && x < x_off + src.width && y_off <= y && y < y_off + src.height {
            src.read_chan(x - x_off, y - y_off, c as u32)
        } else {
            if c == 0 {
                bg.r
            } else if c == 1 {
                bg.g
            } else if c == 2 {
                bg.b
            } else {
                255u8
            }
        };
        data.push(b);
        i = i + 1;
    }
    let r = Canvas { width: out_w, height: out_h, data };
    proof {
        assert(r.data@ =~= target);
    }
    r
}

/// The buffer of the `size x size` block of `src` (row width `sw`) whose
/// top-left pixel is `(x0, y0)`.
pub open spec fn crop_seq(src: Seq<u8>, sw: int, x0: int, y0: int, size: int) -> Seq<u8> {
    Seq::new(
        (4 * size * size) as nat,
        |i: int| chan_at(src, 4, sw, x0 + (i / 4) % size, y0 + (i / 4) / size, i % 4),
    )
}

/// Reading the cropped buffer pixel-wise gives the source pixel shifted by
/// the crop origin.
pub proof fn lemma_crop_chan(src: Seq<u8>, sw: int, x0: int, y0: int, size: int, x: int, y: int, c: int)
    requires
        1 <= size,
        0 <= x < size,
        0 <= y < size,
        0 <= c < 4,
    ensures
        chan_at(crop_seq(src, sw, x0, y0, size), 4, size, x, y, c) == chan_at(
            src,
            4,
            sw,
            x0 + x,
            y0 + y,
            c,
        ),
{
    lemma_flat_index_encode(4, size, size, x, y, c);
}

impl Canvas {
    /// Cuts the `size x size` block whose top-left pixel is `(x0, y0)`.
    pub fn crop(&self, x0: u32, y0: u32, size: u32) -> (r: Canvas)
        requires
            self.wf(),
            1 <= size,
            x0 + size <= self.width,
            y0 + size <= self.height,
        ensures
            r.wf(),
            r.width == size,
            r.height == size,
            r.data@ == crop_seq(self.data@, self.width as int, x0 as int, y0 as int, size as int),
    {
        let ghost target = crop_seq(
            self.data@,
            self.width as int,
            x0 as int,
            y0 as int,
            size as int,
        );
        let buf_len: usize = self.data.len();
        proof {
            assert(4 * ((size as int) * (size as int)) == 4 * size * size) by (nonlinear_arith);
            assert(4 * size * size <= 4 * self.width * self.height) by (nonlinear_arith)
                requires
                    1 <= size,
                    size <= self.width,
                    size <= self.height,
            ;
            assert(buf_len == 4 * self.width * self.height);
        }
        let total: usize = 4 * ((size as usize) * (size as usize));
        let mut data: Vec<u8> = Vec::new();
        let mut i: usize = 0;
        while i < total
            invariant
                self.wf(),
                1 <= size,
                x0 + size <= self.width,
                y0 + size <= self.height,
                total == 4 * size * size,
                i <= total,
                data@.len() == i,
                target == crop_seq(
                    self.data@,
                    self.width as int,
                    x0 as int,
                    y0 as int,
                    size as int,
                ),
            forall|j: int| 0 <= j < i ==> data@[j] == target[j],
            decreases total - i,
        {
            proof {
                lemma_flat_index_decode(4, size as int, size as int, i as int);
            }
            let p: usize = i / 4;
            let c: usize = i % 4;
            let x: u32 = (p % (size as usize)) as u32;
            let y: u32 = (p / (size as usize)) as u32;
            let b: u8 = self.read_chan(x0 + x, y0 + y, c as u32);
            data.push(b);
            i = i + 1;
        }
        let r = Canvas { width: size, height: size, data };
        proof {
            assert(r.data@ =~= target);
        }
        r
    }

    /// The alpha channel dropped: the RGB bytes of every pixel, row-major.
    pub fn to_rgb(&self) -> (r: Vec<u8>)
        requires
            self.wf(),
        ensures
            r@ == rgb_flat_spec(self.data@, self.width as int, self.height as int),
    {
        let ghost target = rgb_flat_spec(self.data@, self.width as int, self.height as int);
        let buf_len: usize = self.data.len();
        proof {
            assert(3 * ((self.width as int) * (self.height as int)) <= 4 * self.width
                * self.height) by (nonlinear_arith);
            assert(3 * ((self.width as int) * (self.height as int)) == 3 * self.width
                * self.height) by (nonlinear_arith);
            assert(buf_len == 4 * self.width * self.height);
        }
        let total: usize = 3 * ((self.width as usize) * (self.height as usize));
        let mut data: Vec<u8> = Vec::new();
        let mut i: usize = 0;
        while i < total
            invariant
                self.wf(),
                total == 3 * self.width * self.height,
                i <= total,
                data@.len() == i,
                target == rgb_flat_spec(self.data@, self.width as int, self.height as int),
                forall|j: int| 0 <= j < i ==> data@[j] == target[j],
            decreases total - i,
        {
            proof {
                assert(self.width >= 1) by (nonlinear_arith)
                    requires
                        i < 3 * self.width * self.height,
                        0 <= i,
                ;
                lemma_flat_index_decode(3, self.width as int, self.height as int, i as int);
            }
            let p: usize = i / 3;
            let c: usize = i % 3;
            let x: u32 = (p % (self.width as usize)) as u32;
            let y: u32 = (p / (self.width as usize)) as u32;
            let b: u8 = self.read_chan(x, y, c as u32);
            data.push(b);
            i = i + 1;
        }
        proof {
            assert(data@ =~= target);
        }
        data
    }
}

/// The RGB bytes (alpha dropped) of a `w x h` RGBA buffer, row-major.
pub open spec fn rgb_flat_spec(data: Seq<u8>, w: int, h: int) -> Seq<u8> {
    Seq::new((3 * w * h) as nat, |i: int| chan_at(data, 4, w, (i / 3) % w, (i / 3) / w, i % 3))
}

impl Canvas {
    /// Cuts the canvas into its full grid of `size x size` tiles, with no
    /// gaps, overlaps or partial edge tiles: both axes must be exact
    /// multiples of `size`. Tiles come grid column by grid column: the tile
    /// of cell `(tx, ty)` is entry `tx * (height / size) + ty`, and its
    /// pixels are exactly the source block at `(tx * size, ty * size)`.
    pub fn slice_tiles(&self, size: u32) -> (tiles: Vec<Canvas>)
        requires
            self.wf(),
            1 <= size,
            self.width % size == 0,
            self.height % size == 0,
        ensures
            tiles.len() == (self.width / size) * (self.height / size),
            forall|k: int|
                0 <= k < tiles.len() ==> {
                    let ty_count = self.height as int / size as int;
                    let tx = k / ty_count;
                    let ty = k % ty_count;
                    &&& (#[trigger] tiles[k]).wf()
                    &&& tiles[k].width == size
                    &&& tiles[k].height == size
                    &&& tiles[k].data@ == crop_seq(
                        self.data@,
                        self.width as int,
                        tx * size,
                        ty * size,
                        size as int,
                    )
                },
    {
        let tiles_x: u32 = self.width / size;
        let tiles_y: u32 = self.height / size;
        proof {
            lemma_fundamental_div_mod(self.width as int, size as int);
            lemma_fundamental_div_mod(self.height as int, size as int);
            lemma_div_pos_is_pos(self.width as int, size as int);
            lemma_div_pos_is_pos(self.height as int, size as int);
        }
        let mut tiles: Vec<Canvas> = Vec::new();
        let mut tx: u32 = 0;
        while tx < tiles_x
            invariant
                self.wf(),
                1 <= size,
                tiles_x == self.width as int / size as int,
                tiles_y == self.height as int / size as int,
                self.width == size * tiles_x,
                self.height == size * tiles_y,
                tx <= tiles_x,
                tiles.len() == tx * tiles_y,
                forall|k: int|
                    0 <= k < tiles.len() ==> {
                        let t_x = k / tiles_y as int;
                        let t_y = k % tiles_y as int;
                        &&& (#[trigger] tiles[k]).wf()
                        &&& tiles[k].width == size
                        &&& tiles[k].height == size
                        &&& tiles[k].data@ == crop_seq(
                            self.data@,
                            self.width as int,
                            t_x * size,
                            t_y * size,
                            size as int,
                        )
                    },
            decreases tiles_x - tx,
        {
            let mut ty: u32 = 0;
            while ty < tiles_y
                invariant
                    self.wf(),
                    1 <= size,
                    tiles_x == self.width as int / size as int,
                    tiles_y == self.height as int / size as int,
                    self.width == size * tiles_x,
                    self.height == size * tiles_y,
                    tx < tiles_x,
                    ty <= tiles_y,
                    tiles.len() == tx * tiles_y + ty,
                    forall|k: int|
                        0 <= k < tiles.len() ==> {
                            let t_x = k / tiles_y as int;
                            let t_y = k % tiles_y as int;
                            &&& (#[trigger] tiles[k]).wf()
                            &&& tiles[k].width == size
                            &&& tiles[k].height == size
                            &&& tiles[k].data@ == crop_seq(
                                self.data@,
                                self.width as int,
                                t_x * size,
                                t_y * size,
                                size as int,
                            )
                        },
                decreases tiles_y - ty,
            {
                proof {
                    assert(tx * size + size <= self.width && ty * size + size <= self.height)
                        by (nonlinear_arith)
                        requires
                            tx < tiles_x,
                            ty < tiles_y,
                            1 <= size,
                            self.width == size * tiles_x,
                            self.height == size * tiles_y,
                    ;
                    lemma_fundamental_div_mod_converse_div(
                        tx as int * tiles_y as int + ty as int,
                        tiles_y as int,
                        tx as int,
                        ty as int,
                    );
                    lemma_fundamental_div_mod_converse_mod(
                        tx as int * tiles_y as int + ty as int,
                        tiles_y as int,
                        tx as int,
                        ty as int,
                    );
                }
                let tile = self.crop(tx * size, ty * size, size);
                tiles.push(tile);
                ty = ty + 1;
            }
            proof {
                assert(tx as int * tiles_y as int + tiles_y as int == (tx as int + 1) * (
                tiles_y as int)) by (nonlinear_arith);
            }
            tx = tx + 1;
        }
        proof {
            assert((self.width / size) as int * ((self.height / size) as int) == tiles_x as int
                * tiles_y as int) by (nonlinear_arith)
                requires
                    tiles_x == self.width / size,
                    tiles_y == self.height / size,
            ;
        }
        tiles
    }
}

} // verus!
