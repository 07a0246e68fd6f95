//! Zoom-level arithmetic for the tile pyramid.
//!
//! Level `0` is the coarsest rendition (one tile covers the whole image);
//! level `k` uses a `2^k x 2^k` grid of tiles. The level count is the
//! smallest number of levels whose finest level reaches the source image's
//! native resolution.

use vstd::prelude::*;

verus! {

use vstd::arithmetic::power2::pow2;
use vstd::arithmetic::power2::lemma_pow2_unfold;
use vstd::arithmetic::power2::lemma_pow2_pos;
use vstd::arithmetic::power2::lemma_pow2_strictly_increases;
use vstd::arithmetic::power2::lemma2_to64;
use vstd::arithmetic::mul::lemma_mul_inequality;
use vstd::arithmetic::div_mod::lemma_div_is_ordered;
use vstd::arithmetic::div_mod::lemma_div_multiples_vanish;

/// The longer side of a `width x height` image.
pub open spec fn max_dim(width: nat, height: nat) -> nat {
    if width >= height {
        width
    } else {
        height
    }
}

/// Number of tiles in the grid of one zoom level: `2^level` per axis,
/// so `4^level` in all.
pub open spec fn tiles_at_level(level: nat) -> nat {
    pow2(level) * pow2(level)
}

/// Tiles across a whole pyramid of `levels` zoom levels: the sum of
/// `4^i` for `i` in `[0, levels)`.
pub open spec fn total_tiles_spec(levels: nat) -> nat
    decreases levels,
{
    if levels == 0 {
        0
    } else {
        total_tiles_spec((levels - 1) as nat) + tiles_at_level((levels - 1) as nat)
    }
}

/// The number of zoom levels a pyramid needs, counted by doubling a
/// one-tile canvas (`cap` pixels across) until it covers the longer image
/// side `m`: one more than the smallest exponent `k` with `2^k * cap >= m`.
pub open spec fn levels_needed(m: nat, cap: nat) -> nat
    recommends
        1 <= cap,
    decreases 2 * m - cap, when 1 <= cap
{
    if cap >= m {
        1
    } else {
        1 + levels_needed(m, 2 * cap)
    }
}

/// The resampled size of an axis of length `dim` at `level`, with tile size
/// `t` and longer image side `m`: the scale factor `2^level * t / m` applied
/// to `dim`, truncated towards zero.
pub open spec fn scaled_dim(dim: nat, level: nat, t: nat, m: nat) -> nat
    recommends
        m >= 1,
{
    (dim * (pow2(level) * t)) / m
}

/// Derives the pyramid's shape from the source image and the tile size.
pub struct TileProcessor {
    pub tile_size: u32,
}

impl TileProcessor {
    pub fn new(tile_size: u32) -> (r: Self)
        ensures
            r.tile_size == tile_size,
    {
        Self { tile_size }
    }

    /// How many zoom levels the pyramid needs. The result is one more than
    /// the smallest exponent `k` for which a `2^k`-tile-wide canvas reaches
    /// the image's longer side, so the finest level is at (or just above)
    /// native resolution, and no coarser count would get there.
    pub fn get_max_zoom_levels(&self, width: u32, height: u32) -> (levels: u32)
        requires
            self.tile_size >= 1,
            width >= 1,
            height >= 1,
        ensures
            levels >= 1,
            levels == levels_needed(
                max_dim(width as nat, height as nat),
                self.tile_size as nat,
            ),
            pow2((levels - 1) as nat) * self.tile_size >= max_dim(width as nat, height as nat),
            forall|j: nat|
                j < levels - 1 ==> pow2(j) * self.tile_size < max_dim(width as nat, height as nat),
    {
        let m: u64 = if width >= height {
            width as u64
        } else {
            height as u64
        };
        let mut k: u32 = 0;
        let mut cap: u64 = self.tile_size as u64;
        proof {
            lemma2_to64();
            assert(pow2(0) == 1);
        }
        while cap < m
            invariant
                1 <= m <= u32::MAX,
                m == max_dim(width as nat, height as nat),
                self.tile_size >= 1,
                cap == pow2(k as nat) * self.tile_size,
                cap <= 2 * (u32::MAX as u64),
                k <= 32,
                levels_needed(m as nat, self.tile_size as nat) == k + levels_needed(
                    m as nat,
                    cap as nat,
                ),
                forall|j: nat| j < k ==> pow2(j) * self.tile_size < m,
            decreases 2 * m - cap,
        {
            proof {
                lemma_pow2_pos(k as nat);
                assert(pow2(k as nat) <= cap) by (nonlinear_arith)
                    requires
                        cap == pow2(k as nat) * self.tile_size,
                        self.tile_size >= 1,
                ;
                if k >= 32 {
                    lemma2_to64();
                    if k > 32 {
                        lemma_pow2_strictly_increases(32, k as nat);
                    }
                    assert(pow2(k as nat) >= 0x100000000);
                    assert(false);
                }
                lemma_pow2_unfold((k + 1) as nat);
                assert(cap * 2 == pow2((k + 1) as nat) * self.tile_size) by (nonlinear_arith)
                    requires
                        cap == pow2(k as nat) * self.tile_size,
                        pow2((k + 1) as nat) == 2 * pow2(k as nat),
                ;
            }
            cap = cap * 2;
            k = k + 1;
        }
        k + 1
    }
}

/// Total tile count across the pyramid, the progress denominator:
/// `1 + 4 + 16 + ...`, one term per level.
pub fn total_tile_count(levels: u32) -> (total: u32)
    requires
        levels <= 16,
    ensures
        total == total_tiles_spec(levels as nat),
{
    let mut total: u32 = 0;
    let mut p: u64 = 1;
    let mut i: u32 = 0;
    proof {
        lemma2_to64();
    }
    while i < levels
        invariant
            i <= levels <= 16,
            total == total_tiles_spec(i as nat),
            p == tiles_at_level(i as nat),
        decreases levels - i,
    {
        proof {
            lemma_total_tiles_bounded(i as nat + 1);
            lemma_tiles_at_level_monotonic(i as nat, 15);
            lemma2_to64();
            assert(tiles_at_level(i as nat + 1) == 4 * tiles_at_level(i as nat)) by {
                lemma_pow2_unfold(i as nat + 1);
                assert(pow2(i as nat + 1) * pow2(i as nat + 1) == 4 * (pow2(i as nat) * pow2(
                    i as nat,
                ))) by (nonlinear_arith)
                    requires
                        pow2(i as nat + 1) == 2 * pow2(i as nat),
                ;
            }
        }
        total = total + (p as u32);
        p = p * 4;
        i = i + 1;
    }
    total
}

/// `2^e` as a machine integer.
pub fn pow2_u32(e: u32) -> (r: u32)
    requires
        e <= 31,
    ensures
        r == pow2(e as nat),
{
    let mut j: u32 = 0;
    let mut r: u32 = 1;
    proof {
        lemma2_to64();
    }
    while j < e
        invariant
            j <= e <= 31,
            r == pow2(j as nat),
        decreases e - j,
    {
        proof {
            lemma2_to64();
            if j < 30 {
                lemma_pow2_strictly_increases(j as nat, 30);
            }
            lemma_pow2_unfold((j + 1) as nat);
        }
        r = r * 2;
        j = j + 1;
    }
    r
}

/// The resampled size of the source image at `level`: the scale factor
/// `2^level * tile_size / max_dim` applied to the width and the height,
/// truncated towards zero. Neither result exceeds the level's canvas side
/// `2^level * tile_size`.
pub fn scaled_dimensions(level: u32, width: u32, height: u32, tile_size: u32) -> (r: (u32, u32))
    requires
        1 <= tile_size,
        1 <= width,
        1 <= height,
        level <= 31,
        pow2(level as nat) * tile_size <= u32::MAX,
    ensures
        r.0 == scaled_dim(
            width as nat,
            level as nat,
            tile_size as nat,
            max_dim(width as nat, height as nat),
        ),
        r.1 == scaled_dim(
            height as nat,
            level as nat,
            tile_size as nat,
            max_dim(width as nat, height as nat),
        ),
        r.0 <= pow2(level as nat) * tile_size,
        r.1 <= pow2(level as nat) * tile_size,
{
    let p: u32 = pow2_u32(level);
    proof {
        assert((p as int) * (tile_size as int) == pow2(level as nat) * tile_size)
            by (nonlinear_arith)
            requires
                p == pow2(level as nat),
        ;
    }
    let s: u64 = (p as u64) * (tile_size as u64);
    let m: u64 = if width >= height {
        width as u64
    } else {
        height as u64
    };
    proof {
        lemma_scaled_fits(width as int, m as int, s as int);
        lemma_scaled_fits(height as int, m as int, s as int);
        assert((width as int) * (s as int) <= 0xFFFFFFFF * 0xFFFFFFFF && (height as int) * (
        s as int) <= 0xFFFFFFFF * 0xFFFFFFFF) by (nonlinear_arith)
            requires
                0 <= width <= 0xFFFFFFFF,
                0 <= height <= 0xFFFFFFFF,
                0 <= s <= 0xFFFFFFFF,
        ;
    }
    let nw: u64 = ((width as u64) * s) / m;
    let nh: u64 = ((height as u64) * s) / m;
    (nw as u32, nh as u32)
}

/// An axis no longer than the image's longer side scales to at most the
/// level's full canvas side.
proof fn lemma_scaled_fits(dim: int, m: int, s: int)
    requires
        1 <= dim <= m,
        0 <= s,
    ensures
        0 <= (dim * s) / m <= s,
        dim * s <= m * s,
{
    lemma_mul_inequality(dim, m, s);
    lemma_div_is_ordered(dim * s, m * s, m);
    lemma_div_multiples_vanish(s, m);
    assert(m * s == s * m) by (nonlinear_arith);
    assert(0 <= dim * s) by (nonlinear_arith)
        requires
            0 <= dim && 0 <= s,
    ;
    assert(0 <= (dim * s) / m);
}

/// Validates a run's configuration before any work begins, and plans its
/// level count. `Some(levels)` comes exactly when the image is non-empty,
/// the tile size is positive and within JPEG's limit, the pyramid needs at
/// most 16 levels (so the tile total fits the progress counters), and the
/// finest level's canvas buffer fits the machine's address space; `None`
/// rejects everything else.
pub fn plan_levels(width: u32, height: u32, tile_size: u32) -> (r: Option<u32>)
    ensures
        (r matches Some(levels) ==> {
            let m = max_dim(width as nat, height as nat);
            let side = pow2((levels - 1) as nat) * tile_size;
            &&& 1 <= width
            &&& 1 <= height
            &&& 1 <= tile_size <= 65535
            &&& 1 <= levels <= 16
            &&& levels == levels_needed(m, tile_size as nat)
            &&& side >= m
            &&& forall|j: nat| j < levels - 1 ==> pow2(j) * tile_size < m
            &&& side <= u32::MAX
            &&& 4 * side * side <= usize::MAX
        }),
        (r is None ==> {
            let m = max_dim(width as nat, height as nat);
            let levels = levels_needed(m, tile_size as nat);
            let side = pow2((levels - 1) as nat) * tile_size;
            ||| width == 0
            ||| height == 0
            ||| tile_size == 0
            ||| tile_size > 65535
            ||| levels > 16
            ||| 4 * side * side > usize::MAX
        }),
{
    if width == 0 || height == 0 || tile_size == 0 || tile_size > 65535 {
        return None;
    }
    let levels = TileProcessor::new(tile_size).get_max_zoom_levels(width, height);
    if levels > 16 {
        return None;
    }
    proof {
        lemma2_to64();
        if levels - 1 < 15 {
            lemma_pow2_strictly_increases((levels - 1) as nat, 15);
        }
        lemma_mul_inequality(
            pow2((levels - 1) as nat) as int,
            pow2(15) as int,
            tile_size as int,
        );
    }
    let side: u64 = (pow2_u32(levels - 1) as u64) * (tile_size as u64);
    proof {
        assert(4 * (side as int) * (side as int) <= 0x10000000000000000) by (nonlinear_arith)
            requires
                0 <= side <= 0x7FFFFFFF,
        ;
    }
    let bytes: u128 = 4 * (side as u128) * (side as u128);
    if bytes > usize::MAX as u128 {
        return None;
    }
    Some(levels)
}

/// The coarsest level's scale factor, applied to the image's longer side,
/// yields exactly one tile's worth of pixels — so even at minimum zoom one
/// full tile covers the image.
pub proof fn lemma_coarsest_level_spans_tile(m: nat, t: nat)
    requires
        1 <= m,
        1 <= t,
    ensures
        scaled_dim(m, 0, t, m) == t,
{
    lemma2_to64();
    assert(pow2(0) * t == t);
    lemma_div_multiples_vanish(t as int, m as int);
}

/// The per-level tile count grows with the level index.
proof fn lemma_tiles_at_level_monotonic(a: nat, b: nat)
    requires
        a <= b,
    ensures
        tiles_at_level(a) <= tiles_at_level(b),
{
    if a < b {
        lemma_pow2_strictly_increases(a, b);
    }
    lemma_mul_inequality(pow2(a) as int, pow2(b) as int, pow2(a) as int);
    assert(pow2(b) * pow2(a) == pow2(a) * pow2(b)) by (nonlinear_arith);
    lemma_mul_inequality(pow2(a) as int, pow2(b) as int, pow2(b) as int);
}

/// Three times the total tile count, plus one, is the tile count of the
/// next level: the quad-tree sum `1 + 4 + ... + 4^(n-1)` is `(4^n - 1) / 3`.
pub proof fn lemma_total_tiles_closed_form(levels: nat)
    ensures
        3 * total_tiles_spec(levels) + 1 == tiles_at_level(levels),
    decreases levels,
{
    if levels == 0 {
        lemma2_to64();
    } else {
        lemma_total_tiles_closed_form((levels - 1) as nat);
        lemma_pow2_unfold(levels);
        assert(pow2(levels) * pow2(levels) == 4 * (pow2((levels - 1) as nat) * pow2(
            (levels - 1) as nat,
        ))) by (nonlinear_arith)
            requires
                pow2(levels) == 2 * pow2((levels - 1) as nat),
        ;
    }
}

/// A pyramid of at most 16 levels keeps its total tile count within `u32`.
pub proof fn lemma_total_tiles_bounded(levels: nat)
    requires
        levels <= 16,
    ensures
        total_tiles_spec(levels) <= 0x55555555,
{
    lemma_total_tiles_closed_form(levels);
    lemma_tiles_at_level_monotonic(levels, 16);
    lemma2_to64();
    assert(tiles_at_level(16) == 0x100000000) by {
        assert(pow2(16) == 0x10000);
    }
}

} // verus!
