//! The run state machine.
//!
//! A run uploads every tile of the pyramid, finest level first, then makes
//! one finalize call. The machine decides each next step and records its
//! outcome; the caller performs the actual transfers, polls the shared
//! cancel flag between steps, and publishes the progress snapshots the
//! machine builds. Finalize is offered exactly when every tile upload has
//! succeeded: a failed upload or an observed cancellation ends the run
//! before any finalize step.

use vstd::prelude::*;

verus! {

use crate::text::decimal_spec;
use crate::text::u32_to_decimal;
use crate::zoom::tiles_at_level;
use crate::zoom::total_tiles_spec;
use crate::zoom::total_tile_count;
use crate::zoom::pow2_u32;
use vstd::arithmetic::power2::pow2;
use vstd::arithmetic::power2::lemma_pow2_pos;
use vstd::arithmetic::power2::lemma_pow2_strictly_increases;
use vstd::arithmetic::power2::lemma2_to64;
use vstd::arithmetic::div_mod::lemma_div_is_ordered;
use vstd::arithmetic::div_mod::lemma_div_multiples_vanish;
use vstd::arithmetic::mul::lemma_mul_inequality;
use vstd::string::StringExecFns;

/// Which server call a run failed in.
pub enum FailureKind {
    Upload,
    Finalize,
}

/// The lifecycle of one run: `Running` until the finalize call succeeds
/// (`Completed`), a cancel request is observed (`Cancelled`), or a transfer
/// fails (`Failed`).
pub enum Phase {
    Running,
    Completed,
    Cancelled,
    Failed { kind: FailureKind, message: String },
}

/// The position of global upload index `k` in a pyramid of `levels` zoom
/// levels, as `(level, tile_x, tile_y)`: levels are processed finest first
/// (descending index), and within a level the grid is walked column by
/// column, `tile_y` innermost.
pub open spec fn position_spec(levels: nat, k: nat) -> (nat, nat, nat)
    recommends
        k < total_tiles_spec(levels),
    decreases levels,
{
    if levels == 0 {
        (0, 0, 0)
    } else {
        let top = (levels - 1) as nat;
        if k < tiles_at_level(top) {
            (top, k / pow2(top), k % pow2(top))
        } else {
            position_spec(top, (k - tiles_at_level(top)) as nat)
        }
    }
}

/// Every upload position the machine hands out addresses a real cell of
/// its level's grid: the level exists in the pyramid, and both grid
/// indices lie inside the level's `2^level`-tile square.
pub proof fn lemma_position_in_grid(levels: nat, k: nat)
    requires
        1 <= levels,
        k < total_tiles_spec(levels),
    ensures
        ({
            let (level, tile_x, tile_y) = position_spec(levels, k);
            level < levels && tile_x < pow2(level) && tile_y < pow2(level)
        }),
    decreases levels,
{
    let top = (levels - 1) as nat;
    if k < tiles_at_level(top) {
        vstd::arithmetic::div_mod::lemma_multiply_divide_lt(
            k as int,
            pow2(top) as int,
            pow2(top) as int,
        );
        vstd::arithmetic::div_mod::lemma_mod_bound(k as int, pow2(top) as int);
        lemma_pow2_pos(top);
    } else {
        if levels == 1 {
            assert(total_tiles_spec(0) == 0);
            assert(false);
        }
        lemma_position_in_grid(top, (k - tiles_at_level(top)) as nat);
    }
}

/// What the machine asks the caller to do next.
pub enum RunStep {
    /// Upload the tile at grid cell `(tile_x, tile_y)` of `level`.
    Upload { level: u32, tile_x: u32, tile_y: u32 },
    /// Every tile is up: make the finalize call with the finest level index.
    Finalize { max_zoom: u32 },
    /// The run is over; the phase holds the outcome.
    Halt,
}

/// One pyramid upload run.
pub struct RunMachine {
    pub level_count: u32,
    pub total_tiles: u32,
    pub uploaded: u32,
    pub phase: Phase,
}

impl RunMachine {
    /// The machine's invariant: the total is the pyramid's closed-form tile
    /// count, fixed for the whole run; the upload counter never passes it;
    /// and a completed run has uploaded everything.
    pub open spec fn inv(self) -> bool {
        &&& 1 <= self.level_count <= 16
        &&& self.total_tiles == total_tiles_spec(self.level_count as nat)
        &&& 1 <= self.total_tiles
        &&& self.uploaded <= self.total_tiles
        &&& (self.phase is Completed ==> self.uploaded == self.total_tiles)
    }

    /// Starts a run: nothing uploaded yet, and a fresh random layout path
    /// under which every tile of this run is grouped.
    pub fn start(level_count: u32) -> (r: (RunMachine, String))
        requires
            1 <= level_count <= 16,
        ensures
            r.0.inv(),
            r.0.phase is Running,
            r.0.uploaded == 0,
            r.0.level_count == level_count,
            r.1@.len() == 36,
    {
        let total = total_tile_count(level_count);
        proof {
            lemma2_to64();
            assert(total_tiles_spec(0) == 0);
            assert(tiles_at_level(0) == 1);
            assert(total_tiles_spec(1) == 1);
            lemma_total_tiles_monotonic(1, level_count as nat);
        }
        let machine = RunMachine { level_count, total_tiles: total, uploaded: 0, phase: Phase::Running };
        let path = crate::pipeline::fresh_layout_path();
        (machine, path)
    }

    /// What to do next. A `Finalize` step is offered exactly when the run is
    /// still going and every tile upload has succeeded; after a failed
    /// upload or an observed cancellation, no finalize is ever offered.
    pub fn next_step(&self) -> (s: RunStep)
        requires
            self.inv(),
        ensures
            (s is Upload) <==> (self.phase is Running && self.uploaded < self.total_tiles),
            (s is Finalize) <==> (self.phase is Running && self.uploaded == self.total_tiles),
            (s matches RunStep::Upload { level, tile_x, tile_y } ==> (
                level as nat,
                tile_x as nat,
                tile_y as nat,
            ) == position_spec(self.level_count as nat, self.uploaded as nat)),
            (s matches RunStep::Finalize { max_zoom } ==> max_zoom == self.level_count - 1),
    {
        match self.phase {
            Phase::Running => {
                if self.uploaded < self.total_tiles {
                    let (level, tile_x, tile_y) = position_of(self.level_count, self.uploaded);
                    RunStep::Upload { level, tile_x, tile_y }
                } else {
                    RunStep::Finalize { max_zoom: self.level_count - 1 }
                }
            },
            _ => RunStep::Halt,
        }
    }

    /// Records one successful tile upload.
    pub fn record_uploaded(&mut self)
        requires
            old(self).inv(),
            old(self).phase is Running,
            old(self).uploaded < old(self).total_tiles,
        ensures
            final(self).inv(),
            final(self).phase is Running,
            final(self).uploaded == old(self).uploaded + 1,
            final(self).level_count == old(self).level_count,
            final(self).total_tiles == old(self).total_tiles,
    {
        self.uploaded = self.uploaded + 1;
    }

    /// Records a failed tile upload: the run is over, no finalize step will
    /// follow, and the counters keep their last real values.
    pub fn record_upload_failed(&mut self, message: String)
        requires
            old(self).inv(),
            old(self).phase is Running,
        ensures
            final(self).inv(),
            final(self).phase == (Phase::Failed { kind: FailureKind::Upload, message }),
            final(self).uploaded == old(self).uploaded,
            final(self).level_count == old(self).level_count,
            final(self).total_tiles == old(self).total_tiles,
    {
        self.phase = Phase::Failed { kind: FailureKind::Upload, message };
    }

    /// Records an observed cancel request: the run stops at this polled
    /// checkpoint with however many tiles were already uploaded.
    pub fn observe_cancel(&mut self)
        requires
            old(self).inv(),
            old(self).phase is Running,
        ensures
            final(self).inv(),
            final(self).phase is Cancelled,
            final(self).uploaded == old(self).uploaded,
            final(self).level_count == old(self).level_count,
            final(self).total_tiles == old(self).total_tiles,
    {
        self.phase = Phase::Cancelled;
    }

    /// Records a successful finalize call: the run is complete. This step
    /// exists only when every tile upload succeeded first.
    pub fn record_finalized(&mut self)
        requires
            old(self).inv(),
            old(self).phase is Running,
            old(self).uploaded == old(self).total_tiles,
        ensures
            final(self).inv(),
            final(self).phase is Completed,
            final(self).uploaded == old(self).uploaded,
            final(self).level_count == old(self).level_count,
            final(self).total_tiles == old(self).total_tiles,
    {
        self.phase = Phase::Completed;
    }

    /// Records a failed finalize call: every tile is up, but the layout
    /// stays unfinalized on the server, and the run reports failure.
    pub fn record_finalize_failed(&mut self, message: String)
        requires
            old(self).inv(),
            old(self).phase is Running,
        ensures
            final(self).inv(),
            final(self).phase == (Phase::Failed { kind: FailureKind::Finalize, message }),
            final(self).uploaded == old(self).uploaded,
            final(self).level_count == old(self).level_count,
            final(self).total_tiles == old(self).total_tiles,
    {
        self.phase = Phase::Failed { kind: FailureKind::Finalize, message };
    }

    /// The snapshot published after one more tile went up: the literal
    /// count of tiles uploaded so far, the fixed total, the level being
    /// processed, and the integer percentage.
    pub fn progress_after_upload(&self, level: u32) -> (p: ProgressUpdate)
        requires
            self.inv(),
        ensures
            p.current == self.uploaded,
            p.total == self.total_tiles,
            p.zoom_level == level,
            p.percentage == (self.uploaded as int * 100) / (self.total_tiles as int),
            p.status@ == processing_status_spec(
                level as nat,
                self.uploaded as nat,
                self.total_tiles as nat,
            ),
    {
        proof {
            lemma_mul_inequality(self.uploaded as int, self.total_tiles as int, 100);
            lemma_div_is_ordered(
                self.uploaded as int * 100,
                self.total_tiles as int * 100,
                self.total_tiles as int,
            );
            lemma_div_multiples_vanish(100, self.total_tiles as int);
        }
        let percentage: u32 = ((self.uploaded as u64) * 100 / (self.total_tiles as u64)) as u32;
        let mut status = String::from_str("Processing zoom level ");
        let level_digits = u32_to_decimal(level);
        status.append(level_digits.as_str());
        status.append(" (");
        let current_digits = u32_to_decimal(self.uploaded);
        status.append(current_digits.as_str());
        status.append("/");
        let total_digits = u32_to_decimal(self.total_tiles);
        status.append(total_digits.as_str());
        status.append(")");
        proof {
            assert(status@ =~= processing_status_spec(
                level as nat,
                self.uploaded as nat,
                self.total_tiles as nat,
            ));
        }
        ProgressUpdate {
            current: self.uploaded,
            total: self.total_tiles,
            zoom_level: level,
            percentage,
            status,
        }
    }
}

/// The total tile count grows with the level count.
proof fn lemma_total_tiles_monotonic(a: nat, b: nat)
    requires
        a <= b,
    ensures
        total_tiles_spec(a) <= total_tiles_spec(b),
    decreases b,
{
    if a < b {
        lemma_total_tiles_monotonic(a, (b - 1) as nat);
    }
}

/// Finds the position of upload index `k`, walking the levels finest first.
fn position_of(levels: u32, k: u32) -> (r: (u32, u32, u32))
    requires
        1 <= levels <= 16,
        k < total_tiles_spec(levels as nat),
    ensures
        (r.0 as nat, r.1 as nat, r.2 as nat) == position_spec(levels as nat, k as nat),
{
    let mut level: u32 = levels - 1;
    let mut rem: u32 = k;
    loop
        invariant
            level < levels <= 16,
            rem < total_tiles_spec(level as nat + 1),
            position_spec(levels as nat, k as nat) == position_spec(level as nat + 1, rem as nat),
        decreases level,
    {
        let n: u32 = pow2_u32(level);
        proof {
            lemma2_to64();
            if level < 15 {
                lemma_pow2_strictly_increases(level as nat, 15);
            }
            assert(n as int * n as int == tiles_at_level(level as nat) && n as int * n as int
                <= 0x40000000) by (nonlinear_arith)
                requires
                    n == pow2(level as nat),
                    n <= 0x8000,
            ;
        }
        let count: u32 = n * n;
        if rem < count {
            proof {
                lemma_pow2_pos(level as nat);
            }
            return (level, rem / n, rem % n);
        }
        proof {
            if level == 0 {
                lemma2_to64();
                assert(total_tiles_spec(0) == 0);
                assert(total_tiles_spec(1) == tiles_at_level(0));
                assert(false);
            }
        }
        rem = rem - count;
        level = level - 1;
    }
}

/// The progress snapshot the run publishes: a single record overwritten
/// after every tile and state change, never a queue.
#[derive(Clone, Debug)]
pub struct ProgressUpdate {
    pub current: u32,
    pub total: u32,
    pub zoom_level: u32,
    pub percentage: u32,
    pub status: String,
}

/// The status text published while a level's tiles go up.
pub open spec fn processing_status_spec(level: nat, current: nat, total: nat) -> Seq<char> {
    "Processing zoom level "@ + decimal_spec(level) + " ("@ + decimal_spec(current) + "/"@
        + decimal_spec(total) + ")"@
}

impl ProgressUpdate {
    /// The snapshot written when a run starts, before any work.
    pub fn starting() -> (p: ProgressUpdate)
        ensures
            p.current == 0 && p.total == 0 && p.zoom_level == 0 && p.percentage == 0,
            p.status@ == "Starting..."@,
    {
        ProgressUpdate {
            current: 0,
            total: 0,
            zoom_level: 0,
            percentage: 0,
            status: String::from_str("Starting..."),
        }
    }

    /// The snapshot written when a cancel request comes in.
    pub fn cancelling() -> (p: ProgressUpdate)
        ensures
            p.current == 0 && p.total == 0 && p.zoom_level == 0 && p.percentage == 0,
            p.status@ == "Cancelling..."@,
    {
        ProgressUpdate {
            current: 0,
            total: 0,
            zoom_level: 0,
            percentage: 0,
            status: String::from_str("Cancelling..."),
        }
    }

    /// The terminal snapshot of a cancelled run. Its counts are reset to
    /// zero by design, discarding the last real progress numbers.
    pub fn cancelled() -> (p: ProgressUpdate)
        ensures
            p.current == 0 && p.total == 0 && p.zoom_level == 0 && p.percentage == 0,
            p.status@ == "Cancelled"@,
    {
        ProgressUpdate {
            current: 0,
            total: 0,
            zoom_level: 0,
            percentage: 0,
            status: String::from_str("Cancelled"),
        }
    }
}

} // verus!
