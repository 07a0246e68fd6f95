use tile_pyramid::run::Phase;
use tile_pyramid::run::ProgressUpdate;
use tile_pyramid::run::RunMachine;
use tile_pyramid::run::RunStep;

/// Drives a run to the end, recording every upload as successful, except
/// that the upload at index `fail_at` (if any) fails, and a cancel request
/// is observed at the polled checkpoint before upload `cancel_at` (if any).
/// Returns the machine plus the counts of attempted uploads and of
/// finalize calls.
fn drive(
    level_count: u32,
    fail_at: Option<u32>,
    cancel_at: Option<u32>,
) -> (RunMachine, Vec<(u32, u32, u32)>, u32) {
    let (mut m, _path) = RunMachine::start(level_count);
    let mut uploads: Vec<(u32, u32, u32)> = Vec::new();
    let mut finalize_calls: u32 = 0;
    loop {
        // The polled cancellation checkpoint at each tile boundary.
        if cancel_at == Some(uploads.len() as u32) && matches!(m.phase, Phase::Running) {
            m.observe_cancel();
        }
        match m.next_step() {
            RunStep::Upload { level, tile_x, tile_y } => {
                uploads.push((level, tile_x, tile_y));
                if fail_at == Some(uploads.len() as u32 - 1) {
                    m.record_upload_failed(String::from("Upload failed: simulated"));
                } else {
                    m.record_uploaded();
                }
            }
            RunStep::Finalize { max_zoom } => {
                finalize_calls += 1;
                assert_eq!(max_zoom, level_count - 1);
                m.record_finalized();
            }
            RunStep::Halt => break,
        }
    }
    (m, uploads, finalize_calls)
}

#[test]
fn full_run_uploads_every_tile_then_finalizes() {
    // The 512x512 / tile 256 scenario: two levels, five tiles, finalize
    // with the finest level index 1.
    let (m, uploads, finalize_calls) = drive(2, None, None);
    assert_eq!(uploads.len(), 5);
    assert_eq!(finalize_calls, 1);
    assert!(matches!(m.phase, Phase::Completed));
    assert_eq!(m.uploaded, 5);
    assert_eq!(m.total_tiles, 5);
}

#[test]
fn tiles_come_finest_level_first_column_by_column() {
    let (_, uploads, _) = drive(2, None, None);
    assert_eq!(
        uploads,
        vec![(1, 0, 0), (1, 0, 1), (1, 1, 0), (1, 1, 1), (0, 0, 0)]
    );
}

#[test]
fn single_level_run() {
    let (m, uploads, finalize_calls) = drive(1, None, None);
    assert_eq!(uploads, vec![(0, 0, 0)]);
    assert_eq!(finalize_calls, 1);
    assert!(matches!(m.phase, Phase::Completed));
}

#[test]
fn failed_upload_never_reaches_finalize() {
    // The upload at index 3 of 5 fails: the run halts with no finalize call.
    let (m, uploads, finalize_calls) = drive(2, Some(3), None);
    assert_eq!(uploads.len(), 4);
    assert_eq!(finalize_calls, 0);
    assert!(matches!(
        m.phase,
        Phase::Failed { kind: tile_pyramid::run::FailureKind::Upload, .. }
    ));
    // The counters keep their last real values.
    assert_eq!(m.uploaded, 3);
}

#[test]
fn cancel_before_first_upload_uploads_nothing() {
    let (m, uploads, finalize_calls) = drive(2, None, Some(0));
    assert_eq!(uploads.len(), 0);
    assert_eq!(finalize_calls, 0);
    assert!(matches!(m.phase, Phase::Cancelled));
    assert_eq!(m.uploaded, 0);
}

#[test]
fn cancel_mid_run_stops_at_the_next_checkpoint() {
    // A cancel observed at the checkpoint before upload 2: exactly two
    // tiles went up, and no finalize call is made.
    let (m, uploads, finalize_calls) = drive(2, None, Some(2));
    assert_eq!(uploads.len(), 2);
    assert_eq!(finalize_calls, 0);
    assert!(matches!(m.phase, Phase::Cancelled));
    assert_eq!(m.uploaded, 2);
}

#[test]
fn finalize_failure_fails_the_run() {
    let (mut m, _path) = RunMachine::start(1);
    match m.next_step() {
        RunStep::Upload { .. } => m.record_uploaded(),
        _ => panic!("expected an upload step first"),
    }
    assert!(matches!(m.next_step(), RunStep::Finalize { max_zoom: 0 }));
    m.record_finalize_failed(String::from("Failed to finalize upload: simulated"));
    assert!(matches!(m.next_step(), RunStep::Halt));
    assert!(matches!(
        m.phase,
        Phase::Failed { kind: tile_pyramid::run::FailureKind::Finalize, .. }
    ));
}

#[test]
fn end_to_end_512_image_with_256_tiles() {
    // A 512x512 image at tile size 256: two levels, five tiles in all,
    // and the finalize call carries the finest level index 1.
    let processor = tile_pyramid::zoom::TileProcessor::new(256);
    let levels = processor.get_max_zoom_levels(512, 512);
    assert_eq!(levels, 2);
    assert_eq!(tile_pyramid::zoom::total_tile_count(levels), 5);
    let (m, uploads, finalize_calls) = drive(levels, None, None);
    assert_eq!(uploads.len(), 5);
    assert_eq!(finalize_calls, 1);
    assert!(matches!(m.phase, Phase::Completed));
}

#[test]
fn layout_path_is_fresh_and_36_characters() {
    let (_, path_a) = RunMachine::start(2);
    let (_, path_b) = RunMachine::start(2);
    assert_eq!(path_a.len(), 36);
    assert_eq!(path_b.len(), 36);
    assert_ne!(path_a, path_b);
}

#[test]
fn progress_snapshot_after_a_tile() {
    let (mut m, _) = RunMachine::start(2);
    match m.next_step() {
        RunStep::Upload { .. } => m.record_uploaded(),
        _ => panic!("expected an upload step first"),
    }
    let p = m.progress_after_upload(1);
    assert_eq!(p.current, 1);
    assert_eq!(p.total, 5);
    assert_eq!(p.zoom_level, 1);
    assert_eq!(p.percentage, 20);
    assert_eq!(p.status, "Processing zoom level 1 (1/5)");
}

#[test]
fn terminal_and_transitional_snapshots() {
    let s = ProgressUpdate::starting();
    assert_eq!(
        (s.current, s.total, s.zoom_level, s.percentage, s.status.as_str()),
        (0, 0, 0, 0, "Starting...")
    );
    let c = ProgressUpdate::cancelling();
    assert_eq!(c.status, "Cancelling...");
    assert_eq!((c.current, c.total, c.percentage), (0, 0, 0));
    let d = ProgressUpdate::cancelled();
    assert_eq!(d.status, "Cancelled");
    assert_eq!((d.current, d.total, d.zoom_level, d.percentage), (0, 0, 0, 0));
}
