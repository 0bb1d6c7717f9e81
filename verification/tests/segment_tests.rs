use gosh_dl::error::{EngineError, NetworkErrorKind};
use gosh_dl::http::segment::{
    calculate_segment_count, check_status, failure_index, failure_retryable, format_range,
    incomplete_transfer, retry_delay, segment_retry, PartFilePlan, ProgressClock, RunEnd,
    SegmentJob, SegmentRequest, SegmentedDownload, SpeedMeter,
};
use gosh_dl::storage::{Segment, SegmentState};

#[test]
fn test_calculate_segment_count() {
    // 100MB file, 16 connections, 1MB min
    assert_eq!(calculate_segment_count(100 * 1024 * 1024, 16, 1024 * 1024), 16);

    // 10MB file, 16 connections, 1MB min -> only 10 segments
    assert_eq!(calculate_segment_count(10 * 1024 * 1024, 16, 1024 * 1024), 10);

    // 500KB file, 16 connections, 1MB min -> 1 segment
    assert_eq!(calculate_segment_count(512 * 1024, 16, 1024 * 1024), 1);

    // Empty file
    assert_eq!(calculate_segment_count(0, 16, 1024 * 1024), 1);

    // Very large file
    assert_eq!(calculate_segment_count(10 * 1024 * 1024 * 1024, 16, 1024 * 1024), 16);
}

#[test]
fn test_segment_init() {
    let mut download = SegmentedDownload::new(
        "https://example.com/file.zip".to_string(),
        100 * 1024 * 1024, // 100MB
        "/tmp/file.zip".to_string(),
        true,
        None,
        None,
    );

    download.init_segments(16, 1024 * 1024);

    let segments = download.segments();
    assert_eq!(segments.len(), 16);

    // Check segment boundaries
    assert_eq!(segments[0].start, 0);
    assert_eq!(segments[15].end, 100 * 1024 * 1024 - 1);

    // Check segments are contiguous
    for i in 0..15 {
        assert_eq!(segments[i].end + 1, segments[i + 1].start);
    }
}

fn download_of(total: u64, supports_range: bool) -> SegmentedDownload {
    SegmentedDownload::new(
        "https://example.com/file.zip".to_string(),
        total,
        "/tmp/file.zip".to_string(),
        supports_range,
        Some("\"tag\"".to_string()),
        None,
    )
}

fn bounds(d: &SegmentedDownload) -> Vec<(u64, u64)> {
    d.segments().iter().map(|s| (s.start, s.end)).collect()
}

fn assert_partition(d: &SegmentedDownload) {
    let segments = d.segments();
    assert_eq!(segments[0].start, 0);
    assert_eq!(segments[segments.len() - 1].end, d.total_size - 1);
    for i in 0..segments.len() {
        assert_eq!(segments[i].index, i);
        assert!(segments[i].start <= segments[i].end);
        assert!(segments[i].downloaded <= segments[i].end - segments[i].start + 1);
        if i + 1 < segments.len() {
            assert_eq!(segments[i].end + 1, segments[i + 1].start);
        }
    }
    let sum: u64 = segments.iter().map(|s| s.downloaded).sum();
    assert_eq!(sum, d.downloaded);
    assert_eq!(d.progress().completed_size, sum);
    assert!(sum <= d.total_size);
}

#[test]
fn test_hundred_mebibytes_make_sixteen_segments() {
    let mut d = download_of(100 * 1024 * 1024, true);
    d.init_segments(16, 1024 * 1024);
    let b = bounds(&d);
    assert_eq!(b.len(), 16);
    assert_eq!(b[0], (0, 6553599));
    assert_eq!(b[1], (6553600, 13107199));
    assert_eq!(b[15], (98304000, 104857599));
    for i in 0..16u64 {
        assert_eq!(b[i as usize], (i * 6553600, (i + 1) * 6553600 - 1));
    }
    assert_partition(&d);
}

#[test]
fn test_finished_download_renames_the_part_file() {
    let mut d = download_of(100 * 1024 * 1024, true);
    d.init_segments(16, 1024 * 1024);
    assert_eq!(d.part_path(), "/tmp/file.zip.part");
    assert_eq!(d.finalize_plan(), None);
    for i in 0..16 {
        assert!(matches!(d.begin_segment(i), SegmentRequest::Fetch { .. }));
        assert_eq!(d.record_chunk(i, 6553600).unwrap(), i as u64 * 6553600);
        d.segment_stopped();
    }
    assert!(d.is_complete());
    assert_eq!(
        d.finalize_plan(),
        Some(("/tmp/file.zip.part".to_string(), "/tmp/file.zip".to_string()))
    );
    assert_partition(&d);
}

#[test]
fn test_ten_mebibytes_make_ten_segments() {
    let mut d = download_of(10 * 1024 * 1024, true);
    d.init_segments(16, 1024 * 1024);
    let b = bounds(&d);
    assert_eq!(b.len(), 10);
    assert_eq!(b[9].1, 10485759);
    assert_eq!(b[0], (0, 1048575));
    assert_partition(&d);
}

#[test]
fn test_small_file_is_one_segment() {
    let mut d = download_of(512 * 1024, true);
    d.init_segments(16, 1024 * 1024);
    assert_eq!(bounds(&d), vec![(0, 524287)]);
}

#[test]
fn test_uneven_split_gives_the_rest_to_the_last_segment() {
    let mut d = download_of(10, true);
    d.init_segments(3, 1);
    assert_eq!(bounds(&d), vec![(0, 2), (3, 5), (6, 9)]);
    assert_partition(&d);
}

#[test]
fn test_no_range_support_means_one_segment() {
    let mut d = download_of(100 * 1024 * 1024, false);
    d.init_segments(16, 1024 * 1024);
    assert_eq!(bounds(&d), vec![(0, 100 * 1024 * 1024 - 1)]);
    match d.begin_segment(0) {
        SegmentRequest::Fetch { resume_start, range, if_range } => {
            assert_eq!(resume_start, 0);
            assert_eq!(range, None);
            assert_eq!(if_range, None);
        }
        other => panic!("no fetch: {:?}", other),
    }
}

#[test]
fn test_empty_file_has_no_segments() {
    let mut d = download_of(0, true);
    d.init_segments(16, 1024 * 1024);
    assert_eq!(d.segments().len(), 0);
    assert!(d.is_complete());
}

#[test]
fn test_resume_asks_for_the_missing_bytes() {
    let mib: u64 = 1024 * 1024;
    let mut d = download_of(32 * mib, true);
    let mut saved: Vec<Segment> = Vec::new();
    for i in 0..4u64 {
        let mut s = Segment::new(i as usize, i * 8 * mib, (i + 1) * 8 * mib - 1);
        s.downloaded = mib;
        saved.push(s);
    }
    assert!(SegmentedDownload::segments_valid(&saved, 32 * mib));
    d.restore_segments(saved);
    assert_eq!(d.downloaded, 4 * mib);
    assert_partition(&d);

    match d.begin_segment(0) {
        SegmentRequest::Fetch { resume_start, range, if_range } => {
            assert_eq!(resume_start, 1048576);
            assert_eq!(range, Some("bytes=1048576-8388607".to_string()));
            assert_eq!(if_range, Some("\"tag\"".to_string()));
        }
        other => panic!("no fetch: {:?}", other),
    }
    match d.begin_segment(3) {
        SegmentRequest::Fetch { resume_start, range, .. } => {
            assert_eq!(resume_start, 25 * mib);
            assert_eq!(range, Some(format!("bytes={}-{}", 25 * mib, 32 * mib - 1)));
        }
        other => panic!("no fetch: {:?}", other),
    }
    assert_eq!(d.active_connections, 2);

    for i in 0..4 {
        if i == 1 || i == 2 {
            assert!(matches!(d.begin_segment(i), SegmentRequest::Fetch { .. }));
        }
        assert_eq!(d.record_chunk(i, 7 * mib).unwrap(), (i as u64 * 8 + 1) * mib);
        d.segment_stopped();
    }
    assert_eq!(d.active_connections, 0);
    assert_eq!(d.downloaded, d.total_size);
    assert!(d.is_complete());
    assert!(d.finalize_plan().is_some());
    assert_partition(&d);
}

#[test]
fn test_saved_segments_that_do_not_partition_are_invalid() {
    let gap = vec![Segment::new(0, 0, 4), Segment::new(1, 6, 9)];
    assert!(!SegmentedDownload::segments_valid(&gap, 10));
    let short = vec![Segment::new(0, 0, 4), Segment::new(1, 5, 8)];
    assert!(!SegmentedDownload::segments_valid(&short, 10));
    let mut over = vec![Segment::new(0, 0, 4), Segment::new(1, 5, 9)];
    over[0].downloaded = 6;
    assert!(!SegmentedDownload::segments_valid(&over, 10));
    let whole = vec![Segment::new(0, 0, 4), Segment::new(1, 5, 9)];
    assert!(SegmentedDownload::segments_valid(&whole, 10));
    assert!(!SegmentedDownload::segments_valid(&Vec::new(), 10));
}

#[test]
fn test_chunk_past_the_range_is_refused() {
    let mut d = download_of(10, true);
    d.init_segments(2, 1);
    assert_eq!(d.record_chunk(0, 3).unwrap(), 0);
    assert_eq!(d.record_chunk(0, 2).unwrap(), 3);
    assert!(d.record_chunk(0, 1).is_err());
    assert!(d.record_chunk(7, 1).is_err());
    assert_eq!(d.downloaded, 5);
    assert!(d.segments()[0].is_complete());
    assert_eq!(d.segments()[1].remaining(), 5);
    assert_partition(&d);
    assert!(matches!(d.begin_segment(0), SegmentRequest::AlreadyComplete));
}

#[test]
fn test_paused_download_hands_out_no_work() {
    let mut d = download_of(10, true);
    d.init_segments(2, 1);
    d.pause();
    assert!(matches!(d.begin_segment(0), SegmentRequest::Skip));
    assert!(matches!(d.begin_segment(9), SegmentRequest::Skip));
    assert_eq!(d.active_connections, 0);
}

#[test]
fn test_pending_jobs_skip_complete_segments() {
    let mut d = download_of(10, true);
    d.init_segments(2, 1);
    d.record_chunk(0, 5).unwrap();
    d.record_chunk(1, 2).unwrap();
    let jobs = d.pending_jobs();
    assert_eq!(jobs, vec![SegmentJob { index: 1, start: 5, end: 9, downloaded: 2 }]);
}

#[test]
fn test_progress_and_time_left() {
    let mut d = download_of(1000, true);
    d.init_segments(1, 1);
    d.record_chunk(0, 400).unwrap();
    let p = d.progress();
    assert_eq!(p.total_size, Some(1000));
    assert_eq!(p.completed_size, 400);
    assert_eq!(p.eta_seconds, None);
    d.set_speed(200);
    let p = d.progress();
    assert_eq!(p.download_speed, 200);
    assert_eq!(p.eta_seconds, Some(3));
}

#[test]
fn test_failed_segment_keeps_its_bytes() {
    let mut d = download_of(10, true);
    d.init_segments(2, 1);
    d.record_chunk(0, 2).unwrap();
    let e = EngineError::http_status(503, "segment");
    d.fail_segment(0, &e, 3);
    match &d.segments()[0].state {
        SegmentState::Failed { error, retries } => {
            assert_eq!(error, "network error: segment: HTTP 503");
            assert_eq!(*retries, 3);
        }
        other => panic!("not failed: {:?}", other),
    }
    assert_eq!(d.segments()[0].downloaded, 2);
    d.fail_segment(9, &e, 3);
    assert_partition(&d);
}

#[test]
fn test_range_header_text() {
    assert_eq!(format_range(0, 6553599), "bytes=0-6553599");
    assert_eq!(format_range(1048576, 8388607), "bytes=1048576-8388607");
}

#[test]
fn test_segment_status_rules() {
    assert!(check_status(206, true, 0).is_ok());
    assert!(check_status(206, true, 1048576).is_ok());
    assert!(check_status(200, false, 0).is_ok());
    assert!(check_status(200, true, 0).is_ok());
    assert!(check_status(206, false, 0).is_err());
    match check_status(200, true, 1048576) {
        Err(EngineError::Network { kind, message }) => {
            assert_eq!(kind, NetworkErrorKind::HttpStatus(200));
            assert_eq!(message, "resume invalidated, server sent the full body: HTTP 200");
        }
        other => panic!("accepted: {:?}", other),
    }
    match check_status(416, true, 5) {
        Err(EngineError::Network { kind, message }) => {
            assert_eq!(kind, NetworkErrorKind::HttpStatus(416));
            assert_eq!(message, "unexpected response to segment request: HTTP 416");
        }
        other => panic!("accepted: {:?}", other),
    }
}

#[test]
fn test_retry_delays_double_up_to_the_cap() {
    assert_eq!(retry_delay(0, 3, 1000, 30000), Some(1000));
    assert_eq!(retry_delay(1, 3, 1000, 30000), Some(2000));
    assert_eq!(retry_delay(2, 3, 1000, 30000), Some(4000));
    assert_eq!(retry_delay(3, 3, 1000, 30000), None);
    assert_eq!(retry_delay(5, 10, 1000, 30000), Some(30000));
    assert_eq!(retry_delay(200, 1000, 1000, 30000), Some(30000));
    assert_eq!(retry_delay(0, 0, 1000, 30000), None);
    assert_eq!(retry_delay(4, 10, 0, 30000), Some(0));
}

#[test]
fn test_failure_is_retryable_if_any_error_is() {
    let gone = EngineError::http_status(404, "segment");
    let busy = EngineError::http_status(503, "segment");
    assert!(!failure_retryable(&vec![]));
    assert!(!failure_retryable(&vec![EngineError::http_status(404, "segment")]));
    assert!(failure_retryable(&vec![gone, busy]));
}

#[test]
fn test_speed_meter_windows() {
    let mut m = SpeedMeter::new(1000);
    assert_eq!(m.record(1100, 100), None);
    assert_eq!(m.record(1499, 100), None);
    assert_eq!(m.record(1500, 300), Some(1000));
    assert_eq!(m, SpeedMeter::new(1500));
    assert_eq!(m.record(1400, 10), None);
    assert_eq!(m.record(2500, 0), Some(10));
}

#[test]
fn test_progress_clock_spaces_reports() {
    let mut c = ProgressClock::new(0);
    assert!(!c.due(100));
    assert!(!c.due(249));
    assert!(c.due(250));
    assert!(!c.due(499));
    assert!(c.due(500));
}

#[test]
fn test_retry_only_what_may_succeed() {
    let busy = EngineError::http_status(503, "segment");
    let gone = EngineError::http_status(404, "segment");
    assert_eq!(segment_retry(&busy, 0, false, 3, 1000, 30000), Some(1000));
    assert_eq!(segment_retry(&busy, 2, false, 3, 1000, 30000), Some(4000));
    assert_eq!(segment_retry(&busy, 3, false, 3, 1000, 30000), None);
    assert_eq!(segment_retry(&busy, 0, true, 3, 1000, 30000), None);
    assert_eq!(segment_retry(&gone, 0, false, 3, 1000, 30000), None);
}

#[test]
fn test_failure_of_the_download() {
    let gone = || EngineError::http_status(404, "segment");
    let busy = || EngineError::http_status(503, "segment");
    assert_eq!(failure_index(&vec![]), None);
    assert_eq!(failure_index(&vec![gone()]), Some(0));
    assert_eq!(failure_index(&vec![gone(), gone()]), Some(0));
    assert_eq!(failure_index(&vec![gone(), busy(), busy()]), Some(1));
    assert_eq!(failure_index(&vec![busy(), gone()]), Some(0));
    match incomplete_transfer() {
        EngineError::Network { kind, message } => {
            assert_eq!(kind, NetworkErrorKind::Other);
            assert_eq!(message, "The transfer ended before every byte had arrived");
        }
        other => panic!("other error: {:?}", other),
    }
    assert!(incomplete_transfer().is_retryable());
}

#[test]
fn test_how_a_run_ends() {
    let mut d = download_of(10, true);
    d.init_segments(2, 1);
    assert_eq!(d.run_end(false), RunEnd::Failed);
    assert_eq!(d.run_end(true), RunEnd::Stopped);
    d.record_chunk(0, 5).unwrap();
    d.record_chunk(1, 5).unwrap();
    assert_eq!(d.run_end(false), RunEnd::Complete);
    assert_eq!(d.run_end(true), RunEnd::Complete);
    let last = d.final_progress();
    assert_eq!(last.total_size, Some(10));
    assert_eq!(last.completed_size, 10);
    assert_eq!(last.download_speed, 0);
    assert_eq!(last.connections, 0);
    assert_eq!(last.eta_seconds, None);
}

#[test]
fn test_part_file_plan() {
    let d = download_of(4096, true);
    assert_eq!(d.prepare_plan(true), PartFilePlan::OpenExisting);
    assert_eq!(d.prepare_plan(false), PartFilePlan::Create { length: 4096 });
}
