use gosh_dl::config::{DirProbe, EngineConfig};
use gosh_dl::engine::{Admission, DownloadEngine, TaskOutcome, UrlParts};
use gosh_dl::error::{EngineError, NetworkErrorKind};
use gosh_dl::types::{
    DownloadEvent, DownloadId, DownloadKind, DownloadOptions, DownloadProgress, DownloadState,
    EventKind, StateTag, Timestamp,
};

fn present() -> DirProbe {
    DirProbe { exists: true, is_dir: true }
}

fn engine_of_width(width: usize) -> DownloadEngine {
    let config = EngineConfig::with_platform_dir(Some("/data".to_string()))
        .max_concurrent_downloads(width);
    DownloadEngine::new(config, present()).unwrap()
}

fn kinds(events: &Vec<DownloadEvent>) -> Vec<EventKind> {
    events.iter().map(|e| e.kind()).collect()
}

fn granted(a: Admission) -> Vec<DownloadEvent> {
    match a {
        Admission::Granted { events } => events,
        other => panic!("no permit: {:?}", other),
    }
}

fn add(engine: &mut DownloadEngine, url: &str) -> DownloadId {
    let (id, events) = engine.add_http(url, DownloadOptions::default()).unwrap();
    assert_eq!(kinds(&events), vec![EventKind::Added, EventKind::StateChanged]);
    id
}

fn tag_of(engine: &DownloadEngine, id: DownloadId) -> StateTag {
    engine.status(id).unwrap().state.tag()
}

fn moved(e: &DownloadEvent) -> Option<(StateTag, StateTag)> {
    match e {
        DownloadEvent::StateChanged { old_state, new_state, .. } => {
            Some((old_state.tag(), new_state.tag()))
        }
        _ => None,
    }
}

fn at(secs: i64) -> Timestamp {
    Timestamp { secs, nanos: 0 }
}

#[test]
fn test_engine_rejects_an_invalid_configuration() {
    let config = EngineConfig::with_platform_dir(Some("/data".to_string()));
    let r = DownloadEngine::new(config, DirProbe { exists: false, is_dir: false });
    assert!(matches!(r, Err(EngineError::InvalidInput { field, .. }) if field == "download_dir"));
}

#[test]
fn test_add_http_registers_a_connecting_download() {
    let mut engine = engine_of_width(2);
    let id = add(&mut engine, "https://example.com/dir/file.zip");
    let status = engine.status(id).unwrap();
    assert_eq!(status.kind, DownloadKind::Http);
    assert!(matches!(status.state, DownloadState::Connecting));
    assert_eq!(status.metadata.name, "file.zip");
    assert_eq!(status.metadata.filename, Some("file.zip".to_string()));
    assert_eq!(status.metadata.url, Some("https://example.com/dir/file.zip".to_string()));
    assert_eq!(status.metadata.save_dir, "/data");
    assert_eq!(status.progress, DownloadProgress::zero());
    assert_eq!(status.completed_at, None);
}

#[test]
fn test_add_http_names() {
    let mut engine = engine_of_width(2);
    let bare = add(&mut engine, "https://example.com/");
    assert_eq!(engine.status(bare).unwrap().metadata.name, "download");
    assert_eq!(engine.status(bare).unwrap().metadata.filename, None);

    let mut options = DownloadOptions::default();
    options.filename = Some("mine.bin".to_string());
    options.save_dir = Some("/elsewhere".to_string());
    let (named, _) = engine.add_http("http://example.com/a/b.iso", options).unwrap();
    let status = engine.status(named).unwrap();
    assert_eq!(status.metadata.name, "mine.bin");
    assert_eq!(status.metadata.save_dir, "/elsewhere");
}

#[test]
fn test_add_http_rejects_other_schemes() {
    let mut engine = engine_of_width(2);
    for url in ["ftp://example.com/file", "file:///etc/passwd", "magnet:?xt=urn:btih:abc"] {
        let r = engine.add_http(url, DownloadOptions::default());
        assert!(matches!(r, Err(EngineError::InvalidInput { ref field, .. }) if field == "url"), "{}", url);
    }
    let r = engine.add_http("not a url", DownloadOptions::default());
    assert!(matches!(r, Err(EngineError::InvalidInput { ref field, .. }) if field == "url"));
    assert_eq!(engine.list().len(), 0);
}

#[test]
fn test_add_http_parsed_messages() {
    let mut engine = engine_of_width(2);
    let id = DownloadId::from_u128(1);
    let parts = UrlParts { scheme: "ftp".to_string(), last_segment: None };
    let r = engine.add_http_parsed(id, at(0), "ftp://h/f", Ok(parts), DownloadOptions::default());
    match r {
        Err(EngineError::InvalidInput { field, message }) => {
            assert_eq!(field, "url");
            assert_eq!(message, "Unsupported scheme: ftp");
        }
        other => panic!("accepted: {:?}", other),
    }
    let r = engine.add_http_parsed(
        id,
        at(0),
        "::",
        Err("empty host".to_string()),
        DownloadOptions::default(),
    );
    match r {
        Err(EngineError::InvalidInput { field, message }) => {
            assert_eq!(field, "url");
            assert_eq!(message, "Invalid URL: empty host");
        }
        other => panic!("accepted: {:?}", other),
    }
    let parts = UrlParts { scheme: "https".to_string(), last_segment: Some("f".to_string()) };
    assert!(engine
        .add_http_parsed(id, at(5), "https://h/f", Ok(parts), DownloadOptions::default())
        .is_ok());
    assert_eq!(engine.status(id).unwrap().created_at, at(5));
    let parts = UrlParts { scheme: "https".to_string(), last_segment: Some("f".to_string()) };
    let twice = engine.add_http_parsed(id, at(6), "https://h/f", Ok(parts), DownloadOptions::default());
    assert!(matches!(twice, Err(EngineError::Internal(_))));
    assert_eq!(engine.list().len(), 1);
}

#[test]
fn test_lifecycle_of_a_download() {
    let mut engine = engine_of_width(1);
    let id = add(&mut engine, "https://example.com/file.zip");

    let started = granted(engine.acquire_permit(id));
    assert_eq!(kinds(&started), vec![EventKind::StateChanged, EventKind::Started]);
    assert_eq!(moved(&started[0]), Some((StateTag::Connecting, StateTag::Downloading)));
    assert_eq!(tag_of(&engine, id), StateTag::Downloading);

    let mut progress = DownloadProgress::zero();
    progress.total_size = Some(100);
    progress.completed_size = 40;
    let reported = engine.report_progress(id, progress);
    assert_eq!(kinds(&reported), vec![EventKind::Progress]);
    assert_eq!(engine.status(id).unwrap().progress.completed_size, 40);

    let paused = engine.pause(id).unwrap();
    assert_eq!(kinds(&paused), vec![EventKind::StateChanged, EventKind::Paused]);
    assert_eq!(moved(&paused[0]), Some((StateTag::Downloading, StateTag::Paused)));
    assert_eq!(engine.report_progress(id, progress).len(), 0);

    let resumed = engine.resume(id).unwrap();
    assert_eq!(kinds(&resumed), vec![EventKind::StateChanged, EventKind::Resumed]);
    assert_eq!(moved(&resumed[0]), Some((StateTag::Paused, StateTag::Connecting)));

    let again = granted(engine.acquire_permit(id));
    assert_eq!(kinds(&again), vec![EventKind::StateChanged]);
    assert_eq!(moved(&again[0]), Some((StateTag::Connecting, StateTag::Downloading)));
    assert_eq!(tag_of(&engine, id), StateTag::Downloading);

    let done = engine.finish_task(
        id,
        TaskOutcome::Completed { filename: Some("file.zip".to_string()) },
        at(99),
    );
    assert_eq!(kinds(&done), vec![EventKind::StateChanged, EventKind::Completed]);
    assert_eq!(moved(&done[0]), Some((StateTag::Downloading, StateTag::Completed)));
    let status = engine.status(id).unwrap();
    assert!(matches!(status.state, DownloadState::Completed));
    assert_eq!(status.completed_at, Some(at(99)));

    assert_eq!(engine.report_progress(id, progress).len(), 0);
    assert!(engine.pause(id).is_err());
    assert!(engine.resume(id).is_err());
}

#[test]
fn test_every_emitted_transition_is_in_the_table() {
    let mut engine = engine_of_width(1);
    let id = add(&mut engine, "https://example.com/file.zip");
    let mut all: Vec<DownloadEvent> = Vec::new();
    all.extend(granted(engine.acquire_permit(id)));
    all.extend(engine.pause(id).unwrap());
    all.extend(engine.resume(id).unwrap());
    all.extend(granted(engine.acquire_permit(id)));
    all.extend(engine.finish_task(id, TaskOutcome::Seeding, at(1)));
    all.extend(engine.finish_task(id, TaskOutcome::Completed { filename: None }, at(2)));
    let mut steps = 0;
    for e in &all {
        if let Some((from, to)) = moved(e) {
            assert!(from.may_become(to), "{:?} -> {:?}", from, to);
            steps += 1;
        }
        assert_eq!(e.id(), id);
    }
    assert_eq!(steps, 6);
}

#[test]
fn test_admission_never_exceeds_the_width() {
    let mut engine = engine_of_width(2);
    let a = add(&mut engine, "https://example.com/a");
    let b = add(&mut engine, "https://example.com/b");
    let c = add(&mut engine, "https://example.com/c");
    assert!(matches!(engine.acquire_permit(a), Admission::Granted { .. }));
    assert!(matches!(engine.acquire_permit(b), Admission::Granted { .. }));
    assert!(matches!(engine.acquire_permit(c), Admission::Wait));
    assert_eq!(tag_of(&engine, c), StateTag::Connecting);
    assert_eq!(engine.global_stats().num_active, 3);
    assert_eq!(engine.permits_in_use, 2);

    assert!(matches!(engine.acquire_permit(a), Admission::NotWaiting));
    assert!(matches!(engine.acquire_permit(DownloadId::from_u128(77)), Admission::NotWaiting));

    engine.pause(a).unwrap();
    assert_eq!(engine.permits_in_use, 1);
    assert!(matches!(engine.acquire_permit(c), Admission::Granted { .. }));
    engine.resume(a).unwrap();
    assert!(matches!(engine.acquire_permit(a), Admission::Wait));
    assert_eq!(engine.permits_in_use, 2);
}

#[test]
fn test_cancel_removes_the_download() {
    let mut engine = engine_of_width(1);
    let id = add(&mut engine, "https://example.com/file.zip");
    granted(engine.acquire_permit(id));
    let plan = engine.cancel(id, true).unwrap();
    assert_eq!(kinds(&plan.events), vec![EventKind::Removed]);
    assert!(plan.cancel_task);
    assert_eq!(plan.save_dir, "/data");
    assert_eq!(plan.delete, vec!["file.zip".to_string(), "file.zip.part".to_string()]);
    assert_eq!(engine.permits_in_use, 0);
    assert!(engine.status(id).is_none());

    assert_eq!(engine.report_progress(id, DownloadProgress::zero()).len(), 0);
    assert_eq!(engine.finish_task(id, TaskOutcome::Completed { filename: None }, at(1)).len(), 0);
    assert_eq!(engine.finish_task(id, TaskOutcome::Cancelled, at(1)).len(), 0);
    assert!(matches!(engine.acquire_permit(id), Admission::NotWaiting));
    assert!(matches!(engine.pause(id), Err(EngineError::NotFound(_))));
    assert!(matches!(engine.resume(id), Err(EngineError::NotFound(_))));
    assert!(matches!(engine.cancel(id, false), Err(EngineError::NotFound(_))));
}

#[test]
fn test_cancel_without_deleting_names_no_file() {
    let mut engine = engine_of_width(1);
    let id = add(&mut engine, "https://example.com/file.zip");
    let plan = engine.cancel(id, false).unwrap();
    assert_eq!(plan.delete.len(), 0);
    let other = add(&mut engine, "https://example.com/");
    let plan = engine.cancel(other, true).unwrap();
    assert_eq!(plan.delete, vec!["download".to_string(), "download.part".to_string()]);
}

#[test]
fn test_not_found_names_the_id() {
    let mut engine = engine_of_width(1);
    let id = DownloadId::from_u128(1);
    match engine.pause(id) {
        Err(EngineError::NotFound(m)) => assert_eq!(m, "00000000-0000-0000-0000-000000000001"),
        other => panic!("paused: {:?}", other),
    }
}

#[test]
fn test_pause_and_resume_only_where_the_table_allows() {
    let mut engine = engine_of_width(1);
    let id = add(&mut engine, "https://example.com/file.zip");
    match engine.pause(id) {
        Err(EngineError::InvalidState { action, current_state }) => {
            assert_eq!(action, "pause");
            assert_eq!(current_state, "connecting");
        }
        other => panic!("paused: {:?}", other),
    }
    match engine.resume(id) {
        Err(EngineError::InvalidState { action, current_state }) => {
            assert_eq!(action, "resume");
            assert_eq!(current_state, "connecting");
        }
        other => panic!("resumed: {:?}", other),
    }
}

#[test]
fn test_failure_is_recorded_with_its_retry_flag() {
    let mut engine = engine_of_width(1);
    let id = add(&mut engine, "https://example.com/file.zip");
    granted(engine.acquire_permit(id));
    let error = EngineError::network(NetworkErrorKind::HttpStatus(404), "gone".to_string());
    let events = engine.finish_task(id, TaskOutcome::Failed(error), at(3));
    assert_eq!(kinds(&events), vec![EventKind::StateChanged, EventKind::Failed]);
    assert_eq!(moved(&events[0]), Some((StateTag::Downloading, StateTag::Error)));
    match &events[1] {
        DownloadEvent::Failed { error, retryable, .. } => {
            assert_eq!(error, "network error: gone");
            assert!(!retryable);
        }
        other => panic!("no failure: {:?}", other),
    }
    match engine.status(id).unwrap().state {
        DownloadState::Error { kind, message, retryable } => {
            assert_eq!(kind, "Network");
            assert_eq!(message, "network error: gone");
            assert!(!retryable);
        }
        other => panic!("no error: {:?}", other),
    }
    assert_eq!(engine.permits_in_use, 0);
}

#[test]
fn test_failure_while_connecting() {
    let mut engine = engine_of_width(1);
    let id = add(&mut engine, "https://example.com/file.zip");
    let error = EngineError::network(NetworkErrorKind::Timeout, "slow".to_string());
    let events = engine.finish_task(id, TaskOutcome::Failed(error), at(3));
    assert_eq!(moved(&events[0]), Some((StateTag::Connecting, StateTag::Error)));
    match &events[1] {
        DownloadEvent::Failed { retryable, .. } => assert!(*retryable),
        other => panic!("no failure: {:?}", other),
    }
}

#[test]
fn test_lists_by_group() {
    let mut engine = engine_of_width(1);
    let a = add(&mut engine, "https://example.com/a");
    let b = add(&mut engine, "https://example.com/b");
    let c = add(&mut engine, "https://example.com/c");
    granted(engine.acquire_permit(a));
    engine.pause(a).unwrap();
    granted(engine.acquire_permit(b));

    let ids = |v: Vec<gosh_dl::types::DownloadStatus>| v.iter().map(|s| s.id).collect::<Vec<_>>();
    assert_eq!(ids(engine.list()), vec![a, b, c]);
    assert_eq!(ids(engine.active()), vec![b, c]);
    assert_eq!(ids(engine.waiting()), Vec::<DownloadId>::new());
    assert_eq!(ids(engine.stopped()), vec![a]);

    let stats = engine.global_stats();
    assert_eq!(stats.num_active, 2);
    assert_eq!(stats.num_waiting, 0);
    assert_eq!(stats.num_stopped, 1);
}

#[test]
fn test_global_stats_sum_the_speeds() {
    let mut engine = engine_of_width(2);
    let a = add(&mut engine, "https://example.com/a");
    let b = add(&mut engine, "https://example.com/b");
    granted(engine.acquire_permit(a));
    granted(engine.acquire_permit(b));
    let mut p = DownloadProgress::zero();
    p.download_speed = 100;
    p.upload_speed = 7;
    engine.report_progress(a, p);
    p.download_speed = 50;
    engine.report_progress(b, p);
    let stats = engine.global_stats();
    assert_eq!(stats.download_speed, 150);
    assert_eq!(stats.upload_speed, 14);
}

#[test]
fn test_raising_the_limit_admits_more() {
    let mut engine = engine_of_width(1);
    let a = add(&mut engine, "https://example.com/a");
    let b = add(&mut engine, "https://example.com/b");
    granted(engine.acquire_permit(a));
    assert!(matches!(engine.acquire_permit(b), Admission::Wait));
    let wider = EngineConfig::with_platform_dir(Some("/data".to_string())).max_concurrent_downloads(4);
    assert!(engine.set_config(wider, present()).is_ok());
    assert_eq!(engine.get_config().max_concurrent_downloads, 4);
    assert!(matches!(engine.acquire_permit(b), Admission::Granted { .. }));
    assert_eq!(engine.permits_in_use, 2);
    let narrower = EngineConfig::with_platform_dir(Some("/data".to_string())).max_concurrent_downloads(1);
    assert!(engine.set_config(narrower, present()).is_ok());
    assert_eq!(engine.permits_in_use, 2);
    assert_eq!(tag_of(&engine, a), StateTag::Downloading);
    assert_eq!(tag_of(&engine, b), StateTag::Downloading);
    let wider = EngineConfig::with_platform_dir(Some("/data".to_string())).max_concurrent_downloads(4);
    assert!(engine.set_config(wider, present()).is_ok());
    let broken = EngineConfig::with_platform_dir(Some("/data".to_string())).max_concurrent_downloads(0);
    assert!(engine.set_config(broken, present()).is_err());
    assert_eq!(engine.get_config().max_concurrent_downloads, 4);
}

#[test]
fn test_shutdown_names_the_running_tasks() {
    let mut engine = engine_of_width(2);
    let a = add(&mut engine, "https://example.com/a");
    let b = add(&mut engine, "https://example.com/b");
    granted(engine.acquire_permit(a));
    engine.finish_task(a, TaskOutcome::Completed { filename: None }, at(1));
    let signalled = engine.shutdown();
    assert_eq!(signalled, vec![b]);
    assert!(engine.shutting_down);
    assert_eq!(engine.shutdown(), Vec::<DownloadId>::new());
    assert_eq!(engine.list().len(), 2);
}

#[test]
fn test_events_of_a_download_come_in_order() {
    let mut engine = engine_of_width(1);
    let (id, mut all) = engine.add_http("https://example.com/file.zip", DownloadOptions::default()).unwrap();
    all.extend(granted(engine.acquire_permit(id)));
    let mut progress = DownloadProgress::zero();
    progress.completed_size = 1;
    all.extend(engine.report_progress(id, progress));
    all.extend(engine.pause(id).unwrap());
    all.extend(engine.report_progress(id, progress));
    all.extend(engine.finish_task(id, TaskOutcome::Cancelled, at(1)));
    let error = EngineError::network(NetworkErrorKind::Timeout, "slow".to_string());
    all.extend(engine.finish_task(id, TaskOutcome::Failed(error), at(2)));
    let own: Vec<EventKind> =
        kinds(&all).into_iter().filter(|k| *k != EventKind::StateChanged).collect();
    assert_eq!(
        own,
        vec![EventKind::Added, EventKind::Started, EventKind::Progress, EventKind::Paused]
    );
    let position = |kind: EventKind| own.iter().position(|k| *k == kind).unwrap();
    assert!(position(EventKind::Added) < position(EventKind::Started));
    assert!(position(EventKind::Started) < position(EventKind::Progress));
}

#[test]
fn test_nothing_follows_the_end() {
    let mut engine = engine_of_width(1);
    let id = add(&mut engine, "https://example.com/file.zip");
    granted(engine.acquire_permit(id));
    let error = EngineError::network(NetworkErrorKind::Timeout, "slow".to_string());
    let failed = engine.finish_task(id, TaskOutcome::Failed(error), at(2));
    assert_eq!(kinds(&failed), vec![EventKind::StateChanged, EventKind::Failed]);
    assert_eq!(engine.finish_task(id, TaskOutcome::Completed { filename: None }, at(3)).len(), 0);
    assert_eq!(engine.report_progress(id, DownloadProgress::zero()).len(), 0);
    assert!(matches!(engine.acquire_permit(id), Admission::NotWaiting));
    assert!(engine.pause(id).is_err());
    assert!(engine.resume(id).is_err());
}

#[test]
fn test_a_lowered_limit_admits_no_one_until_permits_are_back() {
    let mut engine = engine_of_width(3);
    let a = add(&mut engine, "https://example.com/a");
    let b = add(&mut engine, "https://example.com/b");
    let c = add(&mut engine, "https://example.com/c");
    granted(engine.acquire_permit(a));
    granted(engine.acquire_permit(b));
    let narrower = EngineConfig::with_platform_dir(Some("/data".to_string())).max_concurrent_downloads(1);
    assert!(engine.set_config(narrower, present()).is_ok());
    assert_eq!(engine.permits_in_use, 2);
    assert!(matches!(engine.acquire_permit(c), Admission::Wait));
    engine.pause(a).unwrap();
    assert_eq!(engine.permits_in_use, 1);
    assert!(matches!(engine.acquire_permit(c), Admission::Wait));
    engine.finish_task(b, TaskOutcome::Completed { filename: None }, at(3));
    assert_eq!(engine.permits_in_use, 0);
    assert!(matches!(engine.acquire_permit(c), Admission::Granted { .. }));
    assert_eq!(engine.permits_in_use, 1);
    engine.resume(a).unwrap();
    assert!(matches!(engine.acquire_permit(a), Admission::Wait));
}

#[test]
fn test_a_resumed_download_starts_only_once() {
    let mut engine = engine_of_width(1);
    let (id, mut all) = engine.add_http("https://example.com/file.zip", DownloadOptions::default()).unwrap();
    all.extend(granted(engine.acquire_permit(id)));
    all.extend(engine.pause(id).unwrap());
    all.extend(engine.resume(id).unwrap());
    all.extend(granted(engine.acquire_permit(id)));
    all.extend(engine.pause(id).unwrap());
    all.extend(engine.resume(id).unwrap());
    all.extend(granted(engine.acquire_permit(id)));
    all.extend(engine.finish_task(id, TaskOutcome::Completed { filename: None }, at(5)));
    let own: Vec<EventKind> =
        kinds(&all).into_iter().filter(|k| *k != EventKind::StateChanged).collect();
    assert_eq!(
        own,
        vec![
            EventKind::Added,
            EventKind::Started,
            EventKind::Paused,
            EventKind::Resumed,
            EventKind::Paused,
            EventKind::Resumed,
            EventKind::Completed,
        ]
    );
}

#[test]
fn test_an_accepted_url_is_added_to_an_empty_engine() {
    let mut engine = engine_of_width(1);
    let (id, events) = engine.add_http("https://example.com/file.zip", DownloadOptions::default()).unwrap();
    assert_eq!(events.len(), 2);
    assert_eq!((id.value >> 76) & 0xf, 4);
    assert_eq!((id.value >> 62) & 0x3, 2);
    assert_eq!(tag_of(&engine, id), StateTag::Connecting);
}

#[test]
fn test_downloads_are_found_by_id_after_removals() {
    let mut engine = engine_of_width(4);
    let a = add(&mut engine, "https://example.com/a");
    let b = add(&mut engine, "https://example.com/b");
    let c = add(&mut engine, "https://example.com/c");
    assert_eq!(engine.find_index(a), Some(0));
    assert_eq!(engine.find_index(c), Some(2));
    assert!(engine.cancel(a, false).is_ok());
    assert_eq!(engine.find_index(a), None);
    assert_eq!(engine.find_index(b), Some(0));
    assert_eq!(engine.find_index(c), Some(1));
    assert_eq!(engine.status(c).unwrap().metadata.url.as_deref(), Some("https://example.com/c"));
    let d = add(&mut engine, "https://example.com/d");
    assert_eq!(engine.find_index(d), Some(2));
    granted(engine.acquire_permit(c));
    assert_eq!(tag_of(&engine, c), StateTag::Downloading);
    assert_eq!(tag_of(&engine, b), StateTag::Connecting);
    assert!(engine.cancel(c, false).is_ok());
    assert_eq!(engine.find_index(d), Some(1));
    assert_eq!(engine.index.len(), 2);
    let ids: Vec<DownloadId> = engine.list().iter().map(|s| s.id).collect();
    assert_eq!(ids, vec![b, d]);
}
