use gosh_dl::error::{EngineError, NetworkErrorKind, ProtocolErrorKind, StorageErrorKind};
use gosh_dl::types::{
    eta, ChecksumAlgorithm, DownloadEvent, DownloadId, DownloadPriority, DownloadProgress,
    EventKind, ExpectedChecksum, StateTag, Timestamp,
};

#[test]
fn test_id_text_is_the_canonical_uuid() {
    let id = DownloadId::from_u128(0x0123_4567_89ab_cdef_0011_2233_4455_6677);
    assert_eq!(id.to_text(), "01234567-89ab-cdef-0011-223344556677");
    assert_eq!(DownloadId::from_u128(0).to_text(), "00000000-0000-0000-0000-000000000000");
}

#[test]
fn test_id_text_round_trip() {
    let id = DownloadId::from_u128(0xdead_beef_0000_0000_0000_0000_0000_0001);
    assert_eq!(DownloadId::parse(&id.to_text()), Some(id));
    assert_eq!(DownloadId::parse_uuid(&id.to_text()), Some(id));
    let fresh = DownloadId::new();
    assert_eq!(DownloadId::parse(&fresh.to_text()), Some(fresh));
}

#[test]
fn test_parse_uuid_in_upper_case() {
    let id = DownloadId::parse("01234567-89AB-CDEF-0011-223344556677");
    assert_eq!(id, Some(DownloadId::from_u128(0x0123_4567_89ab_cdef_0011_2233_4455_6677)));
}

#[test]
fn test_gid_is_the_upper_half() {
    let id = DownloadId::from_u128(0x0123_4567_89ab_cdef_0011_2233_4455_6677);
    assert_eq!(id.to_gid(), "0123456789abcdef");
    let back = DownloadId::from_gid("0123456789abcdef").unwrap();
    assert_eq!(back.as_u128(), 0x0123_4567_89ab_cdef_0000_0000_0000_0000);
    assert_eq!(DownloadId::parse("0123456789ABCDEF"), Some(back));
}

#[test]
fn test_gid_of_wrong_shape() {
    assert_eq!(DownloadId::from_gid("0123456789abcde"), None);
    assert_eq!(DownloadId::from_gid("0123456789abcdef0"), None);
    assert_eq!(DownloadId::from_gid("0123456789abcdeg"), None);
    assert_eq!(DownloadId::from_gid(""), None);
    assert_eq!(DownloadId::parse("not an id"), None);
}

#[test]
fn test_from_parsed_prefers_the_uuid() {
    assert_eq!(DownloadId::from_parsed(Some(7), "0123456789abcdef"), Some(DownloadId::from_u128(7)));
    assert_eq!(
        DownloadId::from_parsed(None, "00000000000000ff"),
        Some(DownloadId::from_u128(0xff << 64))
    );
    assert_eq!(DownloadId::from_parsed(None, "x"), None);
}

#[test]
fn test_timestamp_text_round_trip() {
    let t = Timestamp { secs: 1_700_000_000, nanos: 123_000_000 };
    let text = t.to_rfc3339().unwrap();
    assert_eq!(text, "2023-11-14T22:13:20.123+00:00");
    assert_eq!(Timestamp::parse_rfc3339(&text), Some(t));
    assert_eq!(Timestamp::parse_rfc3339("yesterday"), None);
}

#[test]
fn test_timestamp_reads_other_offsets() {
    let t = Timestamp::parse_rfc3339("1970-01-01T01:00:00+01:00");
    assert_eq!(t, Some(Timestamp { secs: 0, nanos: 0 }));
}

#[test]
fn test_timestamp_outside_the_calendar() {
    let t = Timestamp { secs: i64::MAX, nanos: 0 };
    assert_eq!(t.to_rfc3339(), None);
}

#[test]
fn test_timestamp_now_has_a_text() {
    let now = Timestamp::now();
    let text = now.to_rfc3339().unwrap();
    assert_eq!(Timestamp::parse_rfc3339(&text), Some(now));
}

#[test]
fn test_hours_between() {
    let start = Timestamp { secs: 1000, nanos: 500 };
    let day_later = Timestamp { secs: 1000 + 24 * 3600, nanos: 500 };
    let just_short = Timestamp { secs: 1000 + 24 * 3600, nanos: 499 };
    assert!(day_later.at_least_hours_after(&start, 24));
    assert!(!just_short.at_least_hours_after(&start, 24));
    assert!(just_short.at_least_hours_after(&start, 23));
    assert!(start.at_least_hours_after(&day_later, 0) == false);
    assert!(start.at_least_hours_after(&start, 0));
}

#[test]
fn test_state_names() {
    assert_eq!(StateTag::Queued.to_name(), "queued");
    assert_eq!(StateTag::Connecting.to_name(), "connecting");
    assert_eq!(StateTag::Downloading.to_name(), "downloading");
    assert_eq!(StateTag::Seeding.to_name(), "seeding");
    assert_eq!(StateTag::Paused.to_name(), "paused");
    assert_eq!(StateTag::Completed.to_name(), "completed");
    assert_eq!(StateTag::Error.to_name(), "error");
}

#[test]
fn test_transition_table() {
    let all = [
        StateTag::Queued,
        StateTag::Connecting,
        StateTag::Downloading,
        StateTag::Seeding,
        StateTag::Paused,
        StateTag::Completed,
        StateTag::Error,
    ];
    let allowed = [
        (StateTag::Queued, StateTag::Connecting),
        (StateTag::Connecting, StateTag::Downloading),
        (StateTag::Connecting, StateTag::Error),
        (StateTag::Downloading, StateTag::Paused),
        (StateTag::Downloading, StateTag::Completed),
        (StateTag::Downloading, StateTag::Seeding),
        (StateTag::Downloading, StateTag::Error),
        (StateTag::Seeding, StateTag::Completed),
        (StateTag::Paused, StateTag::Connecting),
    ];
    for from in all {
        for to in all {
            assert_eq!(from.may_become(to), allowed.contains(&(from, to)), "{:?} -> {:?}", from, to);
        }
    }
}

#[test]
fn test_active_and_stopped_states() {
    assert!(StateTag::Downloading.is_active());
    assert!(StateTag::Seeding.is_active());
    assert!(StateTag::Connecting.is_active());
    assert!(!StateTag::Paused.is_active());
    assert!(!StateTag::Queued.is_active());
    assert!(StateTag::Paused.is_stopped());
    assert!(StateTag::Completed.is_stopped());
    assert!(StateTag::Error.is_stopped());
    assert!(!StateTag::Downloading.is_stopped());
}

#[test]
fn test_eta() {
    assert_eq!(eta(1000, 10), Some(100));
    assert_eq!(eta(1000, 3), Some(333));
    assert_eq!(eta(1000, 0), None);
    assert_eq!(eta(0, 5), Some(0));
    let zero = DownloadProgress::zero();
    assert_eq!(zero.completed_size, 0);
    assert_eq!(zero.total_size, None);
    assert_eq!(zero.eta_seconds, None);
    assert_eq!(zero, DownloadProgress::default());
}

#[test]
fn test_event_names() {
    assert_eq!(EventKind::Added.to_name(), "download:added");
    assert_eq!(EventKind::Started.to_name(), "download:started");
    assert_eq!(EventKind::Progress.to_name(), "download:progress");
    assert_eq!(EventKind::StateChanged.to_name(), "download:state-changed");
    assert_eq!(EventKind::Completed.to_name(), "download:completed");
    assert_eq!(EventKind::Failed.to_name(), "download:failed");
    assert_eq!(EventKind::Removed.to_name(), "download:removed");
    assert_eq!(EventKind::Paused.to_name(), "download:paused");
    assert_eq!(EventKind::Resumed.to_name(), "download:resumed");
}

#[test]
fn test_event_id_and_kind() {
    let id = DownloadId::from_u128(9);
    let e = DownloadEvent::Failed { id, error: "boom".to_string(), retryable: true };
    assert_eq!(e.id(), id);
    assert_eq!(e.kind(), EventKind::Failed);
    let a = DownloadEvent::Added { id };
    assert_eq!(a.kind(), EventKind::Added);
}

#[test]
fn test_priority_words() {
    assert_eq!(DownloadPriority::parse("low"), Some(DownloadPriority::Low));
    assert_eq!(DownloadPriority::parse("Normal"), Some(DownloadPriority::Normal));
    assert_eq!(DownloadPriority::parse("HIGH"), Some(DownloadPriority::High));
    assert_eq!(DownloadPriority::parse("critical"), Some(DownloadPriority::Critical));
    assert_eq!(DownloadPriority::parse("urgent"), None);
    assert_eq!(DownloadPriority::parse(""), None);
}

#[test]
fn test_checksum_text() {
    let md5 = ExpectedChecksum::parse("md5:d41d8cd9").unwrap();
    assert_eq!(md5.algorithm, ChecksumAlgorithm::Md5);
    assert_eq!(md5.value, "d41d8cd9");
    let sha = ExpectedChecksum::parse("SHA256:AB:CD").unwrap();
    assert_eq!(sha.algorithm, ChecksumAlgorithm::Sha256);
    assert_eq!(sha.value, "AB:CD");
    assert!(ExpectedChecksum::parse("sha1:abcd").is_none());
    assert!(ExpectedChecksum::parse("md5").is_none());
}

#[test]
fn test_retryable_errors() {
    let net = |kind| EngineError::network(kind, "x".to_string());
    assert!(net(NetworkErrorKind::Timeout).is_retryable());
    assert!(net(NetworkErrorKind::Dns).is_retryable());
    assert!(net(NetworkErrorKind::Tls).is_retryable());
    assert!(net(NetworkErrorKind::Other).is_retryable());
    assert!(net(NetworkErrorKind::HttpStatus(500)).is_retryable());
    assert!(net(NetworkErrorKind::HttpStatus(503)).is_retryable());
    assert!(net(NetworkErrorKind::HttpStatus(408)).is_retryable());
    assert!(net(NetworkErrorKind::HttpStatus(429)).is_retryable());
    assert!(!net(NetworkErrorKind::HttpStatus(404)).is_retryable());
    assert!(!net(NetworkErrorKind::HttpStatus(400)).is_retryable());
    assert!(!net(NetworkErrorKind::HttpStatus(499)).is_retryable());
    assert!(net(NetworkErrorKind::HttpStatus(399)).is_retryable());

    let store = |kind| EngineError::storage(kind, "/p", "x".to_string());
    assert!(store(StorageErrorKind::Io).is_retryable());
    assert!(!store(StorageErrorKind::AllocFailed).is_retryable());
    assert!(!store(StorageErrorKind::PermissionDenied).is_retryable());

    assert!(!EngineError::invalid_input("f", "m".to_string()).is_retryable());
    assert!(!EngineError::protocol(ProtocolErrorKind::PeerProtocol, "m".to_string()).is_retryable());
    assert!(!EngineError::NotFound("x".to_string()).is_retryable());
    assert!(!EngineError::Database("x".to_string()).is_retryable());
    assert!(!EngineError::Shutdown.is_retryable());
    assert!(!EngineError::Internal("x".to_string()).is_retryable());
    let state = EngineError::InvalidState { action: "pause".to_string(), current_state: "paused".to_string() };
    assert!(!state.is_retryable());
}

#[test]
fn test_error_texts() {
    assert_eq!(
        EngineError::invalid_input("url", "bad".to_string()).describe(),
        "invalid input for url: bad"
    );
    assert_eq!(EngineError::NotFound("abc".to_string()).describe(), "not found: abc");
    assert_eq!(EngineError::Shutdown.describe(), "engine is shutting down");
    let status = EngineError::http_status(404, "probe");
    assert_eq!(status.describe(), "network error: probe: HTTP 404");
    assert_eq!(status.kind_name(), "Network");
    assert_eq!(EngineError::Database("x".to_string()).kind_name(), "Database");
}

#[test]
fn test_fresh_ids_are_random_uuids() {
    for _ in 0..32 {
        let text = DownloadId::new().to_text();
        let chars: Vec<char> = text.chars().collect();
        assert_eq!(chars[14], '4', "{}", text);
        assert!("89ab".contains(chars[19]), "{}", text);
    }
    assert_ne!(DownloadId::new(), DownloadId::new());
}

#[test]
fn test_the_clock_reads_after_the_epoch() {
    let now = Timestamp::now();
    assert!(now.secs >= 0);
    assert!(now.nanos < 1_000_000_000);
    assert!(now.secs > 1_600_000_000);
}
