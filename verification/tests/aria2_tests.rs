use gosh_dl::aria2::client::{
    frame_request, response_body, rpc_address, rpc_error, secret_token, signed_decimal_string,
    Aria2Method, RequestCounter,
};
use gosh_dl::aria2::commands::{get_user_agent_presets, settings_options, speed_limit_options};
use gosh_dl::aria2::db::{download_type_from_url, Settings};
use gosh_dl::aria2::error::Error;
use gosh_dl::aria2::process::{
    aria2_args, binary_names, choose_binary, find_available_port, BinaryChoice,
};
use gosh_dl::aria2::state::{generate_secret, secret_of, DEFAULT_RPC_PORT};
use gosh_dl::aria2::supervisor::{
    connect_retry_delay_ms, health_events, RestartPolicy, SupervisorEvent,
};
use gosh_dl::aria2::tracker::{parse_trackers, TrackerUpdater};
use gosh_dl::aria2::types::{
    AppDownloadState, DownloadOptions, DownloadState, DownloadType, ErrorKind, Gid,
};
use gosh_dl::types::Timestamp;

fn pair(k: &str, v: &str) -> (String, String) {
    (k.to_string(), v.to_string())
}

#[test]
fn test_wire_names() {
    assert_eq!(Aria2Method::AddUri.to_wire_name(), "aria2.addUri");
    assert_eq!(Aria2Method::TellStatus.to_wire_name(), "aria2.tellStatus");
    assert_eq!(Aria2Method::ChangeGlobalOption.to_wire_name(), "aria2.changeGlobalOption");
    assert_eq!(Aria2Method::ForceRemove.to_wire_name(), "aria2.forceRemove");
    assert_eq!(secret_token("s3cret"), "token:s3cret");
    assert_eq!(rpc_address(6800), "127.0.0.1:6800");
}

#[test]
fn test_request_ids_count_up() {
    let mut c = RequestCounter::new();
    assert_eq!(c.next_id(), "1");
    assert_eq!(c.next_id(), "2");
    c.next = u64::MAX;
    assert_eq!(c.next_id(), "18446744073709551615");
    assert_eq!(c.next_id(), "0");
}

#[test]
fn test_request_framing() {
    let body = "{\"jsonrpc\":\"2.0\",\"x\":\"\u{e9}\"}";
    let framed = frame_request(body);
    assert_eq!(
        framed,
        format!(
            "POST /jsonrpc HTTP/1.1\r\nHost: localhost\r\nContent-Type: application/json\r\nContent-Length: {}\r\nConnection: keep-alive\r\n\r\n{}",
            body.len(),
            body
        )
    );
    assert_eq!(body.len(), body.chars().count() + 1);
}

#[test]
fn test_response_body() {
    let r = response_body("HTTP/1.1 200 OK\r\nContent-Length: 2\r\n\r\n{}").unwrap();
    assert_eq!(r, "{}");
    let r = response_body("HTTP/1.1 200 OK\r\n\r\n{\"a\":1}\r\n\r\ntrailer").unwrap();
    assert_eq!(r, "{\"a\":1}");
    let r = response_body("HTTP/1.1 200 OK\r\n\r\n").unwrap();
    assert_eq!(r, "");
    match response_body("HTTP/1.1 200 OK\r\nno blank line") {
        Err(Error::Aria2(m)) => assert_eq!(m, "Invalid HTTP response"),
        other => panic!("read: {:?}", other),
    }
}

#[test]
fn test_rpc_error_text() {
    match rpc_error(-32601, "Method not found") {
        Error::Aria2(m) => assert_eq!(m, "RPC error -32601: Method not found"),
        other => panic!("other error: {:?}", other),
    }
    assert_eq!(signed_decimal_string(0), "0");
    assert_eq!(signed_decimal_string(17), "17");
    assert_eq!(signed_decimal_string(i64::MIN), "-9223372036854775808");
    assert_eq!(signed_decimal_string(i64::MAX), "9223372036854775807");
}

#[test]
fn test_desktop_error_texts() {
    assert_eq!(Error::Aria2NotRunning.describe(), "aria2 not running");
    assert_eq!(Error::Aria2("x".to_string()).describe(), "aria2 error: x");
    assert_eq!(Error::InvalidInput("x".to_string()).describe(), "invalid input: x");
}

#[test]
fn test_desktop_user_agents() {
    let presets = get_user_agent_presets();
    assert_eq!(presets.len(), 7);
    assert_eq!(presets[0], pair("Gosh-Fetch", "Gosh-Fetch/1.0"));
    assert_eq!(presets[5], pair("Wget", "Wget/1.21.4"));
    assert_eq!(presets[6], pair("Curl", "curl/8.5.0"));
    assert!(presets[1].1.contains("Chrome/120.0.0.0"));
    assert!(presets[3].1.contains("Firefox/121.0"));
}

#[test]
fn test_speed_limit_options() {
    assert_eq!(speed_limit_options(None, None), Vec::<(String, String)>::new());
    assert_eq!(
        speed_limit_options(Some(1024), None),
        vec![pair("max-overall-download-limit", "1024")]
    );
    assert_eq!(
        speed_limit_options(Some(0), Some(5)),
        vec![pair("max-overall-download-limit", "0"), pair("max-overall-upload-limit", "5")]
    );
}

#[test]
fn test_desktop_settings() {
    let s = Settings::default();
    assert_eq!(s.max_concurrent_downloads, 5);
    assert_eq!(s.max_connections_per_server, 16);
    assert_eq!(s.split_count, 16);
    assert_eq!(s.user_agent, "Gosh-Fetch/1.0");
    assert_eq!(s.bt_max_peers, 55);
    assert_eq!(s.bt_seed_ratio_permille, 1000);
    assert!(!s.delete_files_on_remove);

    let mut s = Settings::with_download_path("/data".to_string());
    assert_eq!(
        settings_options(&s),
        vec![
            pair("dir", "/data"),
            pair("max-concurrent-downloads", "5"),
            pair("split", "16"),
            pair("max-connection-per-server", "16"),
            pair("user-agent", "Gosh-Fetch/1.0"),
            pair("bt-max-peers", "55"),
            pair("seed-ratio", "1"),
        ]
    );
    s.download_speed_limit = 2048;
    s.upload_speed_limit = 1;
    s.bt_seed_ratio_permille = 1500;
    let options = settings_options(&s);
    assert_eq!(options.len(), 9);
    assert_eq!(options[4], pair("max-overall-download-limit", "2048"));
    assert_eq!(options[5], pair("max-overall-upload-limit", "1"));
    assert_eq!(options[8], pair("seed-ratio", "1.5"));
}

#[test]
fn test_desktop_link_kinds() {
    assert_eq!(download_type_from_url("https://example.com/file.zip"), DownloadType::Http);
    assert_eq!(download_type_from_url("MAGNET:?xt=urn:btih:abc"), DownloadType::Magnet);
    assert_eq!(download_type_from_url("https://example.com/a.TORRENT"), DownloadType::Torrent);
    assert_eq!(download_type_from_url("ftp://example.com/file"), DownloadType::Ftp);
    assert_eq!(download_type_from_url("SFTP://example.com/file"), DownloadType::Ftp);
    assert_eq!(download_type_from_url("ftp://example.com/x.torrent"), DownloadType::Torrent);
}

#[test]
fn test_find_available_port() {
    assert!(matches!(find_available_port(6800, &vec![true]), Ok(6800)));
    assert!(matches!(find_available_port(6800, &vec![false, false, true, true]), Ok(6802)));
    let mut taken = vec![false; 100];
    match find_available_port(6800, &taken) {
        Err(Error::Aria2(m)) => assert_eq!(m, "No available ports in range 6800-6899"),
        other => panic!("found: {:?}", other),
    }
    taken.push(true);
    assert!(find_available_port(6800, &taken).is_err());
    taken[99] = true;
    assert!(matches!(find_available_port(6800, &taken), Ok(6899)));
    match find_available_port(65500, &vec![false; 100]) {
        Err(Error::Aria2(m)) => assert_eq!(m, "No available ports in range 65500-65535"),
        other => panic!("found: {:?}", other),
    }
    assert_eq!(DEFAULT_RPC_PORT, 6800);
}

#[test]
fn test_aria2_arguments() {
    let args = aria2_args(6800, "abc", "/data/session", false, Some(42));
    assert_eq!(args.len(), 24);
    assert_eq!(args[0], "--enable-rpc=true");
    assert_eq!(args[1], "--rpc-listen-port=6800");
    assert_eq!(args[2], "--rpc-secret=abc");
    assert_eq!(args[3], "--rpc-listen-all=false");
    assert!(args.contains(&"--save-session=/data/session".to_string()));
    assert!(args.contains(&"--input-file=/data/session".to_string()));
    assert!(args.contains(&"--file-allocation=falloc".to_string()));
    assert_eq!(args[23], "--stop-with-process=42");
    let mac = aria2_args(6800, "abc", "/data/session", true, None);
    assert_eq!(mac.len(), 23);
    assert!(mac.contains(&"--file-allocation=none".to_string()));
}

#[test]
fn test_binary_lookup() {
    assert_eq!(
        binary_names(true, "x86_64"),
        ("aria2c.exe".to_string(), "aria2c-x86_64.exe".to_string())
    );
    assert_eq!(
        binary_names(false, "aarch64"),
        ("aria2c".to_string(), "aria2c-aarch64-apple-darwin".to_string())
    );
    assert_eq!(choose_binary(true, true, true), BinaryChoice::Development);
    assert_eq!(choose_binary(false, true, true), BinaryChoice::Resource);
    assert_eq!(choose_binary(false, false, true), BinaryChoice::ResourceSuffixed);
    assert_eq!(choose_binary(false, false, false), BinaryChoice::System);
}

#[test]
fn test_secret() {
    let bytes = [0x00, 0x01, 0x0f, 0x10, 0xab, 0xcd, 0xef, 0xff, 1, 2, 3, 4, 5, 6, 7, 8];
    assert_eq!(secret_of(&bytes), "00010f10abcdefff0102030405060708");
    let a = generate_secret();
    let b = generate_secret();
    assert_eq!(a.len(), 32);
    assert!(a.chars().all(|c| c.is_ascii_digit() || ('a'..='f').contains(&c)));
    assert_ne!(a, b);
}

#[test]
fn test_restart_policy() {
    let mut p = RestartPolicy::new();
    assert!(p.begin_check(0).is_ok());
    assert_eq!(p.begin_restart(1000), 1);
    assert_eq!(p.begin_restart(2000), 2);
    assert!(p.begin_check(3000).is_ok());
    assert_eq!(p.begin_restart(3000), 3);
    match p.begin_check(32_999) {
        Err(Error::Aria2(m)) => assert_eq!(m, "Too many restart attempts, waiting for cooldown"),
        other => panic!("allowed: {:?}", other),
    }
    assert_eq!(p.get_restart_count(), 3);
    assert!(p.begin_check(33_000).is_ok());
    assert_eq!(p.get_restart_count(), 0);
    p.begin_shutdown();
    match p.begin_check(99_000) {
        Err(Error::Aria2(m)) => assert_eq!(m, "Supervisor is shutting down"),
        other => panic!("allowed: {:?}", other),
    }
}

#[test]
fn test_health_reports() {
    assert!(matches!(health_events(None, 0)[..], [SupervisorEvent::HealthCheckPassed]));
    let failed = health_events(Some("down".to_string()), 2);
    assert_eq!(failed.len(), 1);
    assert!(matches!(
        &failed[0],
        SupervisorEvent::HealthCheckFailed { error, restart_count: 2 } if error == "down"
    ));
    let last = health_events(Some("down".to_string()), 3);
    assert_eq!(last.len(), 2);
    assert!(matches!(last[1], SupervisorEvent::MaxRestartsReached));
    assert_eq!(connect_retry_delay_ms(1), 200);
    assert_eq!(connect_retry_delay_ms(5), 1000);
}

#[test]
fn test_tracker_list() {
    let text = "udp://a.example:1/announce\n\n  udp://b.example:2/announce  \r\n\n\t\nhttp://c.example/announce";
    let expected = vec![
        "udp://a.example:1/announce".to_string(),
        "udp://b.example:2/announce".to_string(),
        "http://c.example/announce".to_string(),
    ];
    assert_eq!(parse_trackers(text), expected);
    assert_eq!(parse_trackers(""), Vec::<String>::new());

    let mut u = TrackerUpdater::new();
    assert!(u.needs_update());
    assert_eq!(u.get_tracker_string(), "");
    let now = Timestamp { secs: 1_000_000, nanos: 0 };
    assert_eq!(u.store_fetched(text, now), expected);
    assert_eq!(u.get_trackers(), &expected);
    assert_eq!(
        u.get_tracker_string(),
        "udp://a.example:1/announce,udp://b.example:2/announce,http://c.example/announce"
    );
    assert!(!u.needs_update_at(&Timestamp { secs: 1_000_000 + 24 * 3600 - 1, nanos: 0 }));
    assert!(u.needs_update_at(&Timestamp { secs: 1_000_000 + 24 * 3600, nanos: 0 }));
}

#[test]
fn test_error_kinds_of_exit_codes() {
    assert_eq!(ErrorKind::from_code(2), ErrorKind::Timeout);
    assert_eq!(ErrorKind::from_code(3), ErrorKind::NotFound);
    assert_eq!(ErrorKind::from_code(6), ErrorKind::NetworkError);
    assert_eq!(ErrorKind::from_code(7), ErrorKind::ResumeNotSupported);
    assert_eq!(ErrorKind::from_code(13), ErrorKind::AlreadyExists);
    assert_eq!(ErrorKind::from_code(24), ErrorKind::AuthRequired);
    assert_eq!(ErrorKind::from_code(1), ErrorKind::Unknown);
    assert_eq!(ErrorKind::from_code(-5), ErrorKind::Unknown);
    assert_eq!(ErrorKind::NotFound.message(), "File not found (404)");
    assert_eq!(ErrorKind::FileError.message(), "File operation failed");
    assert_eq!(ErrorKind::Unknown.message(), "Download failed");
}

#[test]
fn test_shown_state() {
    assert!(matches!(AppDownloadState::from_aria2("active", 10, 0, None, None), AppDownloadState::Downloading));
    assert!(matches!(AppDownloadState::from_aria2("active", 0, 30, None, None), AppDownloadState::Downloading));
    assert!(matches!(AppDownloadState::from_aria2("active", 0, 31, None, None), AppDownloadState::Stalled));
    assert!(matches!(AppDownloadState::from_aria2("active", 1, 31, None, None), AppDownloadState::Downloading));
    assert!(matches!(AppDownloadState::from_aria2("waiting", 0, 0, None, None), AppDownloadState::Queued));
    assert!(matches!(AppDownloadState::from_aria2("paused", 0, 0, None, None), AppDownloadState::Paused));
    assert!(matches!(AppDownloadState::from_aria2("complete", 0, 0, None, None), AppDownloadState::Completed));
    assert!(matches!(AppDownloadState::from_aria2("whatever", 0, 0, None, None), AppDownloadState::Queued));
    match AppDownloadState::from_aria2("error", 0, 0, Some(3), None) {
        AppDownloadState::Error { kind, message } => {
            assert_eq!(kind, ErrorKind::NotFound);
            assert_eq!(message, "File not found (404)");
        }
        other => panic!("no error: {:?}", other),
    }
    match AppDownloadState::from_aria2("removed", 0, 0, None, Some("gone")) {
        AppDownloadState::Error { kind, message } => {
            assert_eq!(kind, ErrorKind::Unknown);
            assert_eq!(message, "gone");
        }
        other => panic!("no error: {:?}", other),
    }
}

#[test]
fn test_shown_state_predicates() {
    let retrying = AppDownloadState::Retrying { attempt: 2, max_attempts: 5 };
    assert!(retrying.is_active());
    assert!(!retrying.is_finished());
    assert!(!retrying.can_resume());
    assert_eq!(retrying.to_name(), "retrying (2/5)");
    assert!(AppDownloadState::Stalled.is_active());
    assert!(AppDownloadState::Stalled.can_resume());
    assert!(AppDownloadState::Paused.can_resume());
    assert!(!AppDownloadState::Paused.is_active());
    assert!(AppDownloadState::Completed.is_finished());
    assert!(!AppDownloadState::Completed.can_resume());
    let failed = AppDownloadState::Error { kind: ErrorKind::Timeout, message: "x".to_string() };
    assert!(failed.is_finished());
    assert!(failed.can_resume());
    assert_eq!(failed.to_name(), "error");
    assert!(matches!(AppDownloadState::default(), AppDownloadState::Queued));
    assert_eq!(AppDownloadState::Queued.to_name(), "queued");
}

#[test]
fn test_gid() {
    let g = Gid::new("0123456789abcDEF".to_string()).unwrap();
    assert_eq!(g.as_str(), "0123456789abcDEF");
    assert_eq!(g.into_inner(), "0123456789abcDEF");
    for bad in ["", "0123456789abcde", "0123456789abcdef0", "0123456789abcdeg"] {
        match Gid::new(bad.to_string()) {
            Err(e) => assert_eq!(e.describe(), format!("Invalid GID format: {}", bad)),
            Ok(g) => panic!("accepted: {:?}", g),
        }
    }
    assert_eq!(Gid::from_aria2("xyz".to_string()).as_str(), "xyz");
}

#[test]
fn test_options_for_aria2() {
    let mut o = DownloadOptions::default();
    assert_eq!(o.to_pairs(), Vec::<(String, String)>::new());
    o.dir = Some("/data".to_string());
    o.seed_ratio = Some("1.0".to_string());
    o.max_connection_per_server = Some("8".to_string());
    o.header = Some(vec!["X: y".to_string()]);
    assert_eq!(
        o.to_pairs(),
        vec![pair("dir", "/data"), pair("max-connection-per-server", "8"), pair("seed-ratio", "1.0")]
    );
}

#[test]
fn test_desktop_state_names() {
    for s in [
        DownloadState::Active,
        DownloadState::Waiting,
        DownloadState::Paused,
        DownloadState::Complete,
        DownloadState::Error,
        DownloadState::Removed,
    ] {
        assert_eq!(DownloadState::from_name(&s.to_name()), s);
    }
    assert_eq!(DownloadState::from_name("nonsense"), DownloadState::Waiting);
    assert_eq!(DownloadType::Ftp.to_name(), "ftp");
}

#[test]
fn test_tracker_list_is_due_by_the_clock() {
    let mut u = TrackerUpdater::new();
    assert!(u.needs_update());
    u.store_fetched("udp://a.example:1", Timestamp::now());
    assert!(!u.needs_update());
    u.store_fetched("udp://a.example:1", Timestamp { secs: 0, nanos: 0 });
    assert!(u.needs_update());
    let now = Timestamp::now();
    assert_eq!(u.needs_update(), u.needs_update_at(&now));
}
