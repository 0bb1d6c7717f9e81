use gosh_dl::sidecar::db::{
    download_type_from_url, expand_tilde, expand_tilde_with, format_permille, parse_permille,
    pending_migrations, Settings, SCHEMA_VERSION,
};
use gosh_dl::sidecar::engine_adapter::{parse_gid_public, parse_speed, sanitize_filename};
use gosh_dl::sidecar::error::Error;
use gosh_dl::sidecar::rpc_server::{
    is_private_ip, is_request_line, parse_ipv4, validate_download_url, validate_torrent_path,
    RpcMethod, MAX_URL_LENGTH,
};
use gosh_dl::sidecar::types::DownloadType;
use gosh_dl::torrent::IpBits;

fn on_disk(path: &str) -> bool {
    std::path::Path::new(path).exists()
}

fn v4(text: &str) -> IpBits {
    IpBits::V4(parse_ipv4(text).unwrap())
}

#[test]
fn test_download_type_from_url() {
    assert_eq!(download_type_from_url("https://example.com/file.zip"), DownloadType::Http);
    assert_eq!(download_type_from_url("https://example.com/file.torrent"), DownloadType::Torrent);
    assert_eq!(download_type_from_url("magnet:?xt=urn:btih:abc"), DownloadType::Magnet);
    assert_eq!(download_type_from_url("MAGNET:?xt=urn:btih:abc"), DownloadType::Magnet);
    assert_eq!(download_type_from_url("https://example.com/torrent/details"), DownloadType::Torrent);
}

#[test]
fn test_download_type_ignores_case_of_extension() {
    assert_eq!(download_type_from_url("https://example.com/FILE.TORRENT"), DownloadType::Torrent);
    assert_eq!(download_type_from_url("ftp://example.com/file"), DownloadType::Http);
}

#[test]
fn test_expand_tilde() {
    let expanded = expand_tilde("~/Downloads");
    assert!(!expanded.starts_with("~"));
    assert!(expanded.ends_with("/Downloads"));

    assert_eq!(expand_tilde("/absolute/path"), "/absolute/path");
    assert_eq!(expand_tilde("relative/path"), "relative/path");
}

#[test]
fn test_expand_tilde_with_home() {
    let home = Some("/home/ada".to_string());
    assert_eq!(expand_tilde_with("~/Downloads", &home), "/home/ada/Downloads");
    assert_eq!(expand_tilde_with("~", &home), "/home/ada");
    assert_eq!(expand_tilde_with("~name/x", &home), "~name/x");
    assert_eq!(expand_tilde_with("~/Downloads", &None), "~/Downloads");
}

#[test]
fn test_default_settings() {
    let settings = Settings::default();
    assert_eq!(settings.max_concurrent_downloads, 5);
    assert_eq!(settings.max_connections_per_server, 8);
    assert!(settings.enable_notifications);
    assert!(settings.close_to_tray);
    assert_eq!(settings.theme, "dark");
    assert!(settings.bt_enable_dht);
    assert_eq!(settings.bt_seed_ratio_permille, 1000);
    assert_eq!(settings.connect_timeout, 30);
    assert_eq!(settings.read_timeout, 60);
    assert_eq!(settings.max_retries, 3);
    assert_eq!(settings.allocation_mode, "sparse");
}

#[test]
fn test_settings_apply_and_pairs() {
    let mut settings = Settings::with_download_path("/data".to_string());
    let home = Some("/home/ada".to_string());
    settings.apply("max_concurrent_downloads", "9", &home);
    settings.apply("theme", "light", &home);
    settings.apply("download_path", "~/dl", &home);
    settings.apply("bt_seed_ratio", "1.5", &home);
    settings.apply("max_retries", "not a number", &home);
    settings.apply("unknown_key", "1", &home);
    assert_eq!(settings.max_concurrent_downloads, 9);
    assert_eq!(settings.theme, "light");
    assert_eq!(settings.download_path, "/home/ada/dl");
    assert_eq!(settings.bt_seed_ratio_permille, 1500);
    assert_eq!(settings.max_retries, 3);

    let pairs = settings.to_pairs();
    let mut again = Settings::with_download_path("/elsewhere".to_string());
    again.apply_all(&pairs, &None);
    assert_eq!(again.max_concurrent_downloads, 9);
    assert_eq!(again.theme, "light");
    assert_eq!(again.download_path, "/home/ada/dl");
    assert_eq!(again.bt_seed_ratio_permille, 1500);
}

#[test]
fn test_permille_text() {
    assert_eq!(parse_permille("1.0"), Some(1000));
    assert_eq!(parse_permille("2"), Some(2000));
    assert_eq!(parse_permille("0.25"), Some(250));
    assert_eq!(parse_permille("abc"), None);
    assert_eq!(format_permille(1000), "1");
    assert_eq!(format_permille(1500), "1.5");
    assert_eq!(format_permille(250), "0.25");
    assert_eq!(parse_permille(&format_permille(1234)), Some(1234));
}

#[test]
fn test_pending_migrations() {
    assert_eq!(pending_migrations(0), vec![1]);
    assert_eq!(pending_migrations(SCHEMA_VERSION), Vec::<i64>::new());
    assert_eq!(pending_migrations(7), Vec::<i64>::new());
}

#[test]
fn test_parse_speed() {
    assert_eq!(parse_speed("1024"), Some(1024));
    assert_eq!(parse_speed("1K"), Some(1024));
    assert_eq!(parse_speed("1M"), Some(1024 * 1024));
    assert_eq!(parse_speed("2G"), Some(2 * 1024 * 1024 * 1024));
}

#[test]
fn test_parse_speed_edges() {
    assert_eq!(parse_speed("  3k "), Some(3072));
    assert_eq!(parse_speed(""), None);
    assert_eq!(parse_speed("K"), None);
    assert_eq!(parse_speed("12X"), None);
    assert_eq!(parse_speed("99999999999999999999"), None);
    assert_eq!(parse_speed("18446744073709551615G"), None);
}

#[test]
fn test_sanitize_filename_illegal_chars() {
    assert_eq!(sanitize_filename("file<>name"), "file__name");
    assert_eq!(sanitize_filename("file:name"), "file_name");
    assert_eq!(sanitize_filename("a|b?c*d"), "a_b_c_d");
}

#[test]
fn test_sanitize_filename_trailing_dots_spaces() {
    assert_eq!(sanitize_filename("file..."), "file");
    assert_eq!(sanitize_filename("file   "), "file");
    assert_eq!(sanitize_filename("file. ."), "file");
}

#[test]
fn test_sanitize_filename_reserved_names() {
    assert_eq!(sanitize_filename("CON"), "_CON");
    assert_eq!(sanitize_filename("con.txt"), "_con.txt");
    assert_eq!(sanitize_filename("NUL.tar.gz"), "_NUL.tar.gz");
    assert_eq!(sanitize_filename("LPT1"), "_LPT1");
}

#[test]
fn test_sanitize_filename_empty() {
    assert_eq!(sanitize_filename(""), "download");
    assert_eq!(sanitize_filename("..."), "download");
}

#[test]
fn test_sanitize_filename_normal() {
    assert_eq!(sanitize_filename("my-file.zip"), "my-file.zip");
    assert_eq!(sanitize_filename("photo (1).jpg"), "photo (1).jpg");
}

#[test]
fn test_sanitize_filename_separators_and_controls() {
    assert_eq!(sanitize_filename("a/b\\c"), "a_b_c");
    assert_eq!(sanitize_filename("tab\there"), "tab_here");
    assert_eq!(sanitize_filename("quote\"d"), "quote_d");
}

#[test]
fn test_error_codes() {
    assert_eq!(Error::Engine("test".into()).code(), -1);
    assert_eq!(Error::EngineNotInitialized.code(), -2);
    assert_eq!(Error::Database("test".into()).code(), -3);
    assert_eq!(Error::InvalidInput("test".into()).code(), -7);
    assert_eq!(Error::NotFound("test".into()).code(), -8);
    assert_eq!(Error::Network("test".into()).code(), -9);
}

#[test]
fn test_error_codes_of_the_rest() {
    assert_eq!(Error::Io("test".into()).code(), -4);
    assert_eq!(Error::Serialization("test".into()).code(), -5);
    assert_eq!(Error::Rusqlite("test".into()).code(), -6);
}

#[test]
fn test_error_display() {
    let e = Error::InvalidInput("bad url".into());
    assert_eq!(e.describe(), "invalid input: bad url");
}

#[test]
fn test_validate_download_url_valid() {
    assert!(validate_download_url("https://example.com/file.zip").is_ok());
    assert!(validate_download_url("http://example.com/file.zip").is_ok());
    assert!(validate_download_url("magnet:?xt=urn:btih:abc123").is_ok());
}

#[test]
fn test_validate_download_url_empty() {
    assert!(validate_download_url("").is_err());
}

#[test]
fn test_validate_download_url_bad_scheme() {
    assert!(validate_download_url("file:///etc/passwd").is_err());
    assert!(validate_download_url("ftp://example.com/file").is_err());
    assert!(validate_download_url("javascript:alert(1)").is_err());
}

#[test]
fn test_validate_download_url_too_long() {
    let long_url = format!("https://example.com/{}", "a".repeat(MAX_URL_LENGTH));
    assert!(validate_download_url(&long_url).is_err());
}

#[test]
fn test_validate_download_url_private_ips() {
    assert!(validate_download_url("http://127.0.0.1/file").is_err());
    assert!(validate_download_url("http://192.168.1.1/file").is_err());
    assert!(validate_download_url("http://10.0.0.1/file").is_err());
    assert!(validate_download_url("http://172.16.0.1/file").is_err());
    assert!(validate_download_url("http://0.0.0.0/file").is_err());
}

#[test]
fn test_validate_download_url_errors_are_invalid_input() {
    assert!(matches!(validate_download_url(""), Err(Error::InvalidInput(_))));
    assert!(matches!(validate_download_url("http://10.0.0.1/file"), Err(Error::InvalidInput(_))));
    assert!(validate_download_url("http://8.8.8.8/file").is_ok());
}

#[test]
fn test_is_private_ip() {
    assert!(is_private_ip(&v4("127.0.0.1")));
    assert!(is_private_ip(&v4("10.0.0.1")));
    assert!(is_private_ip(&v4("192.168.0.1")));
    assert!(is_private_ip(&v4("172.16.0.1")));
    assert!(is_private_ip(&v4("169.254.1.1")));
    assert!(is_private_ip(&IpBits::V6(1)));

    assert!(!is_private_ip(&v4("8.8.8.8")));
    assert!(!is_private_ip(&v4("1.1.1.1")));
}

#[test]
fn test_parse_ipv4() {
    assert_eq!(parse_ipv4("1.2.3.4"), Some(0x0102_0304));
    assert_eq!(parse_ipv4("255.255.255.255"), Some(u32::MAX));
    assert_eq!(parse_ipv4("256.0.0.1"), None);
    assert_eq!(parse_ipv4("1.2.3"), None);
    assert_eq!(parse_ipv4("example.com"), None);
}

#[test]
fn test_validate_torrent_path_empty() {
    assert!(validate_torrent_path("", on_disk("")).is_err());
}

#[test]
fn test_validate_torrent_path_wrong_extension() {
    assert!(validate_torrent_path("/tmp/file.zip", on_disk("/tmp/file.zip")).is_err());
}

#[test]
fn test_validate_torrent_path_nonexistent() {
    let path = "/nonexistent/path/file.torrent";
    assert!(validate_torrent_path(path, on_disk(path)).is_err());
}

#[test]
fn test_validate_torrent_path_accepts_an_existing_torrent() {
    assert!(validate_torrent_path("/data/File.TORRENT", true).is_ok());
    match validate_torrent_path("/data/a.torrent", false) {
        Err(Error::InvalidInput(m)) => assert_eq!(m, "Torrent file does not exist: /data/a.torrent"),
        other => panic!("accepted: {:?}", other),
    }
}

#[test]
fn test_rpc_method_names() {
    let all = RpcMethod::all();
    assert_eq!(all.len(), 43);
    for m in all {
        let back = RpcMethod::from_name(m.to_name());
        assert!(matches!(back, Ok(b) if b == m));
    }
    assert!(RpcMethod::from_name("no_such_method").is_err());
    assert!(is_request_line("{\"jsonrpc\":\"2.0\"}"));
    assert!(!is_request_line("   "));
}

#[test]
fn test_parse_gid_public() {
    let id = parse_gid_public("00000000-0000-0000-0000-00000000002a");
    assert!(matches!(id, Ok(d) if d.as_u128() == 42));
    assert!(matches!(parse_gid_public("zz"), Err(Error::NotFound(m)) if m == "Invalid GID: zz"));
}

fn history_db() -> rusqlite::Connection {
    let conn = rusqlite::Connection::open_in_memory().unwrap();
    for version in pending_migrations(0) {
        assert_eq!(version, 1);
        conn.execute_batch(gosh_dl::sidecar::db::MIGRATION_001).unwrap();
    }
    conn
}

fn stored_version(conn: &rusqlite::Connection) -> i64 {
    conn.query_row("SELECT COALESCE(MAX(version), 0) FROM schema_version", [], |r| r.get(0))
        .unwrap()
}

fn stored_settings(conn: &rusqlite::Connection) -> Settings {
    let mut stmt = conn.prepare("SELECT key, value FROM settings").unwrap();
    let rows: Vec<(String, String)> = stmt
        .query_map([], |row| Ok((row.get::<_, String>(0)?, row.get::<_, String>(1)?)))
        .unwrap()
        .map(|r| r.unwrap())
        .collect();
    let mut settings = Settings::default();
    settings.apply_all(&rows, &None);
    settings
}

#[test]
fn test_settings_round_trip() {
    let conn = history_db();
    let settings = stored_settings(&conn);
    assert_eq!(settings.max_concurrent_downloads, 5);
    assert_eq!(settings.theme, "dark");
}

#[test]
fn test_settings_survive_the_table() {
    let conn = history_db();
    let mut settings = Settings::with_download_path("/dl".to_string());
    settings.max_concurrent_downloads = 7;
    settings.bt_seed_ratio_permille = 2250;
    settings.theme = "light".to_string();
    for (key, value) in settings.to_pairs() {
        conn.execute(
            "INSERT OR REPLACE INTO settings (key, value, updated_at) VALUES (?1, ?2, datetime('now'))",
            [key.as_str(), value.as_str()],
        )
        .unwrap();
    }
    let back = stored_settings(&conn);
    assert_eq!(back.download_path, "/dl");
    assert_eq!(back.max_concurrent_downloads, 7);
    assert_eq!(back.bt_seed_ratio_permille, 2250);
    assert_eq!(back.theme, "light");
    assert_eq!(back.to_pairs(), settings.to_pairs());
}

#[test]
fn test_migration_idempotent() {
    let conn = history_db();
    assert_eq!(stored_version(&conn), SCHEMA_VERSION);
    // Running migrations again should not fail
    assert_eq!(pending_migrations(stored_version(&conn)), Vec::<i64>::new());
    conn.execute_batch(gosh_dl::sidecar::db::MIGRATION_001).unwrap();
    assert_eq!(stored_version(&conn), SCHEMA_VERSION);
    let settings = stored_settings(&conn);
    assert_eq!(settings.max_concurrent_downloads, 5);
}

#[test]
fn test_engine_errors_at_the_front_end() {
    use_engine_error(
        gosh_dl::error::EngineError::NotFound("abc".to_string()),
        -8,
        "not found: abc",
    );
    use_engine_error(
        gosh_dl::error::EngineError::invalid_input("url", "bad".to_string()),
        -7,
        "invalid input: url: bad",
    );
    use_engine_error(
        gosh_dl::error::EngineError::http_status(500, "probe"),
        -9,
        "network error: probe: HTTP 500",
    );
    use_engine_error(
        gosh_dl::error::EngineError::storage(
            gosh_dl::error::StorageErrorKind::Io,
            "/p",
            "disk full".to_string(),
        ),
        -3,
        "database error: disk full",
    );
    use_engine_error(
        gosh_dl::error::EngineError::Shutdown,
        -1,
        "download engine error: engine is shutting down",
    );
    use_engine_error(
        gosh_dl::error::EngineError::Internal("x".to_string()),
        -1,
        "download engine error: internal error: x",
    );
}

fn use_engine_error(e: gosh_dl::error::EngineError, code: i32, text: &str) {
    let front = Error::from_engine(e);
    assert_eq!(front.code(), code);
    assert_eq!(front.describe(), text);
}
