use gosh_dl::error::EngineError;
use gosh_dl::storage::sqlite::{
    column_low_u32, from_column, row_to_segment, row_to_status, segment_survives, segment_to_row,
    status_to_row, to_column, DownloadRow, FOREIGN_KEYS, JOURNAL_MODE, SCHEMA, SYNCHRONOUS,
};
use gosh_dl::storage::{Segment, SegmentState};
use gosh_dl::types::{
    DownloadId, DownloadKind, DownloadMetadata, DownloadProgress, DownloadState, DownloadStatus,
    Timestamp,
};

fn completed_status() -> DownloadStatus {
    DownloadStatus {
        id: DownloadId::from_u128(0x0123_4567_89ab_cdef_0011_2233_4455_6677),
        kind: DownloadKind::Http,
        state: DownloadState::Completed,
        progress: DownloadProgress {
            total_size: Some(1000),
            completed_size: 1000,
            download_speed: 10,
            upload_speed: 0,
            connections: 4,
            seeders: 0,
            peers: 0,
            eta_seconds: Some(0),
        },
        metadata: DownloadMetadata {
            name: "file.zip".to_string(),
            url: Some("https://example.com/file.zip".to_string()),
            magnet_uri: None,
            info_hash: None,
            save_dir: "/data".to_string(),
            filename: Some("file.zip".to_string()),
            user_agent: Some("agent/1".to_string()),
            referer: None,
            headers: vec![
                ("X-One".to_string(), "a \"quoted\" value".to_string()),
                ("X-Two".to_string(), "line\nbreak \u{e9}".to_string()),
            ],
        },
        created_at: Timestamp { secs: 1_700_000_000, nanos: 5_000 },
        completed_at: Some(Timestamp { secs: 1_700_000_100, nanos: 0 }),
        torrent_info: None,
        peers: None,
    }
}

fn same_row(a: &DownloadRow, b: &DownloadRow) -> bool {
    format!("{:?}", a) == format!("{:?}", b)
}

#[test]
fn test_row_of_a_completed_download() {
    let row = status_to_row(&completed_status()).unwrap();
    assert_eq!(row.id, "01234567-89ab-cdef-0011-223344556677");
    assert_eq!(row.kind, "http");
    assert_eq!(row.state, "completed");
    assert_eq!(row.state_error_kind, None);
    assert_eq!(row.total_size, Some(1000));
    assert_eq!(row.completed_size, 1000);
    assert_eq!(row.connections, 4);
    assert_eq!(row.name, "file.zip");
    assert_eq!(row.url, Some("https://example.com/file.zip".to_string()));
    assert_eq!(row.save_dir, "/data");
    assert_eq!(row.created_at, "2023-11-14T22:13:20.000005+00:00");
    assert_eq!(row.completed_at, Some("2023-11-14T22:15:00+00:00".to_string()));
    assert_eq!(
        row.headers_json,
        Some("[[\"X-One\",\"a \\\"quoted\\\" value\"],[\"X-Two\",\"line\\nbreak \u{e9}\"]]".to_string())
    );
}

#[test]
fn test_save_load_save_gives_the_same_row() {
    let status = completed_status();
    let row = status_to_row(&status).unwrap();
    let later = Timestamp { secs: 1_800_000_000, nanos: 0 };
    let back = row_to_status(&row, later).unwrap();
    assert_eq!(back.id, status.id);
    assert_eq!(back.kind, status.kind);
    assert!(matches!(back.state, DownloadState::Completed));
    assert_eq!(back.metadata.headers, status.metadata.headers);
    assert_eq!(back.created_at, status.created_at);
    assert_eq!(back.completed_at, status.completed_at);
    assert_eq!(back.progress.total_size, Some(1000));
    assert_eq!(back.progress.completed_size, 1000);
    let again = status_to_row(&back).unwrap();
    assert!(same_row(&row, &again));
}

#[test]
fn test_error_state_survives() {
    let mut status = completed_status();
    status.state = DownloadState::Error {
        kind: "Network".to_string(),
        message: "network error: gone".to_string(),
        retryable: true,
    };
    status.completed_at = None;
    let row = status_to_row(&status).unwrap();
    assert_eq!(row.state, "error");
    assert_eq!(row.state_error_kind, Some("Network".to_string()));
    assert_eq!(row.state_error_retryable, Some(true));
    let back = row_to_status(&row, Timestamp { secs: 0, nanos: 0 }).unwrap();
    match back.state {
        DownloadState::Error { kind, message, retryable } => {
            assert_eq!(kind, "Network");
            assert_eq!(message, "network error: gone");
            assert!(retryable);
        }
        other => panic!("no error: {:?}", other),
    }
}

#[test]
fn test_rows_that_cannot_be_written() {
    let mut big = completed_status();
    big.progress.total_size = Some(u64::MAX);
    assert!(matches!(status_to_row(&big), Err(EngineError::Database(_))));
    let mut late = completed_status();
    late.created_at = Timestamp { secs: i64::MAX, nanos: 0 };
    assert!(matches!(status_to_row(&late), Err(EngineError::Database(_))));
    let mut done_late = completed_status();
    done_late.completed_at = Some(Timestamp { secs: i64::MIN, nanos: 0 });
    assert!(matches!(status_to_row(&done_late), Err(EngineError::Database(_))));
}

#[test]
fn test_row_with_a_broken_id() {
    let mut row = status_to_row(&completed_status()).unwrap();
    row.id = "not-a-uuid".to_string();
    match row_to_status(&row, Timestamp { secs: 0, nanos: 0 }) {
        Err(EngineError::Database(m)) => assert_eq!(m, "stored id is no UUID"),
        other => panic!("read: {:?}", other),
    }
}

#[test]
fn test_row_with_unreadable_columns_falls_back() {
    let mut row = status_to_row(&completed_status()).unwrap();
    row.kind = "gopher".to_string();
    row.state = "dreaming".to_string();
    row.created_at = "once upon a time".to_string();
    row.completed_at = Some("never".to_string());
    row.headers_json = Some("{broken".to_string());
    let now = Timestamp { secs: 42, nanos: 0 };
    let back = row_to_status(&row, now).unwrap();
    assert_eq!(back.kind, DownloadKind::Http);
    assert!(matches!(back.state, DownloadState::Queued));
    assert_eq!(back.created_at, now);
    assert_eq!(back.completed_at, None);
    assert_eq!(back.metadata.headers.len(), 0);
}

#[test]
fn test_columns_keep_the_bits() {
    assert_eq!(to_column(0), 0);
    assert_eq!(to_column(5), 5);
    assert_eq!(to_column(u64::MAX), -1);
    assert_eq!(to_column(1 << 63), i64::MIN);
    assert_eq!(from_column(-1), u64::MAX);
    assert_eq!(from_column(i64::MIN), 1 << 63);
    for x in [0u64, 1, 1 << 40, (1 << 63) - 1, 1 << 63, u64::MAX] {
        assert_eq!(from_column(to_column(x)), x);
    }
    assert_eq!(column_low_u32(7), 7);
    assert_eq!(column_low_u32(0x1_0000_0005), 5);
    assert_eq!(column_low_u32(-1), u32::MAX);
}

#[test]
fn test_segment_rows() {
    let mut s = Segment::new(3, 100, 199);
    s.downloaded = 40;
    s.state = SegmentState::Downloading;
    let row = segment_to_row(&s);
    assert_eq!(row.segment_index, 3);
    assert_eq!(row.start_byte, 100);
    assert_eq!(row.end_byte, 199);
    assert_eq!(row.downloaded, 40);
    assert_eq!(row.state, "downloading");
    assert_eq!(row.error_message, None);
    let back = row_to_segment(&row);
    assert_eq!(back.index, 3);
    assert_eq!(back.start, 100);
    assert_eq!(back.end, 199);
    assert_eq!(back.downloaded, 40);
    assert!(matches!(back.state, SegmentState::Pending));

    s.state = SegmentState::Failed { error: "boom".to_string(), retries: 2 };
    let row = segment_to_row(&s);
    assert_eq!(row.state, "failed");
    assert_eq!(row.error_message, Some("boom".to_string()));
    assert_eq!(row.error_retries, 2);
    let back = segment_survives(&s);
    assert!(matches!(back.state, SegmentState::Failed { ref error, retries: 2 } if error == "boom"));

    s.state = SegmentState::Completed;
    s.downloaded = 100;
    let back = segment_survives(&s);
    assert!(matches!(back.state, SegmentState::Completed));
    assert_eq!(back.downloaded, 100);
}

#[test]
fn test_store_settings() {
    assert_eq!(JOURNAL_MODE, "WAL");
    assert_eq!(SYNCHRONOUS, "NORMAL");
    assert_eq!(FOREIGN_KEYS, "ON");
    assert!(SCHEMA.contains("CREATE TABLE IF NOT EXISTS downloads"));
    assert!(SCHEMA.contains("CREATE TABLE IF NOT EXISTS segments"));
    assert!(SCHEMA.contains("ON DELETE CASCADE"));
}

fn open_store() -> rusqlite::Connection {
    let conn = rusqlite::Connection::open_in_memory().unwrap();
    conn.pragma_update(None, "foreign_keys", FOREIGN_KEYS).unwrap();
    conn.execute_batch(SCHEMA).unwrap();
    conn
}

fn run(conn: &rusqlite::Connection, sql: &str, values: Vec<&dyn rusqlite::ToSql>) {
    conn.execute(sql, values.as_slice()).unwrap();
}

fn count(conn: &rusqlite::Connection, table: &str) -> i64 {
    conn.query_row(&format!("SELECT COUNT(*) FROM {}", table), [], |r| r.get(0)).unwrap()
}

fn save(conn: &rusqlite::Connection, status: &DownloadStatus) {
    let row = status_to_row(status).unwrap();
    run(
        conn,
        "INSERT INTO downloads (id, kind, state, state_error_kind, state_error_message, \
         state_error_retryable, total_size, completed_size, download_speed, upload_speed, \
         connections, seeders, peers, name, url, magnet_uri, info_hash, save_dir, filename, \
         user_agent, referer, headers_json, created_at, completed_at) VALUES (?1, ?2, ?3, ?4, \
         ?5, ?6, ?7, ?8, ?9, ?10, ?11, ?12, ?13, ?14, ?15, ?16, ?17, ?18, ?19, ?20, ?21, ?22, \
         ?23, ?24) ON CONFLICT(id) DO UPDATE SET state = excluded.state, \
         completed_size = excluded.completed_size, completed_at = excluded.completed_at",
        vec![
            &row.id,
            &row.kind,
            &row.state,
            &row.state_error_kind,
            &row.state_error_message,
            &row.state_error_retryable,
            &row.total_size,
            &row.completed_size,
            &row.download_speed,
            &row.upload_speed,
            &row.connections,
            &row.seeders,
            &row.peers,
            &row.name,
            &row.url,
            &row.magnet_uri,
            &row.info_hash,
            &row.save_dir,
            &row.filename,
            &row.user_agent,
            &row.referer,
            &row.headers_json,
            &row.created_at,
            &row.completed_at,
        ],
    );
}

fn load(conn: &rusqlite::Connection, id: DownloadId) -> Option<DownloadStatus> {
    let key = id.to_text();
    let mut stmt = conn
        .prepare(
            "SELECT id, kind, state, state_error_kind, state_error_message, \
             state_error_retryable, total_size, completed_size, download_speed, upload_speed, \
             connections, seeders, peers, name, url, magnet_uri, info_hash, save_dir, filename, \
             user_agent, referer, headers_json, created_at, completed_at FROM downloads \
             WHERE id = ?1",
        )
        .unwrap();
    let mut rows = stmt.query([key.as_str()]).unwrap();
    let row = rows.next().unwrap()?;
    let stored = DownloadRow {
        id: row.get(0).unwrap(),
        kind: row.get(1).unwrap(),
        state: row.get(2).unwrap(),
        state_error_kind: row.get(3).unwrap(),
        state_error_message: row.get(4).unwrap(),
        state_error_retryable: row.get(5).unwrap(),
        total_size: row.get(6).unwrap(),
        completed_size: row.get(7).unwrap(),
        download_speed: row.get(8).unwrap(),
        upload_speed: row.get(9).unwrap(),
        connections: row.get(10).unwrap(),
        seeders: row.get(11).unwrap(),
        peers: row.get(12).unwrap(),
        name: row.get(13).unwrap(),
        url: row.get(14).unwrap(),
        magnet_uri: row.get(15).unwrap(),
        info_hash: row.get(16).unwrap(),
        save_dir: row.get(17).unwrap(),
        filename: row.get(18).unwrap(),
        user_agent: row.get(19).unwrap(),
        referer: row.get(20).unwrap(),
        headers_json: row.get(21).unwrap(),
        created_at: row.get(22).unwrap(),
        completed_at: row.get(23).unwrap(),
    };
    Some(row_to_status(&stored, Timestamp { secs: 0, nanos: 0 }).unwrap())
}

#[test]
fn test_sqlite_save_load() {
    let conn = open_store();
    let status = completed_status();
    save(&conn, &status);
    let loaded = load(&conn, status.id).unwrap();
    assert_eq!(loaded.id, status.id);
    assert_eq!(loaded.metadata.name, status.metadata.name);
    assert_eq!(loaded.metadata.headers, status.metadata.headers);
    assert_eq!(loaded.created_at, status.created_at);
    assert!(same_row(&status_to_row(&loaded).unwrap(), &status_to_row(&status).unwrap()));
}

#[test]
fn test_sqlite_update() {
    let conn = open_store();
    let mut status = completed_status();
    status.state = DownloadState::Downloading;
    status.progress.completed_size = 10;
    status.completed_at = None;
    save(&conn, &status);
    status.state = DownloadState::Completed;
    status.progress.completed_size = 1000;
    save(&conn, &status);
    let loaded = load(&conn, status.id).unwrap();
    assert!(matches!(loaded.state, DownloadState::Completed));
    assert_eq!(loaded.progress.completed_size, 1000);
    assert_eq!(count(&conn, "downloads"), 1);
}

#[test]
fn test_sqlite_delete() {
    let conn = open_store();
    let status = completed_status();
    save(&conn, &status);
    let key = status.id.to_text();
    let row = segment_to_row(&Segment::new(0, 0, 999));
    run(
        &conn,
        "INSERT INTO segments (download_id, segment_index, start_byte, end_byte, downloaded, \
         state, error_message, error_retries) VALUES (?1, ?2, ?3, ?4, ?5, ?6, ?7, ?8)",
        vec![
            &key,
            &row.segment_index,
            &row.start_byte,
            &row.end_byte,
            &row.downloaded,
            &row.state,
            &row.error_message,
            &row.error_retries,
        ],
    );
    assert_eq!(count(&conn, "segments"), 1);
    run(&conn, "DELETE FROM downloads WHERE id = ?1", vec![&key]);
    assert!(load(&conn, status.id).is_none());
    assert_eq!(count(&conn, "segments"), 0);
}

#[test]
fn test_schema_runs_twice() {
    let conn = open_store();
    save(&conn, &completed_status());
    conn.execute_batch(SCHEMA).unwrap();
    assert_eq!(count(&conn, "downloads"), 1);
}
