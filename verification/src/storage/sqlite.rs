//! The rows of the SQLite store and their mapping to the data model. The
//! caller runs the statements; this module says what stands in each column
//! and reads a row back.

use crate::error::{EngineError, EngineErrorView};
use crate::storage::{Segment, SegmentState};
use crate::text::{owned, str_eq};
use crate::types::{
    canonical_uuid_text, clone_opt, opt_view, pairs_view, rfc3339_parse_of, rfc3339_text_of,
    uuid_parse_of, DownloadId, DownloadKind, DownloadMetadata, DownloadMetadataView,
    DownloadProgress, DownloadState, DownloadStateView, DownloadStatus, DownloadStatusView,
    StateTag, Timestamp,
};
use vstd::prelude::*;

verus! {

/// Journal mode of the store: write-ahead logging.
pub const JOURNAL_MODE: &'static str = "WAL";

/// Durability of the store.
pub const SYNCHRONOUS: &'static str = "NORMAL";

/// Foreign keys are enforced, so that deleting a download deletes its
/// segments.
pub const FOREIGN_KEYS: &'static str = "ON";

/// The tables and indexes of the store. Every statement is conditional, so
/// that running the schema again changes nothing.
pub const SCHEMA: &'static str =
    "CREATE TABLE IF NOT EXISTS downloads (\n    id TEXT PRIMARY KEY,\n    kind TEXT NOT NULL,\n    state TEXT NOT NULL,\n    state_error_kind TEXT,\n    state_error_message TEXT,\n    state_error_retryable INTEGER,\n    total_size INTEGER,\n    completed_size INTEGER NOT NULL DEFAULT 0,\n    download_speed INTEGER NOT NULL DEFAULT 0,\n    upload_speed INTEGER NOT NULL DEFAULT 0,\n    connections INTEGER NOT NULL DEFAULT 0,\n    seeders INTEGER NOT NULL DEFAULT 0,\n    peers INTEGER NOT NULL DEFAULT 0,\n    name TEXT NOT NULL,\n    url TEXT,\n    magnet_uri TEXT,\n    info_hash TEXT,\n    save_dir TEXT NOT NULL,\n    filename TEXT,\n    user_agent TEXT,\n    referer TEXT,\n    headers_json TEXT,\n    created_at TEXT NOT NULL,\n    completed_at TEXT\n);\nCREATE TABLE IF NOT EXISTS segments (\n    id INTEGER PRIMARY KEY AUTOINCREMENT,\n    download_id TEXT NOT NULL,\n    segment_index INTEGER NOT NULL,\n    start_byte INTEGER NOT NULL,\n    end_byte INTEGER NOT NULL,\n    downloaded INTEGER NOT NULL DEFAULT 0,\n    state TEXT NOT NULL,\n    error_message TEXT,\n    error_retries INTEGER DEFAULT 0,\n    FOREIGN KEY (download_id) REFERENCES downloads(id) ON DELETE CASCADE,\n    UNIQUE (download_id, segment_index)\n);\nCREATE INDEX IF NOT EXISTS idx_downloads_state ON downloads(state);\nCREATE INDEX IF NOT EXISTS idx_downloads_kind ON downloads(kind);\nCREATE INDEX IF NOT EXISTS idx_segments_download ON segments(download_id);\n";

/// What `serde_json::to_string` writes for a list of header pairs, or
/// nothing where it fails.
pub uninterp spec fn headers_json_of(headers: Seq<(Seq<char>, Seq<char>)>) -> Option<Seq<char>>;

/// What `serde_json::from_str` reads from a text as a list of header pairs,
/// or nothing where the text is no such list.
pub uninterp spec fn headers_from_json(text: Seq<char>) -> Option<Seq<(Seq<char>, Seq<char>)>>;

/// `serde_json::to_string` on a list of header pairs: the JSON text of the
/// list, which `from_str` reads back as the same list.
#[verifier::external_body]
fn headers_to_json(headers: &Vec<(String, String)>) -> (r: Option<String>)
    ensures
        opt_view(r) == headers_json_of(pairs_view(headers@)),
        r matches Some(s) ==> headers_from_json(s@) == Some(pairs_view(headers@)),
{
    serde_json::to_string(headers).ok()
}

/// `serde_json::from_str` for a list of header pairs.
#[verifier::external_body]
fn headers_parse_json(text: &str) -> (r: Option<Vec<(String, String)>>)
    ensures
        match r {
            Some(h) => headers_from_json(text@) == Some(pairs_view(h@)),
            None => headers_from_json(text@) is None,
        },
{
    serde_json::from_str(text).ok()
}

// ---------------------------------------------------------------------------
// Integers in SQLite columns
// ---------------------------------------------------------------------------

/// The 64-bit column value that stands for an unsigned count: the same
/// bits.
pub open spec fn wrap_i64(x: u64) -> i64 {
    if x <= i64::MAX {
        x as i64
    } else {
        (x - 0x1_0000_0000_0000_0000) as i64
    }
}

/// The unsigned count that a 64-bit column value stands for: the same bits.
pub open spec fn unwrap_u64(v: i64) -> u64 {
    if v >= 0 {
        v as u64
    } else {
        (v + 0x1_0000_0000_0000_0000) as u64
    }
}

/// The 32-bit count that a column value stands for: its low 32 bits.
pub open spec fn low_u32(v: i64) -> u32 {
    (v as int % 0x1_0000_0000) as u32
}

pub fn to_column(x: u64) -> (v: i64)
    ensures
        v == wrap_i64(x),
        unwrap_u64(v) == x,
{
    if x <= i64::MAX as u64 {
        x as i64
    } else {
        ((x - 0x8000_0000_0000_0000) as i64) + i64::MIN
    }
}

pub fn from_column(v: i64) -> (x: u64)
    ensures
        x == unwrap_u64(v),
        wrap_i64(x) == v,
{
    if v >= 0 {
        v as u64
    } else {
        ((v - i64::MIN) as u64) + 0x8000_0000_0000_0000
    }
}

pub fn column_low_u32(v: i64) -> (x: u32)
    ensures
        x == low_u32(v),
        0 <= v <= u32::MAX ==> x == v,
{
    if v >= 0 {
        (v % 0x1_0000_0000) as u32
    } else {
        let r: i64 = (-(v + 1)) % 0x1_0000_0000;
        assert(v as int % 0x1_0000_0000 == 0xFFFF_FFFF - r) by {
            let m = -(v as int + 1);
            vstd::arithmetic::div_mod::lemma_fundamental_div_mod(m, 0x1_0000_0000);
            let q = m / 0x1_0000_0000;
            assert(v as int == 0x1_0000_0000 * (-q - 1) + (0xFFFF_FFFF - r));
            vstd::arithmetic::div_mod::lemma_fundamental_div_mod_converse(
                v as int,
                0x1_0000_0000,
                -q - 1,
                0xFFFF_FFFF - r as int,
            );
        }
        (0xFFFF_FFFF - r) as u32
    }
}

// ---------------------------------------------------------------------------
// Names of kinds and states
// ---------------------------------------------------------------------------

pub open spec fn kind_name(kind: DownloadKind) -> Seq<char> {
    match kind {
        DownloadKind::Http => "http"@,
        DownloadKind::Torrent => "torrent"@,
        DownloadKind::Magnet => "magnet"@,
    }
}

/// The kind that a stored name stands for; an unknown name stands for
/// HTTP.
pub open spec fn kind_from_name(name: Seq<char>) -> DownloadKind {
    if name == "torrent"@ {
        DownloadKind::Torrent
    } else if name == "magnet"@ {
        DownloadKind::Magnet
    } else {
        DownloadKind::Http
    }
}

/// The state that a stored name stands for; an unknown name stands for
/// `Queued`.
pub open spec fn tag_from_name(name: Seq<char>) -> StateTag {
    if name == "connecting"@ {
        StateTag::Connecting
    } else if name == "downloading"@ {
        StateTag::Downloading
    } else if name == "seeding"@ {
        StateTag::Seeding
    } else if name == "paused"@ {
        StateTag::Paused
    } else if name == "completed"@ {
        StateTag::Completed
    } else if name == "error"@ {
        StateTag::Error
    } else {
        StateTag::Queued
    }
}

/// Every kind and every state is read back from its name.
pub proof fn lemma_names_round_trip()
    ensures
        forall|k: DownloadKind| kind_from_name(kind_name(k)) == k,
        forall|t: StateTag| tag_from_name(t.name()) == t,
{
    reveal_strlit("http");
    reveal_strlit("torrent");
    reveal_strlit("magnet");
    reveal_strlit("queued");
    reveal_strlit("connecting");
    reveal_strlit("downloading");
    reveal_strlit("seeding");
    reveal_strlit("paused");
    reveal_strlit("completed");
    reveal_strlit("error");
    assert forall|k: DownloadKind| kind_from_name(kind_name(k)) == k by {
        assert("http"@.len() == 4 && "torrent"@.len() == 7 && "magnet"@.len() == 6);
    }
    assert forall|t: StateTag| tag_from_name(t.name()) == t by {
        assert("queued"@.len() == 6 && "connecting"@.len() == 10 && "downloading"@.len() == 11
            && "seeding"@.len() == 7 && "paused"@.len() == 6 && "completed"@.len() == 9
            && "error"@.len() == 5);
        assert("queued"@[0] == 'q' && "paused"@[0] == 'p');
    }
}

fn kind_to_name(kind: DownloadKind) -> (r: String)
    ensures
        r@ == kind_name(kind),
{
    match kind {
        DownloadKind::Http => owned("http"),
        DownloadKind::Torrent => owned("torrent"),
        DownloadKind::Magnet => owned("magnet"),
    }
}

fn name_to_kind(name: &str) -> (r: DownloadKind)
    ensures
        r == kind_from_name(name@),
{
    if str_eq(name, "torrent") {
        DownloadKind::Torrent
    } else if str_eq(name, "magnet") {
        DownloadKind::Magnet
    } else {
        DownloadKind::Http
    }
}

fn name_to_tag(name: &str) -> (r: StateTag)
    ensures
        r == tag_from_name(name@),
{
    if str_eq(name, "connecting") {
        StateTag::Connecting
    } else if str_eq(name, "downloading") {
        StateTag::Downloading
    } else if str_eq(name, "seeding") {
        StateTag::Seeding
    } else if str_eq(name, "paused") {
        StateTag::Paused
    } else if str_eq(name, "completed") {
        StateTag::Completed
    } else if str_eq(name, "error") {
        StateTag::Error
    } else {
        StateTag::Queued
    }
}

// ---------------------------------------------------------------------------
// The row of a download
// ---------------------------------------------------------------------------

/// One row of the `downloads` table.
#[derive(Debug)]
pub struct DownloadRow {
    pub id: String,
    pub kind: String,
    pub state: String,
    pub state_error_kind: Option<String>,
    pub state_error_message: Option<String>,
    pub state_error_retryable: Option<bool>,
    pub total_size: Option<i64>,
    pub completed_size: i64,
    pub download_speed: i64,
    pub upload_speed: i64,
    pub connections: i64,
    pub seeders: i64,
    pub peers: i64,
    pub name: String,
    pub url: Option<String>,
    pub magnet_uri: Option<String>,
    pub info_hash: Option<String>,
    pub save_dir: String,
    pub filename: Option<String>,
    pub user_agent: Option<String>,
    pub referer: Option<String>,
    pub headers_json: Option<String>,
    pub created_at: String,
    pub completed_at: Option<String>,
}

pub struct DownloadRowView {
    pub id: Seq<char>,
    pub kind: Seq<char>,
    pub state: Seq<char>,
    pub state_error_kind: Option<Seq<char>>,
    pub state_error_message: Option<Seq<char>>,
    pub state_error_retryable: Option<bool>,
    pub total_size: Option<i64>,
    pub completed_size: i64,
    pub download_speed: i64,
    pub upload_speed: i64,
    pub connections: i64,
    pub seeders: i64,
    pub peers: i64,
    pub name: Seq<char>,
    pub url: Option<Seq<char>>,
    pub magnet_uri: Option<Seq<char>>,
    pub info_hash: Option<Seq<char>>,
    pub save_dir: Seq<char>,
    pub filename: Option<Seq<char>>,
    pub user_agent: Option<Seq<char>>,
    pub referer: Option<Seq<char>>,
    pub headers_json: Option<Seq<char>>,
    pub created_at: Seq<char>,
    pub completed_at: Option<Seq<char>>,
}

impl View for DownloadRow {
    type V = DownloadRowView;

    open spec fn view(&self) -> DownloadRowView {
        DownloadRowView {
            id: self.id@,
            kind: self.kind@,
            state: self.state@,
            state_error_kind: opt_view(self.state_error_kind),
            state_error_message: opt_view(self.state_error_message),
            state_error_retryable: self.state_error_retryable,
            total_size: self.total_size,
            completed_size: self.completed_size,
            download_speed: self.download_speed,
            upload_speed: self.upload_speed,
            connections: self.connections,
            seeders: self.seeders,
            peers: self.peers,
            name: self.name@,
            url: opt_view(self.url),
            magnet_uri: opt_view(self.magnet_uri),
            info_hash: opt_view(self.info_hash),
            save_dir: self.save_dir@,
            filename: opt_view(self.filename),
            user_agent: opt_view(self.user_agent),
            referer: opt_view(self.referer),
            headers_json: opt_view(self.headers_json),
            created_at: self.created_at@,
            completed_at: opt_view(self.completed_at),
        }
    }
}

/// Why a status has no row, if it has none: its total size is above what a
/// column holds, a point in time is outside the calendar, or the headers
/// have no JSON text.
pub open spec fn row_refusal(s: DownloadStatusView) -> Option<Seq<char>> {
    if s.progress.total_size matches Some(n) && n > i64::MAX {
        Some("total size does not fit a column"@)
    } else if rfc3339_text_of(s.created_at.secs, s.created_at.nanos) is None {
        Some("creation time is outside the calendar"@)
    } else if s.completed_at matches Some(t) && rfc3339_text_of(t.secs, t.nanos) is None {
        Some("completion time is outside the calendar"@)
    } else if headers_json_of(s.metadata.headers) is None {
        Some("headers cannot be serialised"@)
    } else {
        None
    }
}

/// The row that stands for a status.
pub open spec fn spec_status_to_row(s: DownloadStatusView) -> DownloadRowView {
    DownloadRowView {
        id: canonical_uuid_text(s.id.value),
        kind: kind_name(s.kind),
        state: s.state.tag().name(),
        state_error_kind: match s.state {
            DownloadStateView::Error { kind, .. } => Some(kind),
            _ => None,
        },
        state_error_message: match s.state {
            DownloadStateView::Error { message, .. } => Some(message),
            _ => None,
        },
        state_error_retryable: match s.state {
            DownloadStateView::Error { retryable, .. } => Some(retryable),
            _ => None,
        },
        total_size: match s.progress.total_size {
            Some(n) => Some(n as i64),
            None => None,
        },
        completed_size: wrap_i64(s.progress.completed_size),
        download_speed: wrap_i64(s.progress.download_speed),
        upload_speed: wrap_i64(s.progress.upload_speed),
        connections: s.progress.connections as i64,
        seeders: s.progress.seeders as i64,
        peers: s.progress.peers as i64,
        name: s.metadata.name,
        url: s.metadata.url,
        magnet_uri: s.metadata.magnet_uri,
        info_hash: s.metadata.info_hash,
        save_dir: s.metadata.save_dir,
        filename: s.metadata.filename,
        user_agent: s.metadata.user_agent,
        referer: s.metadata.referer,
        headers_json: headers_json_of(s.metadata.headers),
        created_at: rfc3339_text_of(s.created_at.secs, s.created_at.nanos).unwrap(),
        completed_at: match s.completed_at {
            Some(t) => rfc3339_text_of(t.secs, t.nanos),
            None => None,
        },
    }
}

/// The status that a row stands for, read at the time `now`; nothing if
/// the id is no UUID. A kind or state that is not known reads as HTTP and
/// `Queued`, headers that are no JSON list read as none, a creation time
/// that is no RFC 3339 text reads as `now`, and such a completion time as
/// absent. What is not stored (the time left, the files and peers of a
/// torrent) reads as absent.
pub open spec fn spec_row_to_status(row: DownloadRowView, now: Timestamp) -> Option<
    DownloadStatusView,
> {
    match uuid_parse_of(row.id) {
        None => None,
        Some(value) => Some(
            DownloadStatusView {
                id: DownloadId { value },
                kind: kind_from_name(row.kind),
                state: match tag_from_name(row.state) {
                    StateTag::Queued => DownloadStateView::Queued,
                    StateTag::Connecting => DownloadStateView::Connecting,
                    StateTag::Downloading => DownloadStateView::Downloading,
                    StateTag::Seeding => DownloadStateView::Seeding,
                    StateTag::Paused => DownloadStateView::Paused,
                    StateTag::Completed => DownloadStateView::Completed,
                    StateTag::Error => DownloadStateView::Error {
                        kind: match row.state_error_kind {
                            Some(k) => k,
                            None => Seq::empty(),
                        },
                        message: match row.state_error_message {
                            Some(m) => m,
                            None => Seq::empty(),
                        },
                        retryable: match row.state_error_retryable {
                            Some(r) => r,
                            None => false,
                        },
                    },
                },
                progress: DownloadProgress {
                    total_size: match row.total_size {
                        Some(n) => Some(unwrap_u64(n)),
                        None => None,
                    },
                    completed_size: unwrap_u64(row.completed_size),
                    download_speed: unwrap_u64(row.download_speed),
                    upload_speed: unwrap_u64(row.upload_speed),
                    connections: low_u32(row.connections),
                    seeders: low_u32(row.seeders),
                    peers: low_u32(row.peers),
                    eta_seconds: None,
                },
                metadata: DownloadMetadataView {
                    name: row.name,
                    url: row.url,
                    magnet_uri: row.magnet_uri,
                    info_hash: row.info_hash,
                    save_dir: row.save_dir,
                    filename: row.filename,
                    user_agent: row.user_agent,
                    referer: row.referer,
                    headers: match row.headers_json {
                        Some(j) => match headers_from_json(j) {
                            Some(h) => h,
                            None => Seq::empty(),
                        },
                        None => Seq::empty(),
                    },
                },
                created_at: match rfc3339_parse_of(row.created_at) {
                    Some(t) => t,
                    None => now,
                },
                completed_at: match row.completed_at {
                    Some(text) => rfc3339_parse_of(text),
                    None => None,
                },
                files: None,
                peers: None,
            },
        ),
    }
}

/// The points in time of the status lie in years of four digits and have
/// less than a second of nanoseconds.
pub open spec fn times_plain(s: DownloadStatusView) -> bool {
    s.created_at.is_plain() && (s.completed_at matches Some(t) ==> t.is_plain())
}

/// The row that stands for a status, for the caller to save. Loading the
/// row and saving again gives the same row.
pub fn status_to_row(status: &DownloadStatus) -> (r: Result<DownloadRow, EngineError>)
    ensures
        match r {
            Ok(row) => {
                &&& row_refusal(status@) is None
                &&& row@ == spec_status_to_row(status@)
                &&& times_plain(status@) ==> forall|now: Timestamp|
                    {
                        let back = #[trigger] spec_row_to_status(row@, now);
                        &&& back is Some
                        &&& row_refusal(back->0) is None
                        &&& spec_status_to_row(back->0) == row@
                    }
            },
            Err(e) => row_refusal(status@) == Some(e@->Database_0) && e@ is Database,
        },
{
    let total_size: Option<i64> = match status.progress.total_size {
        Some(n) => {
            if n > i64::MAX as u64 {
                return Err(EngineError::Database(owned("total size does not fit a column")));
            }
            Some(n as i64)
        },
        None => None,
    };
    let created_at = match status.created_at.to_rfc3339() {
        Some(t) => t,
        None => {
            return Err(EngineError::Database(owned("creation time is outside the calendar")));
        },
    };
    let completed_at: Option<String> = match &status.completed_at {
        Some(t) => match t.to_rfc3339() {
            Some(text) => Some(text),
            None => {
                return Err(
                    EngineError::Database(owned("completion time is outside the calendar")),
                );
            },
        },
        None => None,
    };
    let headers_json = match headers_to_json(&status.metadata.headers) {
        Some(j) => j,
        None => {
            return Err(EngineError::Database(owned("headers cannot be serialised")));
        },
    };
    let (state_error_kind, state_error_message, state_error_retryable) = match &status.state {
        DownloadState::Error { kind, message, retryable } => (
            Some(kind.clone()),
            Some(message.clone()),
            Some(*retryable),
        ),
        _ => (None, None, None),
    };
    let row = DownloadRow {
        id: status.id.to_text(),
        kind: kind_to_name(status.kind),
        state: status.state.tag().to_name(),
        state_error_kind,
        state_error_message,
        state_error_retryable,
        total_size,
        completed_size: to_column(status.progress.completed_size),
        download_speed: to_column(status.progress.download_speed),
        upload_speed: to_column(status.progress.upload_speed),
        connections: status.progress.connections as i64,
        seeders: status.progress.seeders as i64,
        peers: status.progress.peers as i64,
        name: status.metadata.name.clone(),
        url: clone_opt(&status.metadata.url),
        magnet_uri: clone_opt(&status.metadata.magnet_uri),
        info_hash: clone_opt(&status.metadata.info_hash),
        save_dir: status.metadata.save_dir.clone(),
        filename: clone_opt(&status.metadata.filename),
        user_agent: clone_opt(&status.metadata.user_agent),
        referer: clone_opt(&status.metadata.referer),
        headers_json: Some(headers_json),
        created_at,
        completed_at,
    };
    proof {
        lemma_names_round_trip();
        if times_plain(status@) {
            assert forall|now: Timestamp|
                {
                    let back = #[trigger] spec_row_to_status(row@, now);
                    &&& back is Some
                    &&& row_refusal(back->0) is None
                    &&& spec_status_to_row(back->0) == row@
                } by {
                let back = spec_row_to_status(row@, now);
                assert(back is Some);
                let b = back->0;
                assert(b.id == status@.id);
                assert(b.kind == status@.kind);
                assert(b.state == status@.state);
                assert(b.created_at == status@.created_at);
                assert(b.completed_at == status@.completed_at);
                assert(b.metadata == status@.metadata);
                assert(b.progress == (DownloadProgress {
                    eta_seconds: None,
                    ..status@.progress
                }));
            }
        }
    }
    Ok(row)
}

/// The status that a row stands for, read at the time `now`.
pub fn row_to_status(row: &DownloadRow, now: Timestamp) -> (r: Result<DownloadStatus, EngineError>)
    ensures
        match r {
            Ok(s) => spec_row_to_status(row@, now) == Some(s@),
            Err(e) => spec_row_to_status(row@, now) is None && e@ == EngineErrorView::Database(
                "stored id is no UUID"@,
            ),
        },
{
    let id = match crate::types::DownloadId::parse_uuid(row.id.as_str()) {
        Some(id) => id,
        None => {
            return Err(EngineError::Database(owned("stored id is no UUID")));
        },
    };
    let state = match name_to_tag(row.state.as_str()) {
        StateTag::Queued => DownloadState::Queued,
        StateTag::Connecting => DownloadState::Connecting,
        StateTag::Downloading => DownloadState::Downloading,
        StateTag::Seeding => DownloadState::Seeding,
        StateTag::Paused => DownloadState::Paused,
        StateTag::Completed => DownloadState::Completed,
        StateTag::Error => DownloadState::Error {
            kind: match &row.state_error_kind {
                Some(k) => k.clone(),
                None => String::new(),
            },
            message: match &row.state_error_message {
                Some(m) => m.clone(),
                None => String::new(),
            },
            retryable: match row.state_error_retryable {
                Some(r) => r,
                None => false,
            },
        },
    };
    let headers: Vec<(String, String)> = match &row.headers_json {
        Some(j) => match headers_parse_json(j.as_str()) {
            Some(h) => h,
            None => Vec::new(),
        },
        None => Vec::new(),
    };
    assert(headers@.len() == 0 ==> pairs_view(headers@) =~= Seq::empty());
    let created_at = match Timestamp::parse_rfc3339(row.created_at.as_str()) {
        Some(t) => t,
        None => now,
    };
    let completed_at = match &row.completed_at {
        Some(text) => Timestamp::parse_rfc3339(text.as_str()),
        None => None,
    };
    Ok(
        DownloadStatus {
            id,
            kind: name_to_kind(row.kind.as_str()),
            state,
            progress: DownloadProgress {
                total_size: match row.total_size {
                    Some(n) => Some(from_column(n)),
                    None => None,
                },
                completed_size: from_column(row.completed_size),
                download_speed: from_column(row.download_speed),
                upload_speed: from_column(row.upload_speed),
                connections: column_low_u32(row.connections),
                seeders: column_low_u32(row.seeders),
                peers: column_low_u32(row.peers),
                eta_seconds: None,
            },
            metadata: DownloadMetadata {
                name: row.name.clone(),
                url: clone_opt(&row.url),
                magnet_uri: clone_opt(&row.magnet_uri),
                info_hash: clone_opt(&row.info_hash),
                save_dir: row.save_dir.clone(),
                filename: clone_opt(&row.filename),
                user_agent: clone_opt(&row.user_agent),
                referer: clone_opt(&row.referer),
                headers,
            },
            created_at,
            completed_at,
            torrent_info: None,
            peers: None,
        },
    )
}

// ---------------------------------------------------------------------------
// The row of a segment
// ---------------------------------------------------------------------------

/// One row of the `segments` table.
#[derive(Debug)]
pub struct SegmentRow {
    pub segment_index: i64,
    pub start_byte: i64,
    pub end_byte: i64,
    pub downloaded: i64,
    pub state: String,
    pub error_message: Option<String>,
    pub error_retries: i64,
}

pub open spec fn segment_state_name(state: SegmentState) -> Seq<char> {
    match state {
        SegmentState::Pending => "pending"@,
        SegmentState::Downloading => "downloading"@,
        SegmentState::Completed => "completed"@,
        SegmentState::Failed { .. } => "failed"@,
    }
}

/// The row that stands for a segment.
pub fn segment_to_row(segment: &Segment) -> (row: SegmentRow)
    ensures
        row.segment_index == wrap_i64(segment.index as u64),
        row.start_byte == wrap_i64(segment.start),
        row.end_byte == wrap_i64(segment.end),
        row.downloaded == wrap_i64(segment.downloaded),
        row.state@ == segment_state_name(segment.state),
        match segment.state {
            SegmentState::Failed { error, retries } => row.error_message == Some(error)
                && row.error_retries == retries,
            _ => row.error_message is None && row.error_retries == 0,
        },
{
    let (state, error_message, error_retries) = match &segment.state {
        SegmentState::Pending => (owned("pending"), None, 0i64),
        SegmentState::Downloading => (owned("downloading"), None, 0i64),
        SegmentState::Completed => (owned("completed"), None, 0i64),
        SegmentState::Failed { error, retries } => (
            owned("failed"),
            Some(error.clone()),
            *retries as i64,
        ),
    };
    SegmentRow {
        segment_index: to_column(segment.index as u64),
        start_byte: to_column(segment.start),
        end_byte: to_column(segment.end),
        downloaded: to_column(segment.downloaded),
        state,
        error_message,
        error_retries,
    }
}

/// The index that a column value stands for: its bits as an unsigned
/// number, kept within `usize`.
pub open spec fn index_of_column(v: i64) -> usize {
    if unwrap_u64(v) > usize::MAX {
        usize::MAX
    } else {
        unwrap_u64(v) as usize
    }
}

/// The segment that a row stands for. A segment that was being fetched
/// when it was saved is pending again, as is one in an unknown state; a
/// failed one without a message has an empty message.
pub fn row_to_segment(row: &SegmentRow) -> (s: Segment)
    ensures
        s.index == index_of_column(row.segment_index),
        s.start == unwrap_u64(row.start_byte),
        s.end == unwrap_u64(row.end_byte),
        s.downloaded == unwrap_u64(row.downloaded),
        if row.state@ == "completed"@ {
            s.state is Completed
        } else if row.state@ == "failed"@ {
            &&& s.state matches SegmentState::Failed { error, retries }
            &&& error@ == match row.error_message {
                Some(m) => m@,
                None => Seq::empty(),
            }
            &&& retries == low_u32(row.error_retries)
        } else {
            s.state is Pending
        },
{
    let state = if str_eq(row.state.as_str(), "completed") {
        SegmentState::Completed
    } else if str_eq(row.state.as_str(), "failed") {
        SegmentState::Failed {
            error: match &row.error_message {
                Some(m) => m.clone(),
                None => String::new(),
            },
            retries: column_low_u32(row.error_retries),
        }
    } else {
        SegmentState::Pending
    };
    let index = from_column(row.segment_index);
    Segment {
        index: if index > usize::MAX as u64 {
            usize::MAX
        } else {
            index as usize
        },
        start: from_column(row.start_byte),
        end: from_column(row.end_byte),
        downloaded: from_column(row.downloaded),
        state,
    }
}

/// A segment that is saved and loaded comes back as it was, but that a
/// segment that was being fetched is pending again.
pub fn segment_survives(segment: &Segment) -> (back: Segment)
    ensures
        back.index == segment.index,
        back.start == segment.start,
        back.end == segment.end,
        back.downloaded == segment.downloaded,
        match segment.state {
            SegmentState::Pending => back.state is Pending,
            SegmentState::Downloading => back.state is Pending,
            SegmentState::Completed => back.state is Completed,
            SegmentState::Failed { error, retries } => back.state matches SegmentState::Failed {
                error: e,
                retries: n,
            } && e@ == error@ && n == retries,
        },
{
    proof {
        reveal_strlit("pending");
        reveal_strlit("downloading");
        reveal_strlit("completed");
        reveal_strlit("failed");
        assert("pending"@.len() == 7 && "downloading"@.len() == 11 && "completed"@.len() == 9
            && "failed"@.len() == 6);
    }
    let row = segment_to_row(segment);
    row_to_segment(&row)
}

} // verus!
