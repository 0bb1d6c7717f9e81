//! The records of aria2's RPC interface and the states that the
//! application makes of them.

use crate::text::{chars_of, hex_digit, is_hex_digit, owned, str_eq};
use crate::types::all_hex_digits;
use vstd::prelude::*;

verus! {

/// URI of a file as aria2 reports it.
#[derive(Debug)]
pub struct Aria2Uri {
    pub uri: String,
    pub status: String,
}

/// One file of a download as aria2 reports it.
#[derive(Debug)]
pub struct Aria2File {
    pub index: String,
    pub path: String,
    pub length: String,
    pub completed_length: String,
    pub selected: String,
    pub uris: Vec<Aria2Uri>,
}

#[derive(Debug)]
pub struct BitTorrentName {
    pub name: Option<String>,
}

#[derive(Debug)]
pub struct BitTorrentInfo {
    pub announce_list: Option<Vec<Vec<String>>>,
    pub comment: Option<String>,
    pub creation_date: Option<i64>,
    pub mode: Option<String>,
    pub info: Option<BitTorrentName>,
}

/// The status of a download as aria2 reports it: every number is text.
#[derive(Debug)]
pub struct DownloadStatus {
    pub gid: String,
    pub status: String,
    pub total_length: String,
    pub completed_length: String,
    pub download_speed: String,
    pub upload_speed: String,
    pub connections: Option<String>,
    pub num_seeders: Option<String>,
    pub error_code: Option<String>,
    pub error_message: Option<String>,
    pub dir: String,
    pub files: Vec<Aria2File>,
    pub bittorrent: Option<BitTorrentInfo>,
    pub info_hash: Option<String>,
    pub following_gid: Option<String>,
    pub verified_length: Option<String>,
    pub verify_integrity_pending: Option<String>,
}

#[derive(Debug)]
pub struct GlobalStat {
    pub download_speed: String,
    pub upload_speed: String,
    pub num_active: String,
    pub num_waiting: String,
    pub num_stopped: String,
    pub num_stopped_total: String,
}

/// Options of a download as aria2 takes them.
#[derive(Debug)]
pub struct DownloadOptions {
    pub dir: Option<String>,
    pub out: Option<String>,
    pub split: Option<String>,
    pub max_connection_per_server: Option<String>,
    pub user_agent: Option<String>,
    pub referer: Option<String>,
    pub header: Option<Vec<String>>,
    pub select_file: Option<String>,
    pub bt_tracker: Option<String>,
    pub seed_ratio: Option<String>,
    pub max_download_limit: Option<String>,
    pub max_upload_limit: Option<String>,
}

impl Default for DownloadOptions {
    fn default() -> (o: DownloadOptions)
        ensures
            o.dir is None && o.out is None && o.split is None
                && o.max_connection_per_server is None && o.user_agent is None
                && o.referer is None && o.header is None && o.select_file is None
                && o.bt_tracker is None && o.seed_ratio is None && o.max_download_limit is None
                && o.max_upload_limit is None,
    {
        DownloadOptions {
            dir: None,
            out: None,
            split: None,
            max_connection_per_server: None,
            user_agent: None,
            referer: None,
            header: None,
            select_file: None,
            bt_tracker: None,
            seed_ratio: None,
            max_download_limit: None,
            max_upload_limit: None,
        }
    }
}

/// The option of aria2 that `value` sets under `key`, if there is a value.
pub open spec fn option_pair(key: Seq<char>, value: Option<String>) -> Seq<(Seq<char>, Seq<char>)> {
    match value {
        Some(v) => seq![(key, v@)],
        None => Seq::empty(),
    }
}

impl DownloadOptions {
    /// The options that are set, under the names that aria2 knows them by,
    /// but for the headers.
    pub open spec fn spec_pairs(&self) -> Seq<(Seq<char>, Seq<char>)> {
        option_pair("dir"@, self.dir) + option_pair("out"@, self.out) + option_pair(
            "split"@,
            self.split,
        ) + option_pair("max-connection-per-server"@, self.max_connection_per_server)
            + option_pair("user-agent"@, self.user_agent) + option_pair("referer"@, self.referer)
            + option_pair("select-file"@, self.select_file) + option_pair(
            "bt-tracker"@,
            self.bt_tracker,
        ) + option_pair("seed-ratio"@, self.seed_ratio) + option_pair(
            "max-download-limit"@,
            self.max_download_limit,
        ) + option_pair("max-upload-limit"@, self.max_upload_limit)
    }

    /// The options that are set, under the names that aria2 knows them by,
    /// but for the headers.
    pub fn to_pairs(&self) -> (r: Vec<(String, String)>)
        ensures
            crate::types::pairs_view(r@) == self.spec_pairs(),
    {
        let mut out: Vec<(String, String)> = Vec::new();
        assert(crate::types::pairs_view(out@) =~= Seq::empty());
        push_option(&mut out, "dir", &self.dir);
        push_option(&mut out, "out", &self.out);
        push_option(&mut out, "split", &self.split);
        push_option(&mut out, "max-connection-per-server", &self.max_connection_per_server);
        push_option(&mut out, "user-agent", &self.user_agent);
        push_option(&mut out, "referer", &self.referer);
        push_option(&mut out, "select-file", &self.select_file);
        push_option(&mut out, "bt-tracker", &self.bt_tracker);
        push_option(&mut out, "seed-ratio", &self.seed_ratio);
        push_option(&mut out, "max-download-limit", &self.max_download_limit);
        push_option(&mut out, "max-upload-limit", &self.max_upload_limit);
        assert(crate::types::pairs_view(out@) =~= self.spec_pairs());
        out
    }
}

fn push_option(out: &mut Vec<(String, String)>, key: &str, value: &Option<String>)
    ensures
        crate::types::pairs_view(final(out)@) == crate::types::pairs_view(old(out)@) + option_pair(
            key@,
            *value,
        ),
{
    match value {
        Some(v) => {
            let ghost before = crate::types::pairs_view(out@);
            out.push((owned(key), v.clone()));
            assert(crate::types::pairs_view(out@) =~= before + seq![(key@, v@)]);
        },
        None => {
            assert(crate::types::pairs_view(out@) + Seq::empty() =~= crate::types::pairs_view(
                out@,
            ));
        },
    }
}

#[derive(Debug)]
pub struct TorrentFile {
    pub index: usize,
    pub path: String,
    pub length: u64,
}

#[derive(Debug)]
pub struct TorrentInfo {
    pub name: String,
    pub info_hash: String,
    pub total_size: u64,
    pub files: Vec<TorrentFile>,
    pub comment: Option<String>,
    pub creation_date: Option<i64>,
    pub announce_list: Vec<String>,
}

#[derive(Debug)]
pub struct MagnetInfo {
    pub name: Option<String>,
    pub info_hash: String,
    pub trackers: Vec<String>,
}

/// Type of download.
#[derive(Clone, Copy, Debug, PartialEq, Eq, Structural)]
pub enum DownloadType {
    Http,
    Ftp,
    Torrent,
    Magnet,
}

impl DownloadType {
    pub open spec fn name(self) -> Seq<char> {
        match self {
            DownloadType::Http => "http"@,
            DownloadType::Ftp => "ftp"@,
            DownloadType::Torrent => "torrent"@,
            DownloadType::Magnet => "magnet"@,
        }
    }

    /// The name under which the type is stored and shown.
    pub fn to_name(self) -> (r: String)
        ensures
            r@ == self.name(),
    {
        match self {
            DownloadType::Http => owned("http"),
            DownloadType::Ftp => owned("ftp"),
            DownloadType::Torrent => owned("torrent"),
            DownloadType::Magnet => owned("magnet"),
        }
    }
}

/// State of a download as aria2 names it.
#[derive(Clone, Copy, Debug, PartialEq, Eq, Structural)]
pub enum DownloadState {
    Active,
    Waiting,
    Paused,
    Complete,
    Error,
    Removed,
}

impl DownloadState {
    pub open spec fn name(self) -> Seq<char> {
        match self {
            DownloadState::Active => "active"@,
            DownloadState::Waiting => "waiting"@,
            DownloadState::Paused => "paused"@,
            DownloadState::Complete => "complete"@,
            DownloadState::Error => "error"@,
            DownloadState::Removed => "removed"@,
        }
    }

    /// The state that a name of aria2 stands for; an unknown name stands
    /// for `Waiting`.
    pub open spec fn spec_from_name(name: Seq<char>) -> DownloadState {
        if name == "active"@ {
            DownloadState::Active
        } else if name == "paused"@ {
            DownloadState::Paused
        } else if name == "complete"@ {
            DownloadState::Complete
        } else if name == "error"@ {
            DownloadState::Error
        } else if name == "removed"@ {
            DownloadState::Removed
        } else {
            DownloadState::Waiting
        }
    }

    pub fn to_name(self) -> (r: String)
        ensures
            r@ == self.name(),
    {
        match self {
            DownloadState::Active => owned("active"),
            DownloadState::Waiting => owned("waiting"),
            DownloadState::Paused => owned("paused"),
            DownloadState::Complete => owned("complete"),
            DownloadState::Error => owned("error"),
            DownloadState::Removed => owned("removed"),
        }
    }

    pub fn from_name(name: &str) -> (r: DownloadState)
        ensures
            r == DownloadState::spec_from_name(name@),
    {
        if str_eq(name, "active") {
            DownloadState::Active
        } else if str_eq(name, "paused") {
            DownloadState::Paused
        } else if str_eq(name, "complete") {
            DownloadState::Complete
        } else if str_eq(name, "error") {
            DownloadState::Error
        } else if str_eq(name, "removed") {
            DownloadState::Removed
        } else {
            DownloadState::Waiting
        }
    }
}

/// A download as the front end shows it.
#[derive(Debug)]
pub struct Download {
    pub id: i64,
    pub gid: String,
    pub name: String,
    pub url: Option<String>,
    pub magnet_uri: Option<String>,
    pub info_hash: Option<String>,
    pub download_type: DownloadType,
    pub status: DownloadState,
    pub total_size: u64,
    pub completed_size: u64,
    pub download_speed: u64,
    pub upload_speed: u64,
    pub save_path: String,
    pub created_at: String,
    pub completed_at: Option<String>,
    pub error_message: Option<String>,
    pub connections: u32,
    pub seeders: u32,
    pub selected_files: Option<Vec<usize>>,
}

/// User-friendly category of a failed download.
#[derive(Clone, Copy, Debug, PartialEq, Eq, Structural)]
pub enum ErrorKind {
    NetworkError,
    FileError,
    NotFound,
    Timeout,
    AuthRequired,
    AlreadyExists,
    ResumeNotSupported,
    Unknown,
}

impl ErrorKind {
    /// The category of an exit code of aria2.
    pub open spec fn spec_from_code(code: i32) -> ErrorKind {
        if code == 2 {
            ErrorKind::Timeout
        } else if code == 3 {
            ErrorKind::NotFound
        } else if code == 6 {
            ErrorKind::NetworkError
        } else if code == 7 {
            ErrorKind::ResumeNotSupported
        } else if code == 13 {
            ErrorKind::AlreadyExists
        } else if code == 24 {
            ErrorKind::AuthRequired
        } else {
            ErrorKind::Unknown
        }
    }

    /// The message to show for the category.
    pub open spec fn spec_message(self) -> Seq<char> {
        match self {
            ErrorKind::NetworkError => "Connection failed"@,
            ErrorKind::FileError => "File operation failed"@,
            ErrorKind::NotFound => "File not found (404)"@,
            ErrorKind::Timeout => "Server took too long to respond"@,
            ErrorKind::AuthRequired => "Login required"@,
            ErrorKind::AlreadyExists => "File already exists"@,
            ErrorKind::ResumeNotSupported => "Cannot resume, restarting download"@,
            ErrorKind::Unknown => "Download failed"@,
        }
    }

    /// The category of an exit code of aria2.
    #[verifier::when_used_as_spec(spec_from_code)]
    pub fn from_code(code: i32) -> (r: ErrorKind)
        ensures
            r == ErrorKind::spec_from_code(code),
    {
        match code {
            2 => ErrorKind::Timeout,
            3 => ErrorKind::NotFound,
            6 => ErrorKind::NetworkError,
            7 => ErrorKind::ResumeNotSupported,
            13 => ErrorKind::AlreadyExists,
            24 => ErrorKind::AuthRequired,
            _ => ErrorKind::Unknown,
        }
    }

    /// The message to show for the category.
    pub fn message(&self) -> (r: &'static str)
        ensures
            r@ == self.spec_message(),
    {
        match self {
            ErrorKind::NetworkError => "Connection failed",
            ErrorKind::FileError => "File operation failed",
            ErrorKind::NotFound => "File not found (404)",
            ErrorKind::Timeout => "Server took too long to respond",
            ErrorKind::AuthRequired => "Login required",
            ErrorKind::AlreadyExists => "File already exists",
            ErrorKind::ResumeNotSupported => "Cannot resume, restarting download",
            ErrorKind::Unknown => "Download failed",
        }
    }
}

/// Seconds without progress after which an active download counts as
/// stalled.
pub const STALL_SECONDS: u64 = 30;

/// The state of a download as the application shows it.
#[derive(Debug)]
pub enum AppDownloadState {
    /// Waiting to start.
    Queued,
    /// Downloading with progress.
    Downloading,
    /// Active, but without progress for a while.
    Stalled,
    /// Paused by the user.
    Paused,
    /// Finished.
    Completed,
    /// Failed, with the reason.
    Error { kind: ErrorKind, message: String },
    /// Being retried after a failure.
    Retrying { attempt: u32, max_attempts: u32 },
}

pub enum AppDownloadStateView {
    Queued,
    Downloading,
    Stalled,
    Paused,
    Completed,
    Error { kind: ErrorKind, message: Seq<char> },
    Retrying { attempt: u32, max_attempts: u32 },
}

impl View for AppDownloadState {
    type V = AppDownloadStateView;

    open spec fn view(&self) -> AppDownloadStateView {
        match self {
            AppDownloadState::Queued => AppDownloadStateView::Queued,
            AppDownloadState::Downloading => AppDownloadStateView::Downloading,
            AppDownloadState::Stalled => AppDownloadStateView::Stalled,
            AppDownloadState::Paused => AppDownloadStateView::Paused,
            AppDownloadState::Completed => AppDownloadStateView::Completed,
            AppDownloadState::Error { kind, message } => AppDownloadStateView::Error {
                kind: *kind,
                message: message@,
            },
            AppDownloadState::Retrying { attempt, max_attempts } => AppDownloadStateView::Retrying {
                attempt: *attempt,
                max_attempts: *max_attempts,
            },
        }
    }
}

/// The state that the application shows for a status of aria2: an active
/// download without speed for more than `STALL_SECONDS` is stalled; a
/// failed or removed one carries the category of its error code and the
/// message of aria2, or that of the category where aria2 gives none; a
/// status that is not known reads as queued.
pub open spec fn spec_from_aria2(
    aria2_status: Seq<char>,
    download_speed: u64,
    stall_seconds: u64,
    error_code: Option<i32>,
    error_message: Option<Seq<char>>,
) -> AppDownloadStateView {
    if aria2_status == "active"@ {
        if download_speed == 0 && stall_seconds > STALL_SECONDS {
            AppDownloadStateView::Stalled
        } else {
            AppDownloadStateView::Downloading
        }
    } else if aria2_status == "waiting"@ {
        AppDownloadStateView::Queued
    } else if aria2_status == "paused"@ {
        AppDownloadStateView::Paused
    } else if aria2_status == "complete"@ {
        AppDownloadStateView::Completed
    } else if aria2_status == "error"@ || aria2_status == "removed"@ {
        let kind = match error_code {
            Some(c) => ErrorKind::spec_from_code(c),
            None => ErrorKind::Unknown,
        };
        AppDownloadStateView::Error {
            kind,
            message: match error_message {
                Some(m) => m,
                None => kind.spec_message(),
            },
        }
    } else {
        AppDownloadStateView::Queued
    }
}

impl AppDownloadStateView {
    pub open spec fn is_active(self) -> bool {
        self is Downloading || self is Stalled || self is Retrying
    }

    pub open spec fn is_finished(self) -> bool {
        self is Completed || self is Error
    }

    pub open spec fn can_resume(self) -> bool {
        self is Paused || self is Stalled || self is Error
    }

    /// The name of the state as it is shown.
    pub open spec fn name(self) -> Seq<char> {
        match self {
            AppDownloadStateView::Queued => "queued"@,
            AppDownloadStateView::Downloading => "downloading"@,
            AppDownloadStateView::Stalled => "stalled"@,
            AppDownloadStateView::Paused => "paused"@,
            AppDownloadStateView::Completed => "completed"@,
            AppDownloadStateView::Error { .. } => "error"@,
            AppDownloadStateView::Retrying { attempt, max_attempts } => "retrying ("@
                + crate::text::decimal(attempt as nat) + "/"@ + crate::text::decimal(
                max_attempts as nat,
            ) + ")"@,
        }
    }
}

impl AppDownloadState {
    /// Makes the state to show of what aria2 reports.
    pub fn from_aria2(
        aria2_status: &str,
        download_speed: u64,
        stall_seconds: u64,
        error_code: Option<i32>,
        error_message: Option<&str>,
    ) -> (r: AppDownloadState)
        ensures
            r@ == spec_from_aria2(
                aria2_status@,
                download_speed,
                stall_seconds,
                error_code,
                match error_message {
                    Some(m) => Some(m@),
                    None => None,
                },
            ),
    {
        if str_eq(aria2_status, "active") {
            if download_speed == 0 && stall_seconds > STALL_SECONDS {
                AppDownloadState::Stalled
            } else {
                AppDownloadState::Downloading
            }
        } else if str_eq(aria2_status, "waiting") {
            AppDownloadState::Queued
        } else if str_eq(aria2_status, "paused") {
            AppDownloadState::Paused
        } else if str_eq(aria2_status, "complete") {
            AppDownloadState::Completed
        } else if str_eq(aria2_status, "error") || str_eq(aria2_status, "removed") {
            let kind = match error_code {
                Some(c) => ErrorKind::from_code(c),
                None => ErrorKind::Unknown,
            };
            let message = match error_message {
                Some(m) => owned(m),
                None => owned(kind.message()),
            };
            AppDownloadState::Error { kind, message }
        } else {
            AppDownloadState::Queued
        }
    }

    /// Whether the download is running.
    pub fn is_active(&self) -> (r: bool)
        ensures
            r == self@.is_active(),
    {
        match self {
            AppDownloadState::Downloading | AppDownloadState::Stalled | AppDownloadState::Retrying {
                ..
            } => true,
            _ => false,
        }
    }

    /// Whether the download has ended, well or not.
    pub fn is_finished(&self) -> (r: bool)
        ensures
            r == self@.is_finished(),
    {
        match self {
            AppDownloadState::Completed | AppDownloadState::Error { .. } => true,
            _ => false,
        }
    }

    /// Whether the download can be resumed.
    pub fn can_resume(&self) -> (r: bool)
        ensures
            r == self@.can_resume(),
    {
        match self {
            AppDownloadState::Paused | AppDownloadState::Stalled | AppDownloadState::Error {
                ..
            } => true,
            _ => false,
        }
    }

    /// The name of the state as it is shown.
    pub fn to_name(&self) -> (r: String)
        ensures
            r@ == self@.name(),
    {
        match self {
            AppDownloadState::Queued => owned("queued"),
            AppDownloadState::Downloading => owned("downloading"),
            AppDownloadState::Stalled => owned("stalled"),
            AppDownloadState::Paused => owned("paused"),
            AppDownloadState::Completed => owned("completed"),
            AppDownloadState::Error { .. } => owned("error"),
            AppDownloadState::Retrying { attempt, max_attempts } => {
                let a = crate::text::decimal_string(*attempt as u64);
                let m = crate::text::decimal_string(*max_attempts as u64);
                let head = crate::text::join3("retrying (", a.as_str(), "/");
                crate::text::join3(head.as_str(), m.as_str(), ")")
            },
        }
    }
}

impl Default for AppDownloadState {
    fn default() -> (r: AppDownloadState)
        ensures
            r@ is Queued,
    {
        AppDownloadState::Queued
    }
}

/// A notification of aria2.
#[derive(Debug)]
pub enum Aria2Event {
    DownloadStart { gid: String },
    DownloadPause { gid: String },
    DownloadStop { gid: String },
    DownloadComplete { gid: String },
    DownloadError { gid: String },
    BtDownloadComplete { gid: String },
}

/// Why a text is no id of aria2.
#[derive(Debug)]
pub enum GidError {
    InvalidFormat(String),
}

impl GidError {
    /// The error as one line of text.
    pub fn describe(&self) -> (r: String)
        ensures
            r@ == "Invalid GID format: "@ + (match self {
                GidError::InvalidFormat(s) => s@,
            }),
    {
        match self {
            GidError::InvalidFormat(s) => crate::text::join2("Invalid GID format: ", s.as_str()),
        }
    }
}

/// The id of a download of aria2: 16 hexadecimal digits.
#[derive(Debug)]
pub struct Gid(pub String);

/// A text of exactly 16 hexadecimal digits.
pub open spec fn is_gid_text(s: Seq<char>) -> bool {
    s.len() == 16 && all_hex_digits(s)
}

impl Gid {
    /// Makes an id of a text of exactly 16 hexadecimal digits.
    pub fn new(s: String) -> (r: Result<Gid, GidError>)
        ensures
            match r {
                Ok(g) => is_gid_text(s@) && g.0 == s,
                Err(e) => {
                    &&& !is_gid_text(s@)
                    &&& e matches GidError::InvalidFormat(t)
                    &&& t == s
                },
            },
    {
        let chars = chars_of(s.as_str());
        if chars.len() != 16 {
            return Err(GidError::InvalidFormat(s));
        }
        let mut i: usize = 0;
        while i < 16
            invariant
                i <= 16,
                chars.len() == 16,
                chars@ == s@,
                forall|j: int| 0 <= j < i ==> is_hex_digit(#[trigger] chars@[j]),
            decreases 16 - i,
        {
            if !hex_digit(chars[i]) {
                return Err(GidError::InvalidFormat(s));
            }
            i += 1;
        }
        Ok(Gid(s))
    }

    /// Makes an id of what aria2 sent, unchecked.
    pub fn from_aria2(s: String) -> (g: Gid)
        ensures
            g.0 == s,
    {
        Gid(s)
    }

    /// The text of the id.
    pub fn as_str(&self) -> (r: &str)
        ensures
            r@ == self.0@,
    {
        self.0.as_str()
    }

    /// The text of the id.
    pub fn into_inner(self) -> (r: String)
        ensures
            r == self.0,
    {
        self.0
    }
}

} // verus!
