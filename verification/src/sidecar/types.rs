//! The records that cross the boundary to the front end.

use crate::text::{owned, str_eq};
use vstd::prelude::*;

verus! {

/// Download options as the front end sends them: every number is text.
#[derive(Debug)]
pub struct DownloadOptions {
    /// Directory to save the file.
    pub dir: Option<String>,
    /// Output filename.
    pub out: Option<String>,
    /// Number of connections for this download.
    pub split: Option<String>,
    /// Number of connections per server.
    pub max_connection_per_server: Option<String>,
    /// Custom user agent.
    pub user_agent: Option<String>,
    /// Referer URL.
    pub referer: Option<String>,
    /// Custom headers, each as `Name: value`.
    pub header: Option<Vec<String>>,
    /// Indices of the files of a torrent to download, separated by commas.
    pub select_file: Option<String>,
    /// Seed ratio for torrents.
    pub seed_ratio: Option<String>,
    /// Maximum download speed, as `500K`, `1M` and the like.
    pub max_download_limit: Option<String>,
    /// Maximum upload speed.
    pub max_upload_limit: Option<String>,
    /// Download priority: low, normal, high or critical.
    pub priority: Option<String>,
    /// Checksum for verification, as `sha256:<hex>` or `md5:<hex>`.
    pub checksum: Option<String>,
    /// Mirror URLs.
    pub mirrors: Option<Vec<String>>,
    /// Whether the pieces of a torrent are fetched in order.
    pub sequential: Option<bool>,
}

impl Default for DownloadOptions {
    fn default() -> (o: DownloadOptions)
        ensures
            o.dir is None && o.out is None && o.split is None
                && o.max_connection_per_server is None && o.user_agent is None
                && o.referer is None && o.header is None && o.select_file is None
                && o.seed_ratio is None && o.max_download_limit is None
                && o.max_upload_limit is None && o.priority is None && o.checksum is None
                && o.mirrors is None && o.sequential is None,
    {
        DownloadOptions {
            dir: None,
            out: None,
            split: None,
            max_connection_per_server: None,
            user_agent: None,
            referer: None,
            header: None,
            select_file: None,
            seed_ratio: None,
            max_download_limit: None,
            max_upload_limit: None,
            priority: None,
            checksum: None,
            mirrors: None,
            sequential: None,
        }
    }
}

/// Global download statistics, every number as text.
#[derive(Debug)]
pub struct GlobalStat {
    pub download_speed: String,
    pub upload_speed: String,
    pub num_active: String,
    pub num_waiting: String,
    pub num_stopped: String,
    pub num_stopped_total: String,
}

/// Single file in a torrent.
#[derive(Debug)]
pub struct TorrentFile {
    pub index: usize,
    pub path: String,
    pub length: u64,
}

/// What a torrent file holds, for display before it is added.
#[derive(Debug)]
pub struct TorrentInfo {
    pub name: String,
    pub info_hash: String,
    pub total_size: u64,
    pub files: Vec<TorrentFile>,
    pub comment: Option<String>,
    pub creation_date: Option<i64>,
    pub announce_list: Vec<String>,
}

/// What a magnet link holds, for display before it is added.
#[derive(Debug)]
pub struct MagnetInfo {
    pub name: Option<String>,
    pub info_hash: String,
    pub trackers: Vec<String>,
}

/// URI of a file.
#[derive(Debug)]
pub struct FileUri {
    pub uri: String,
    pub status: String,
}

/// One file of a download, every number as text.
#[derive(Debug)]
pub struct DownloadFile {
    pub index: String,
    pub path: String,
    pub length: String,
    pub completed_length: String,
    pub selected: String,
    pub uris: Vec<FileUri>,
}

/// Type of download.
#[derive(Clone, Copy, Debug, PartialEq, Eq, Structural)]
pub enum DownloadType {
    Http,
    Torrent,
    Magnet,
}

impl DownloadType {
    pub open spec fn name(self) -> Seq<char> {
        match self {
            DownloadType::Http => "http"@,
            DownloadType::Torrent => "torrent"@,
            DownloadType::Magnet => "magnet"@,
        }
    }

    /// The type that a stored name stands for; an unknown name stands for
    /// HTTP.
    pub open spec fn spec_from_name(name: Seq<char>) -> DownloadType {
        if name == "torrent"@ {
            DownloadType::Torrent
        } else if name == "magnet"@ {
            DownloadType::Magnet
        } else {
            DownloadType::Http
        }
    }

    /// The name under which the type is stored and shown.
    pub fn to_name(self) -> (r: String)
        ensures
            r@ == self.name(),
    {
        match self {
            DownloadType::Http => owned("http"),
            DownloadType::Torrent => owned("torrent"),
            DownloadType::Magnet => owned("magnet"),
        }
    }

    pub fn from_name(name: &str) -> (r: DownloadType)
        ensures
            r == DownloadType::spec_from_name(name@),
    {
        if str_eq(name, "torrent") {
            DownloadType::Torrent
        } else if str_eq(name, "magnet") {
            DownloadType::Magnet
        } else {
            DownloadType::Http
        }
    }
}

/// State of a download as the front end knows it.
#[derive(Clone, Copy, Debug, PartialEq, Eq, Structural)]
pub enum DownloadState {
    Active,
    Waiting,
    Paused,
    Complete,
    Error,
    Removed,
}

impl DownloadState {
    pub open spec fn name(self) -> Seq<char> {
        match self {
            DownloadState::Active => "active"@,
            DownloadState::Waiting => "waiting"@,
            DownloadState::Paused => "paused"@,
            DownloadState::Complete => "complete"@,
            DownloadState::Error => "error"@,
            DownloadState::Removed => "removed"@,
        }
    }

    /// The state that a name stands for; an unknown name stands for
    /// `Waiting`.
    pub open spec fn spec_from_name(name: Seq<char>) -> DownloadState {
        if name == "active"@ {
            DownloadState::Active
        } else if name == "paused"@ {
            DownloadState::Paused
        } else if name == "complete"@ {
            DownloadState::Complete
        } else if name == "error"@ {
            DownloadState::Error
        } else if name == "removed"@ {
            DownloadState::Removed
        } else {
            DownloadState::Waiting
        }
    }

    /// The name under which the state is stored and shown.
    pub fn to_name(self) -> (r: String)
        ensures
            r@ == self.name(),
    {
        match self {
            DownloadState::Active => owned("active"),
            DownloadState::Waiting => owned("waiting"),
            DownloadState::Paused => owned("paused"),
            DownloadState::Complete => owned("complete"),
            DownloadState::Error => owned("error"),
            DownloadState::Removed => owned("removed"),
        }
    }

    pub fn from_name(name: &str) -> (r: DownloadState)
        ensures
            r == DownloadState::spec_from_name(name@),
    {
        if str_eq(name, "active") {
            DownloadState::Active
        } else if str_eq(name, "paused") {
            DownloadState::Paused
        } else if str_eq(name, "complete") {
            DownloadState::Complete
        } else if str_eq(name, "error") {
            DownloadState::Error
        } else if str_eq(name, "removed") {
            DownloadState::Removed
        } else {
            DownloadState::Waiting
        }
    }
}

/// Every type and every state is read back from its name.
pub proof fn lemma_names_round_trip()
    ensures
        forall|t: DownloadType| DownloadType::spec_from_name(t.name()) == t,
        forall|s: DownloadState| DownloadState::spec_from_name(s.name()) == s,
{
    reveal_strlit("http");
    reveal_strlit("torrent");
    reveal_strlit("magnet");
    reveal_strlit("active");
    reveal_strlit("waiting");
    reveal_strlit("paused");
    reveal_strlit("complete");
    reveal_strlit("error");
    reveal_strlit("removed");
    assert forall|t: DownloadType| DownloadType::spec_from_name(t.name()) == t by {
        assert("http"@.len() == 4 && "torrent"@.len() == 7 && "magnet"@.len() == 6);
    }
    assert forall|s: DownloadState| DownloadState::spec_from_name(s.name()) == s by {
        assert("active"@.len() == 6 && "waiting"@.len() == 7 && "paused"@.len() == 6
            && "complete"@.len() == 8 && "error"@.len() == 5 && "removed"@.len() == 7);
        assert("active"@[0] == 'a' && "paused"@[0] == 'p' && "waiting"@[0] == 'w'
            && "removed"@[0] == 'r');
    }
}

/// A download as the front end shows it.
#[derive(Debug)]
pub struct Download {
    pub id: i64,
    pub gid: String,
    pub name: String,
    pub url: Option<String>,
    pub magnet_uri: Option<String>,
    pub info_hash: Option<String>,
    pub download_type: DownloadType,
    pub status: DownloadState,
    pub total_size: u64,
    pub completed_size: u64,
    pub download_speed: u64,
    pub upload_speed: u64,
    pub save_path: String,
    pub created_at: String,
    pub completed_at: Option<String>,
    pub error_message: Option<String>,
    pub connections: u32,
    pub seeders: u32,
    pub selected_files: Option<Vec<usize>>,
}

} // verus!
