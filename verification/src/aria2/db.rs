//! The settings of the desktop application and the kinds of links it
//! takes.

use crate::aria2::types::DownloadType;
use crate::config::platform_download_dir;
use crate::text::{chars_of, contains, contains_seq, has_prefix, lowercase_of, owned, starts_with};
use vstd::prelude::*;

verus! {

/// The settings of the desktop application.
#[derive(Debug)]
pub struct Settings {
    pub download_path: String,
    pub max_concurrent_downloads: u32,
    pub max_connections_per_server: u32,
    pub split_count: u32,
    pub download_speed_limit: u64,
    pub upload_speed_limit: u64,
    pub user_agent: String,
    pub enable_notifications: bool,
    pub close_to_tray: bool,
    pub theme: String,
    pub bt_enable_dht: bool,
    pub bt_enable_pex: bool,
    pub bt_enable_lpd: bool,
    pub bt_max_peers: u32,
    /// Seeding cutoff in thousandths of the downloaded size.
    pub bt_seed_ratio_permille: u64,
    pub auto_update_trackers: bool,
    pub delete_files_on_remove: bool,
}

impl Settings {
    /// The settings of a fresh installation, but for the download path.
    pub open spec fn is_default_but_path(&self) -> bool {
        &&& self.max_concurrent_downloads == 5
        &&& self.max_connections_per_server == 16
        &&& self.split_count == 16
        &&& self.download_speed_limit == 0
        &&& self.upload_speed_limit == 0
        &&& self.user_agent@ == "Gosh-Fetch/1.0"@
        &&& self.enable_notifications
        &&& self.close_to_tray
        &&& self.theme@ == "dark"@
        &&& self.bt_enable_dht
        &&& self.bt_enable_pex
        &&& self.bt_enable_lpd
        &&& self.bt_max_peers == 55
        &&& self.bt_seed_ratio_permille == 1000
        &&& self.auto_update_trackers
        &&& !self.delete_files_on_remove
    }

    /// The settings of a fresh installation with the given download path.
    pub fn with_download_path(download_path: String) -> (s: Settings)
        ensures
            s.is_default_but_path(),
            s.download_path == download_path,
    {
        Settings {
            download_path,
            max_concurrent_downloads: 5,
            max_connections_per_server: 16,
            split_count: 16,
            download_speed_limit: 0,
            upload_speed_limit: 0,
            user_agent: owned("Gosh-Fetch/1.0"),
            enable_notifications: true,
            close_to_tray: true,
            theme: owned("dark"),
            bt_enable_dht: true,
            bt_enable_pex: true,
            bt_enable_lpd: true,
            bt_max_peers: 55,
            bt_seed_ratio_permille: 1000,
            auto_update_trackers: true,
            delete_files_on_remove: false,
        }
    }
}

impl Default for Settings {
    fn default() -> (s: Settings)
        ensures
            s.is_default_but_path(),
    {
        let path = match platform_download_dir() {
            Some(d) => d,
            None => owned("~/Downloads"),
        };
        Settings::with_download_path(path)
    }
}

/// The name of the database file in the data directory.
pub const DATABASE_FILE: &'static str = "gosh-fetch.db";

/// The type of download that a link in lower case names: a magnet link by
/// its scheme, a torrent by the word `torrent` anywhere in it, an FTP
/// download by its scheme, else HTTP.
pub open spec fn spec_classify_lowered(lower: Seq<char>) -> DownloadType {
    if has_prefix(lower, "magnet:"@) {
        DownloadType::Magnet
    } else if contains_seq(lower, "torrent"@) {
        DownloadType::Torrent
    } else if has_prefix(lower, "ftp://"@) || has_prefix(lower, "sftp://"@) {
        DownloadType::Ftp
    } else {
        DownloadType::Http
    }
}

/// The type of download that a link in lower case names.
pub fn classify_lowered(lower: &str) -> (r: DownloadType)
    ensures
        r == spec_classify_lowered(lower@),
{
    let l = chars_of(lower);
    if starts_with(&l, &chars_of("magnet:")) {
        DownloadType::Magnet
    } else if contains(&l, &chars_of("torrent")) {
        DownloadType::Torrent
    } else if starts_with(&l, &chars_of("ftp://")) || starts_with(&l, &chars_of("sftp://")) {
        DownloadType::Ftp
    } else {
        DownloadType::Http
    }
}

/// The type of download that a link names, whatever the case of its
/// letters.
pub fn download_type_from_url(url: &str) -> (r: DownloadType)
    ensures
        r == spec_classify_lowered(lowercase_of(url@)),
{
    let lower = url.to_lowercase();
    classify_lowered(lower.as_str())
}

} // verus!
