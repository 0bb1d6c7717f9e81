//! What the commands of the front end decide and compute; the caller
//! performs what touches the system.

use crate::config::{
    download_path_from, path_join, platform_download_dir, platform_home_dir, AllocationMode,
    EngineConfig,
};
use crate::sidecar::db::Settings;
use crate::sidecar::engine_adapter::TorrentFileInfo;
use crate::sidecar::error::{Error, ErrorView};
use crate::sidecar::types::{DownloadFile, MagnetInfo, TorrentFile, TorrentInfo};
use crate::text::{chars_of, contains, contains_seq, decimal, decimal_string, owned, str_eq};
use crate::torrent::metainfo::{flattened, Metainfo};
use crate::torrent::{hash_hex, hex_of_bytes, MagnetUri};
use crate::types::{clone_opt, clone_strings, opt_view, strings_view};
use vstd::prelude::*;

verus! {

/// The version of the application.
pub const APP_VERSION: &'static str = "0.1.0";

/// The version of the application.
pub fn get_app_version() -> (r: String)
    ensures
        r@ == APP_VERSION@,
{
    owned(APP_VERSION)
}

/// The user agents that the settings offer, each with its label.
pub open spec fn user_agent_presets() -> Seq<(Seq<char>, Seq<char>)> {
    seq![
        ("gosh-dl"@, "gosh-dl/0.1.0"@),
        (
            "Chrome (Windows)"@,
            "Mozilla/5.0 (Windows NT 10.0; Win64; x64) AppleWebKit/537.36 (KHTML, like Gecko) Chrome/133.0.0.0 Safari/537.36"@,
        ),
        (
            "Chrome (macOS)"@,
            "Mozilla/5.0 (Macintosh; Intel Mac OS X 10_15_7) AppleWebKit/537.36 (KHTML, like Gecko) Chrome/133.0.0.0 Safari/537.36"@,
        ),
        (
            "Firefox (Windows)"@,
            "Mozilla/5.0 (Windows NT 10.0; Win64; x64; rv:135.0) Gecko/20100101 Firefox/135.0"@,
        ),
        (
            "Firefox (Linux)"@,
            "Mozilla/5.0 (X11; Linux x86_64; rv:135.0) Gecko/20100101 Firefox/135.0"@,
        ),
        ("Wget"@, "Wget/1.25.0"@),
        ("Curl"@, "curl/8.12.1"@),
    ]
}

/// The user agents that the settings offer, each with its label.
pub fn get_user_agent_presets() -> (r: Vec<(String, String)>)
    ensures
        crate::types::pairs_view(r@) == user_agent_presets(),
{
    let mut r: Vec<(String, String)> = Vec::new();
    r.push((owned("gosh-dl"), owned("gosh-dl/0.1.0")));
    r.push(
        (
            owned("Chrome (Windows)"),
            owned(
                "Mozilla/5.0 (Windows NT 10.0; Win64; x64) AppleWebKit/537.36 (KHTML, like Gecko) Chrome/133.0.0.0 Safari/537.36",
            ),
        ),
    );
    r.push(
        (
            owned("Chrome (macOS)"),
            owned(
                "Mozilla/5.0 (Macintosh; Intel Mac OS X 10_15_7) AppleWebKit/537.36 (KHTML, like Gecko) Chrome/133.0.0.0 Safari/537.36",
            ),
        ),
    );
    r.push(
        (
            owned("Firefox (Windows)"),
            owned(
                "Mozilla/5.0 (Windows NT 10.0; Win64; x64; rv:135.0) Gecko/20100101 Firefox/135.0",
            ),
        ),
    );
    r.push(
        (
            owned("Firefox (Linux)"),
            owned("Mozilla/5.0 (X11; Linux x86_64; rv:135.0) Gecko/20100101 Firefox/135.0"),
        ),
    );
    r.push((owned("Wget"), owned("Wget/1.25.0")));
    r.push((owned("Curl"), owned("curl/8.12.1")));
    assert(crate::types::pairs_view(r@) =~= user_agent_presets());
    r
}

/// The download path to offer: the platform's download directory, else
/// `Downloads` in the home directory, else `~/Downloads`.
pub fn get_default_download_path() -> (r: String) {
    let home_downloads = match platform_home_dir() {
        Some(home) => Some(path_join(home.as_str(), "Downloads")),
        None => None,
    };
    download_path_from(platform_download_dir(), home_downloads, "~/Downloads")
}

/// Why a path is refused before the file system is asked, if it is.
pub open spec fn path_text_refusal(path: Seq<char>) -> Option<Seq<char>> {
    if path.len() == 0 {
        Some("Path cannot be empty"@)
    } else if contains_seq(path, "://"@) {
        Some("URL schemes are not allowed in file paths"@)
    } else {
        None
    }
}

/// Checks the text of a path that is to be opened: it must not be empty
/// and must hold no URL scheme. Whether the path exists is the caller's to
/// find out.
pub fn check_path_text(path: &str) -> (r: Result<(), Error>)
    ensures
        match r {
            Ok(_) => path_text_refusal(path@) is None,
            Err(e) => path_text_refusal(path@) == Some(e@->InvalidInput_0) && e@ is InvalidInput,
        },
{
    if path.is_empty() {
        return Err(Error::InvalidInput(owned("Path cannot be empty")));
    }
    if contains(&chars_of(path), &chars_of("://")) {
        return Err(Error::InvalidInput(owned("URL schemes are not allowed in file paths")));
    }
    Ok(())
}

/// The error for a path that the file system does not have.
pub fn path_missing(path: &str) -> (e: Error)
    ensures
        e@ == ErrorView::InvalidInput("Path does not exist or is inaccessible: "@ + path@),
{
    Error::InvalidInput(crate::text::join2("Path does not exist or is inaccessible: ", path))
}

/// The file of a download that stands for file `index` of a torrent.
pub open spec fn download_file_view(index: int, f: TorrentFileInfo) -> (
    Seq<char>,
    Seq<char>,
    Seq<char>,
    Seq<char>,
    Seq<char>,
) {
    (
        decimal(index as nat),
        f.path@,
        decimal(f.size as nat),
        decimal(f.completed as nat),
        if f.selected {
            "true"@
        } else {
            "false"@
        },
    )
}

/// The files of a torrent as files of a download: every number as text,
/// without URIs.
pub fn get_torrent_files(files: &Vec<TorrentFileInfo>) -> (r: Vec<DownloadFile>)
    ensures
        r@.len() == files@.len(),
        forall|i: int|
            0 <= i < r@.len() ==> {
                let d = #[trigger] r@[i];
                &&& (d.index@, d.path@, d.length@, d.completed_length@, d.selected@)
                    == download_file_view(i, files@[i])
                &&& d.uris@.len() == 0
            },
{
    let mut out: Vec<DownloadFile> = Vec::new();
    let mut i: usize = 0;
    while i < files.len()
        invariant
            i <= files.len(),
            out@.len() == i,
            forall|k: int|
                0 <= k < i ==> {
                    let d = #[trigger] out@[k];
                    &&& (d.index@, d.path@, d.length@, d.completed_length@, d.selected@)
                        == download_file_view(k, files@[k])
                    &&& d.uris@.len() == 0
                },
        decreases files.len() - i,
    {
        let f = &files[i];
        out.push(
            DownloadFile {
                index: decimal_string(i as u64),
                path: f.path.clone(),
                length: decimal_string(f.size),
                completed_length: decimal_string(f.completed),
                selected: if f.selected {
                    owned("true")
                } else {
                    owned("false")
                },
                uris: Vec::new(),
            },
        );
        i += 1;
    }
    out
}

/// Files of a running torrent cannot be selected: the selection belongs
/// to the options with which the torrent is added.
pub fn select_torrent_files() -> (r: Result<(), Error>)
    ensures
        r matches Err(e) && e@ == ErrorView::InvalidInput(
            "File selection must be specified when adding the torrent. Use the select_file option in DownloadOptions."@,
        ),
{
    Err(
        Error::InvalidInput(
            owned(
                "File selection must be specified when adding the torrent. Use the select_file option in DownloadOptions.",
            ),
        ),
    )
}

/// What a parsed torrent file holds, for display: the files with their
/// indices, the info-hash in hexadecimal and the trackers of all tiers.
pub fn torrent_info_of(metainfo: &Metainfo) -> (r: TorrentInfo)
    ensures
        r.name@ == metainfo.info.name@,
        r.info_hash@ == hex_of_bytes(metainfo.info_hash@),
        r.total_size == metainfo.info.total_size,
        r.files@.len() == metainfo.info.files@.len(),
        forall|i: int|
            0 <= i < r.files@.len() ==> (#[trigger] r.files@[i]).index == i && r.files@[i].path@
                == metainfo.info.files@[i].path@ && r.files@[i].length
                == metainfo.info.files@[i].length,
        r.comment == metainfo.comment,
        r.creation_date == metainfo.creation_date,
        strings_view(r.announce_list@) == flattened(metainfo.announce_list@),
{
    let mut files: Vec<TorrentFile> = Vec::new();
    let mut i: usize = 0;
    while i < metainfo.info.files.len()
        invariant
            i <= metainfo.info.files.len(),
            files@.len() == i,
            forall|k: int|
                0 <= k < i ==> (#[trigger] files@[k]).index == k && files@[k].path@
                    == metainfo.info.files@[k].path@ && files@[k].length
                    == metainfo.info.files@[k].length,
        decreases metainfo.info.files.len() - i,
    {
        let f = &metainfo.info.files[i];
        files.push(TorrentFile { index: i, path: f.path.clone(), length: f.length });
        i += 1;
    }
    let mut trackers: Vec<String> = Vec::new();
    let mut t: usize = 0;
    assert(strings_view(trackers@) =~= flattened(metainfo.announce_list@.take(0)));
    while t < metainfo.announce_list.len()
        invariant
            t <= metainfo.announce_list.len(),
            strings_view(trackers@) == flattened(metainfo.announce_list@.take(t as int)),
        decreases metainfo.announce_list.len() - t,
    {
        let tier = &metainfo.announce_list[t];
        let ghost before = strings_view(trackers@);
        let mut k: usize = 0;
        assert(before + strings_view(tier@.take(0)) =~= before);
        while k < tier.len()
            invariant
                k <= tier.len(),
                strings_view(trackers@) == before + strings_view(tier@.take(k as int)),
            decreases tier.len() - k,
        {
            let ghost sofar = strings_view(trackers@);
            trackers.push(tier[k].clone());
            assert(strings_view(trackers@) =~= sofar.push(tier@[k as int]@));
            assert(strings_view(tier@.take(k + 1)) =~= strings_view(tier@.take(k as int)).push(
                tier@[k as int]@,
            ));
            k += 1;
        }
        proof {
            assert(tier@.take(tier.len() as int) == tier@);
            let tiers = metainfo.announce_list@;
            assert(tiers.take(t + 1).drop_last() == tiers.take(t as int));
            assert(tiers.take(t + 1).last() == *tier);
        }
        t += 1;
    }
    assert(metainfo.announce_list@.take(metainfo.announce_list.len() as int)
        == metainfo.announce_list@);
    TorrentInfo {
        name: metainfo.info.name.clone(),
        info_hash: hash_hex(&metainfo.info_hash),
        total_size: metainfo.info.total_size,
        files,
        comment: clone_opt(&metainfo.comment),
        creation_date: metainfo.creation_date,
        announce_list: trackers,
    }
}

/// What a parsed magnet link holds, for display.
pub fn magnet_info_of(magnet: &MagnetUri) -> (r: MagnetInfo)
    ensures
        r.name == magnet.display_name,
        r.info_hash@ == hex_of_bytes(magnet.info_hash@),
        strings_view(r.trackers@) == strings_view(magnet.trackers@),
{
    MagnetInfo {
        name: clone_opt(&magnet.display_name),
        info_hash: hash_hex(&magnet.info_hash),
        trackers: clone_strings(&magnet.trackers),
    }
}

/// The allocation mode that a settings value names: `full`, `sparse`, or
/// none for anything else.
pub open spec fn spec_allocation_mode(name: Seq<char>) -> AllocationMode {
    if name == "full"@ {
        AllocationMode::Full
    } else if name == "sparse"@ {
        AllocationMode::Sparse
    } else {
        AllocationMode::Unallocated
    }
}

pub fn allocation_mode_of(name: &str) -> (r: AllocationMode)
    ensures
        r == spec_allocation_mode(name@),
{
    if str_eq(name, "full") {
        AllocationMode::Full
    } else if str_eq(name, "sparse") {
        AllocationMode::Sparse
    } else {
        AllocationMode::Unallocated
    }
}

/// The speed limit that a settings value of bytes a second stands for:
/// zero is no limit.
pub open spec fn limit_of(n: u64) -> Option<u64> {
    if n > 0 {
        Some(n)
    } else {
        None
    }
}

/// `after` is `before` with the settings applied: the download directory,
/// the concurrency limits (the connections of a download are the larger of
/// the connections per server and the split count), the speed limits, the
/// user agent, the peer discovery switches, the peer ceiling, the seed
/// ratio, the proxy, the timeouts, the retries and the allocation mode.
/// Everything else stays.
pub open spec fn settings_applied(before: EngineConfig, settings: Settings, after: EngineConfig)
    -> bool {
    &&& after.download_dir@ == settings.download_path@
    &&& after.max_concurrent_downloads == settings.max_concurrent_downloads
    &&& after.max_connections_per_download == if settings.max_connections_per_server
        >= settings.split_count {
        settings.max_connections_per_server
    } else {
        settings.split_count
    }
    &&& after.min_segment_size == before.min_segment_size
    &&& after.global_download_limit == limit_of(settings.download_speed_limit)
    &&& after.global_upload_limit == limit_of(settings.upload_speed_limit)
    &&& after.user_agent@ == settings.user_agent@
    &&& after.enable_dht == settings.bt_enable_dht
    &&& after.enable_pex == settings.bt_enable_pex
    &&& after.enable_lpd == settings.bt_enable_lpd
    &&& after.max_peers == settings.bt_max_peers
    &&& after.seed_ratio_permille == if settings.bt_seed_ratio_permille > i64::MAX {
        i64::MAX
    } else {
        settings.bt_seed_ratio_permille as i64
    }
    &&& after.database_path == before.database_path
    &&& opt_view(after.http.proxy_url) == if settings.proxy_url@.len() == 0 {
        None
    } else {
        Some(settings.proxy_url@)
    }
    &&& after.http.connect_timeout == settings.connect_timeout
    &&& after.http.read_timeout == settings.read_timeout
    &&& after.http.max_retries == settings.max_retries
    &&& after.http.max_redirects == before.http.max_redirects
    &&& after.http.retry_delay_ms == before.http.retry_delay_ms
    &&& after.http.max_retry_delay_ms == before.http.max_retry_delay_ms
    &&& after.http.accept_invalid_certs == before.http.accept_invalid_certs
    &&& after.torrent.allocation_mode == spec_allocation_mode(settings.allocation_mode@)
    &&& after.torrent.listen_port_range == before.torrent.listen_port_range
    &&& after.torrent.dht_bootstrap_nodes == before.torrent.dht_bootstrap_nodes
    &&& after.torrent.tracker_update_interval == before.torrent.tracker_update_interval
    &&& after.torrent.peer_timeout == before.torrent.peer_timeout
    &&& after.torrent.max_pending_requests == before.torrent.max_pending_requests
    &&& after.torrent.enable_endgame == before.torrent.enable_endgame
}

/// The configuration of the engine with the settings applied.
pub fn apply_settings_to_config(config: EngineConfig, settings: &Settings) -> (r: EngineConfig)
    ensures
        settings_applied(config, *settings, r),
{
    let mut c = config;
    c.download_dir = settings.download_path.clone();
    c.max_concurrent_downloads = settings.max_concurrent_downloads as usize;
    c.max_connections_per_download = if settings.max_connections_per_server
        >= settings.split_count {
        settings.max_connections_per_server as usize
    } else {
        settings.split_count as usize
    };
    c.global_download_limit = if settings.download_speed_limit > 0 {
        Some(settings.download_speed_limit)
    } else {
        None
    };
    c.global_upload_limit = if settings.upload_speed_limit > 0 {
        Some(settings.upload_speed_limit)
    } else {
        None
    };
    c.user_agent = settings.user_agent.clone();
    c.enable_dht = settings.bt_enable_dht;
    c.enable_pex = settings.bt_enable_pex;
    c.enable_lpd = settings.bt_enable_lpd;
    c.max_peers = settings.bt_max_peers as usize;
    c.seed_ratio_permille = if settings.bt_seed_ratio_permille > i64::MAX as u64 {
        i64::MAX
    } else {
        settings.bt_seed_ratio_permille as i64
    };
    c.http.proxy_url = if settings.proxy_url.as_str().is_empty() {
        None
    } else {
        Some(settings.proxy_url.clone())
    };
    c.http.connect_timeout = settings.connect_timeout;
    c.http.read_timeout = settings.read_timeout;
    c.http.max_retries = settings.max_retries as usize;
    c.torrent.allocation_mode = allocation_mode_of(settings.allocation_mode.as_str());
    c
}

// ---------------------------------------------------------------------------
// The host system
// ---------------------------------------------------------------------------

/// The platform that the application runs on.
#[derive(Clone, Copy, Debug, PartialEq, Eq, Structural)]
pub enum Platform {
    Linux,
    MacOs,
    Windows,
}

/// The directory of the application below the data directory of the
/// platform.
pub const APP_DATA_NAME: &'static str = "com.gosh.fetch";

impl Platform {
    /// The program that opens a folder in the file manager.
    pub open spec fn opener(self) -> Seq<char> {
        match self {
            Platform::Linux => "xdg-open"@,
            Platform::MacOs => "open"@,
            Platform::Windows => "explorer"@,
        }
    }

    /// Where the data directory lies below the home directory, where the
    /// platform names none.
    pub open spec fn data_dir_below_home(self) -> Seq<char> {
        match self {
            Platform::Linux => ".local/share"@,
            Platform::MacOs => "Library/Application Support"@,
            Platform::Windows => "AppData/Roaming"@,
        }
    }

    pub fn to_opener(self) -> (r: &'static str)
        ensures
            r@ == self.opener(),
    {
        match self {
            Platform::Linux => "xdg-open",
            Platform::MacOs => "open",
            Platform::Windows => "explorer",
        }
    }

    pub fn to_data_dir_below_home(self) -> (r: &'static str)
        ensures
            r@ == self.data_dir_below_home(),
    {
        match self {
            Platform::Linux => ".local/share",
            Platform::MacOs => "Library/Application Support",
            Platform::Windows => "AppData/Roaming",
        }
    }
}

/// The command that opens `folder` in the file manager: the program and
/// its arguments.
pub open spec fn spec_folder_command(platform: Platform, folder: Seq<char>) -> Seq<Seq<char>> {
    seq![platform.opener(), folder]
}

/// The command that shows a file in the file manager. Where the path is
/// a file, macOS and Windows select it in its folder; everything else
/// opens the folder.
pub open spec fn spec_reveal_command(
    platform: Platform,
    path: Seq<char>,
    folder: Seq<char>,
    is_file: bool,
) -> Seq<Seq<char>> {
    if is_file && platform == Platform::MacOs {
        seq!["open"@, "-R"@, path]
    } else if is_file && platform == Platform::Windows {
        seq!["explorer"@, "/select,"@, path]
    } else {
        spec_folder_command(platform, folder)
    }
}

/// The command that opens `folder` in the file manager.
pub fn folder_command(platform: Platform, folder: &str) -> (r: Vec<String>)
    ensures
        strings_view(r@) == spec_folder_command(platform, folder@),
{
    let mut command: Vec<String> = Vec::new();
    command.push(owned(platform.to_opener()));
    command.push(owned(folder));
    assert(strings_view(command@) =~= spec_folder_command(platform, folder@));
    command
}

/// The command that shows the file or folder `path`, which lies in
/// `folder`, in the file manager.
pub fn reveal_command(platform: Platform, path: &str, folder: &str, is_file: bool) -> (r: Vec<
    String,
>)
    ensures
        strings_view(r@) == spec_reveal_command(platform, path@, folder@, is_file),
{
    let selects = match platform {
        Platform::MacOs => is_file,
        Platform::Windows => is_file,
        Platform::Linux => false,
    };
    if !selects {
        return folder_command(platform, folder);
    }
    let mut command: Vec<String> = Vec::new();
    match platform {
        Platform::MacOs => {
            command.push(owned("open"));
            command.push(owned("-R"));
        },
        _ => {
            command.push(owned("explorer"));
            command.push(owned("/select,"));
        },
    }
    command.push(owned(path));
    assert(strings_view(command@) =~= spec_reveal_command(platform, path@, folder@, is_file));
    command
}

} // verus!
