//! Engine configuration and its validation.

use crate::error::{EngineError, EngineErrorView};
use crate::text::{join2, owned};
use crate::types::{clone_opt, clone_strings, opt_view, strings_view};
use vstd::prelude::*;

verus! {

/// How the files of a torrent are laid out on disk before data arrives.
#[derive(Clone, Copy, Debug, PartialEq, Eq, Structural)]
pub enum AllocationMode {
    /// Files grow as pieces are written.
    Unallocated,
    Sparse,
    Full,
}

/// HTTP-specific configuration.
#[derive(Debug)]
pub struct HttpConfig {
    /// Connection timeout in seconds.
    pub connect_timeout: u64,
    /// Idle read timeout in seconds.
    pub read_timeout: u64,
    /// Maximum redirects to follow.
    pub max_redirects: usize,
    /// Retry attempts for a failed segment.
    pub max_retries: usize,
    /// Initial retry delay in milliseconds.
    pub retry_delay_ms: u64,
    /// Maximum retry delay in milliseconds.
    pub max_retry_delay_ms: u64,
    /// Whether to accept invalid TLS certificates.
    pub accept_invalid_certs: bool,
    /// Proxy to send every request through.
    pub proxy_url: Option<String>,
}

/// BitTorrent-specific configuration.
#[derive(Debug)]
pub struct TorrentConfig {
    /// Port range for incoming connections, both ends included.
    pub listen_port_range: (u16, u16),
    /// DHT bootstrap nodes.
    pub dht_bootstrap_nodes: Vec<String>,
    /// Tracker update interval in seconds.
    pub tracker_update_interval: u64,
    /// Peer request timeout in seconds.
    pub peer_timeout: u64,
    /// Maximum outstanding block requests per peer.
    pub max_pending_requests: usize,
    /// Enable endgame mode.
    pub enable_endgame: bool,
    /// File allocation before data arrives.
    pub allocation_mode: AllocationMode,
}

/// Main configuration of the download engine.
#[derive(Debug)]
pub struct EngineConfig {
    /// Base save directory when a download names none.
    pub download_dir: String,
    /// Width of the admission limiter.
    pub max_concurrent_downloads: usize,
    /// Segment fan-out of one HTTP download.
    pub max_connections_per_download: usize,
    /// Floor on the size of a segment, in bytes.
    pub min_segment_size: u64,
    /// Global download limit in bytes a second; reserved.
    pub global_download_limit: Option<u64>,
    /// Global upload limit in bytes a second; reserved.
    pub global_upload_limit: Option<u64>,
    /// Default user agent.
    pub user_agent: String,
    pub enable_dht: bool,
    pub enable_pex: bool,
    pub enable_lpd: bool,
    /// Peer ceiling of one torrent.
    pub max_peers: usize,
    /// Seeding cutoff, in thousandths of the downloaded size.
    pub seed_ratio_permille: i64,
    /// Location of the persistent store.
    pub database_path: Option<String>,
    pub http: HttpConfig,
    pub torrent: TorrentConfig,
}

/// What the file system says of the download directory.
#[derive(Clone, Copy, Debug, PartialEq, Eq, Structural)]
pub struct DirProbe {
    pub exists: bool,
    pub is_dir: bool,
}

/// `dirs::download_dir`: the user's download directory on this machine, if
/// the platform names one.
#[verifier::external_body]
pub(crate) fn platform_download_dir() -> (r: Option<String>) {
    dirs::download_dir().map(|p| p.to_string_lossy().to_string())
}

/// `dirs::data_dir`: the user's data directory on this machine, if the
/// platform names one.
#[verifier::external_body]
pub(crate) fn platform_data_dir() -> (r: Option<String>) {
    dirs::data_dir().map(|p| p.to_string_lossy().to_string())
}

/// `dirs::home_dir`: the user's home directory on this machine, if the
/// platform names one.
#[verifier::external_body]
pub(crate) fn platform_home_dir() -> (r: Option<String>) {
    dirs::home_dir().map(|p| p.to_string_lossy().to_string())
}

/// `std::path::Path::join`: `base` extended by the component `part`, with
/// the separator of the platform.
#[verifier::external_body]
pub(crate) fn path_join(base: &str, part: &str) -> (r: String) {
    std::path::Path::new(base).join(part).to_string_lossy().to_string()
}

/// The download path to offer for what the platform names: its download
/// directory, else `home_downloads`, the folder `Downloads` in the home
/// directory, else `fallback`.
pub open spec fn spec_download_path(
    download_dir: Option<Seq<char>>,
    home_downloads: Option<Seq<char>>,
    fallback: Seq<char>,
) -> Seq<char> {
    match download_dir {
        Some(dir) => dir,
        None => match home_downloads {
            Some(dir) => dir,
            None => fallback,
        },
    }
}

/// The download path to offer for what the platform names.
pub fn download_path_from(
    download_dir: Option<String>,
    home_downloads: Option<String>,
    fallback: &str,
) -> (r: String)
    ensures
        r@ == spec_download_path(opt_view(download_dir), opt_view(home_downloads), fallback@),
{
    match download_dir {
        Some(dir) => dir,
        None => match home_downloads {
            Some(dir) => dir,
            None => owned(fallback),
        },
    }
}

impl Clone for HttpConfig {
    fn clone(&self) -> (r: Self)
        ensures
            r == *self,
    {
        HttpConfig {
            connect_timeout: self.connect_timeout,
            read_timeout: self.read_timeout,
            max_redirects: self.max_redirects,
            max_retries: self.max_retries,
            retry_delay_ms: self.retry_delay_ms,
            max_retry_delay_ms: self.max_retry_delay_ms,
            accept_invalid_certs: self.accept_invalid_certs,
            proxy_url: clone_opt(&self.proxy_url),
        }
    }
}

impl Default for HttpConfig {
    fn default() -> (c: HttpConfig)
        ensures
            c.connect_timeout == 30,
            c.read_timeout == 60,
            c.max_redirects == 10,
            c.max_retries == 3,
            c.retry_delay_ms == 1000,
            c.max_retry_delay_ms == 30000,
            !c.accept_invalid_certs,
            c.proxy_url is None,
    {
        HttpConfig {
            connect_timeout: 30,
            read_timeout: 60,
            max_redirects: 10,
            max_retries: 3,
            retry_delay_ms: 1000,
            max_retry_delay_ms: 30000,
            accept_invalid_certs: false,
            proxy_url: None,
        }
    }
}

impl Clone for TorrentConfig {
    fn clone(&self) -> (r: Self)
        ensures
            r.listen_port_range == self.listen_port_range,
            r.dht_bootstrap_nodes@ == self.dht_bootstrap_nodes@,
            r.tracker_update_interval == self.tracker_update_interval,
            r.peer_timeout == self.peer_timeout,
            r.max_pending_requests == self.max_pending_requests,
            r.enable_endgame == self.enable_endgame,
            r.allocation_mode == self.allocation_mode,
    {
        TorrentConfig {
            listen_port_range: self.listen_port_range,
            dht_bootstrap_nodes: clone_strings(&self.dht_bootstrap_nodes),
            tracker_update_interval: self.tracker_update_interval,
            peer_timeout: self.peer_timeout,
            max_pending_requests: self.max_pending_requests,
            enable_endgame: self.enable_endgame,
            allocation_mode: self.allocation_mode,
        }
    }
}

/// The DHT routers a fresh configuration starts from.
pub open spec fn default_bootstrap_nodes() -> Seq<Seq<char>> {
    seq![
        "router.bittorrent.com:6881"@,
        "router.utorrent.com:6881"@,
        "dht.transmissionbt.com:6881"@,
    ]
}

impl Default for TorrentConfig {
    fn default() -> (c: TorrentConfig)
        ensures
            c.listen_port_range == (6881u16, 6889u16),
            strings_view(c.dht_bootstrap_nodes@) == default_bootstrap_nodes(),
            c.tracker_update_interval == 1800,
            c.peer_timeout == 120,
            c.max_pending_requests == 16,
            c.enable_endgame,
            c.allocation_mode == AllocationMode::Sparse,
    {
        let mut nodes: Vec<String> = Vec::new();
        nodes.push(owned("router.bittorrent.com:6881"));
        nodes.push(owned("router.utorrent.com:6881"));
        nodes.push(owned("dht.transmissionbt.com:6881"));
        assert(strings_view(nodes@) =~= default_bootstrap_nodes());
        TorrentConfig {
            listen_port_range: (6881, 6889),
            dht_bootstrap_nodes: nodes,
            tracker_update_interval: 1800,
            peer_timeout: 120,
            max_pending_requests: 16,
            enable_endgame: true,
            allocation_mode: AllocationMode::Sparse,
        }
    }
}

/// The first rule that a configuration breaks, as the input error that
/// validation reports for it; nothing if it breaks none. The rules are
/// tried in this order: the download directory exists, it is a directory,
/// the two concurrency limits are at least 1, the seed ratio is not
/// negative, the port range is not inverted.
pub open spec fn first_violation(c: EngineConfig, dir: DirProbe) -> Option<EngineErrorView> {
    if !dir.exists {
        Some(
            EngineErrorView::InvalidInput {
                field: "download_dir"@,
                message: "Directory does not exist: "@ + c.download_dir@,
            },
        )
    } else if !dir.is_dir {
        Some(
            EngineErrorView::InvalidInput {
                field: "download_dir"@,
                message: "Path is not a directory: "@ + c.download_dir@,
            },
        )
    } else if c.max_concurrent_downloads == 0 {
        Some(
            EngineErrorView::InvalidInput {
                field: "max_concurrent_downloads"@,
                message: "Must be at least 1"@,
            },
        )
    } else if c.max_connections_per_download == 0 {
        Some(
            EngineErrorView::InvalidInput {
                field: "max_connections_per_download"@,
                message: "Must be at least 1"@,
            },
        )
    } else if c.seed_ratio_permille < 0 {
        Some(
            EngineErrorView::InvalidInput {
                field: "seed_ratio"@,
                message: "Must be non-negative"@,
            },
        )
    } else if c.torrent.listen_port_range.0 > c.torrent.listen_port_range.1 {
        Some(
            EngineErrorView::InvalidInput {
                field: "listen_port_range"@,
                message: "Start port must be <= end port"@,
            },
        )
    } else {
        None
    }
}

impl EngineConfig {
    /// Whether the configuration keeps every numeric rule.
    pub open spec fn limits_ok(&self) -> bool {
        &&& self.max_concurrent_downloads >= 1
        &&& self.max_connections_per_download >= 1
        &&& self.seed_ratio_permille >= 0
        &&& self.torrent.listen_port_range.0 <= self.torrent.listen_port_range.1
    }

    /// The values of a fresh configuration, but for the download directory.
    pub open spec fn is_default_but_dir(&self) -> bool {
        &&& self.max_concurrent_downloads == 5
        &&& self.max_connections_per_download == 16
        &&& self.min_segment_size == 1024 * 1024
        &&& self.global_download_limit is None
        &&& self.global_upload_limit is None
        &&& self.user_agent@ == "gosh-dl/0.1.0"@
        &&& self.enable_dht
        &&& self.enable_pex
        &&& self.enable_lpd
        &&& self.max_peers == 55
        &&& self.seed_ratio_permille == 1000
        &&& self.database_path is None
        &&& self.http.connect_timeout == 30
        &&& self.http.read_timeout == 60
        &&& self.http.max_redirects == 10
        &&& self.http.max_retries == 3
        &&& self.http.retry_delay_ms == 1000
        &&& self.http.max_retry_delay_ms == 30000
        &&& !self.http.accept_invalid_certs
        &&& self.http.proxy_url is None
        &&& self.torrent.listen_port_range == (6881u16, 6889u16)
        &&& strings_view(self.torrent.dht_bootstrap_nodes@) == default_bootstrap_nodes()
        &&& self.torrent.tracker_update_interval == 1800
        &&& self.torrent.peer_timeout == 120
        &&& self.torrent.max_pending_requests == 16
        &&& self.torrent.enable_endgame
        &&& self.torrent.allocation_mode == AllocationMode::Sparse
    }

    /// The default configuration with the given download directory; `"."`
    /// stands in where the platform names none.
    pub fn with_platform_dir(dir: Option<String>) -> (c: EngineConfig)
        ensures
            c.is_default_but_dir(),
            c.limits_ok(),
            c.download_dir@ == match dir {
                Some(d) => d@,
                None => "."@,
            },
    {
        let download_dir = match dir {
            Some(d) => d,
            None => owned("."),
        };
        EngineConfig {
            download_dir,
            max_concurrent_downloads: 5,
            max_connections_per_download: 16,
            min_segment_size: 1024 * 1024,
            global_download_limit: None,
            global_upload_limit: None,
            user_agent: owned("gosh-dl/0.1.0"),
            enable_dht: true,
            enable_pex: true,
            enable_lpd: true,
            max_peers: 55,
            seed_ratio_permille: 1000,
            database_path: None,
            http: HttpConfig::default(),
            torrent: TorrentConfig::default(),
        }
    }

    /// A configuration with default values; the download directory is the
    /// one that the platform names.
    pub fn new() -> (c: EngineConfig)
        ensures
            c.is_default_but_dir(),
            c.limits_ok(),
    {
        EngineConfig::with_platform_dir(platform_download_dir())
    }

    /// Sets the download directory.
    pub fn download_dir(self, path: String) -> (c: EngineConfig)
        ensures
            c == (EngineConfig { download_dir: path, ..self }),
    {
        let mut c = self;
        c.download_dir = path;
        c
    }

    /// Sets the maximum of concurrent downloads.
    pub fn max_concurrent_downloads(self, max: usize) -> (c: EngineConfig)
        ensures
            c == (EngineConfig { max_concurrent_downloads: max, ..self }),
    {
        let mut c = self;
        c.max_concurrent_downloads = max;
        c
    }

    /// Sets the maximum of connections per download.
    pub fn max_connections_per_download(self, max: usize) -> (c: EngineConfig)
        ensures
            c == (EngineConfig { max_connections_per_download: max, ..self }),
    {
        let mut c = self;
        c.max_connections_per_download = max;
        c
    }

    /// Sets the global download speed limit.
    pub fn download_limit(self, limit: Option<u64>) -> (c: EngineConfig)
        ensures
            c == (EngineConfig { global_download_limit: limit, ..self }),
    {
        let mut c = self;
        c.global_download_limit = limit;
        c
    }

    /// Sets the global upload speed limit.
    pub fn upload_limit(self, limit: Option<u64>) -> (c: EngineConfig)
        ensures
            c == (EngineConfig { global_upload_limit: limit, ..self }),
    {
        let mut c = self;
        c.global_upload_limit = limit;
        c
    }

    /// Sets the user agent.
    pub fn user_agent(self, ua: String) -> (c: EngineConfig)
        ensures
            c == (EngineConfig { user_agent: ua, ..self }),
    {
        let mut c = self;
        c.user_agent = ua;
        c
    }

    /// Sets the location of the persistent store.
    pub fn database_path(self, path: String) -> (c: EngineConfig)
        ensures
            c == (EngineConfig { database_path: Some(path), ..self }),
    {
        let mut c = self;
        c.database_path = Some(path);
        c
    }

    /// Checks the configuration against what the file system says of the
    /// download directory; fails with the first rule that is broken.
    pub fn validate(&self, dir: DirProbe) -> (r: Result<(), EngineError>)
        ensures
            match r {
                Ok(_) => first_violation(*self, dir) is None,
                Err(e) => first_violation(*self, dir) == Some(e@),
            },
            r is Ok <==> dir.exists && dir.is_dir && self.limits_ok(),
    {
        if !dir.exists {
            return Err(
                EngineError::invalid_input(
                    "download_dir",
                    join2("Directory does not exist: ", self.download_dir.as_str()),
                ),
            );
        }
        if !dir.is_dir {
            return Err(
                EngineError::invalid_input(
                    "download_dir",
                    join2("Path is not a directory: ", self.download_dir.as_str()),
                ),
            );
        }
        if self.max_concurrent_downloads == 0 {
            return Err(
                EngineError::invalid_input("max_concurrent_downloads", owned("Must be at least 1")),
            );
        }
        if self.max_connections_per_download == 0 {
            return Err(
                EngineError::invalid_input(
                    "max_connections_per_download",
                    owned("Must be at least 1"),
                ),
            );
        }
        if self.seed_ratio_permille < 0 {
            return Err(EngineError::invalid_input("seed_ratio", owned("Must be non-negative")));
        }
        if self.torrent.listen_port_range.0 > self.torrent.listen_port_range.1 {
            return Err(
                EngineError::invalid_input(
                    "listen_port_range",
                    owned("Start port must be <= end port"),
                ),
            );
        }
        Ok(())
    }

    /// The location of the persistent store, the configured one if there is
    /// one.
    pub fn get_database_path(&self) -> (r: String)
        ensures
            self.database_path is Some ==> r@ == self.database_path.unwrap()@,
    {
        match &self.database_path {
            Some(p) => p.clone(),
            None => {
                let base = match platform_data_dir() {
                    Some(d) => d,
                    None => owned("."),
                };
                let dir = path_join(base.as_str(), "gosh-dl");
                path_join(dir.as_str(), "gosh-dl.db")
            },
        }
    }
}

impl Default for EngineConfig {
    fn default() -> (c: EngineConfig)
        ensures
            c.is_default_but_dir(),
            c.limits_ok(),
    {
        EngineConfig::new()
    }
}

impl Clone for EngineConfig {
    fn clone(&self) -> (r: Self)
        ensures
            r.download_dir == self.download_dir,
            r.max_concurrent_downloads == self.max_concurrent_downloads,
            r.max_connections_per_download == self.max_connections_per_download,
            r.min_segment_size == self.min_segment_size,
            r.global_download_limit == self.global_download_limit,
            r.global_upload_limit == self.global_upload_limit,
            r.user_agent == self.user_agent,
            r.enable_dht == self.enable_dht,
            r.enable_pex == self.enable_pex,
            r.enable_lpd == self.enable_lpd,
            r.max_peers == self.max_peers,
            r.seed_ratio_permille == self.seed_ratio_permille,
            r.database_path == self.database_path,
            r.http == self.http,
            r.torrent.listen_port_range == self.torrent.listen_port_range,
            r.torrent.dht_bootstrap_nodes@ == self.torrent.dht_bootstrap_nodes@,
            r.torrent.tracker_update_interval == self.torrent.tracker_update_interval,
            r.torrent.peer_timeout == self.torrent.peer_timeout,
            r.torrent.max_pending_requests == self.torrent.max_pending_requests,
            r.torrent.enable_endgame == self.torrent.enable_endgame,
            r.torrent.allocation_mode == self.torrent.allocation_mode,
            r.limits_ok() == self.limits_ok(),
    {
        EngineConfig {
            download_dir: self.download_dir.clone(),
            max_concurrent_downloads: self.max_concurrent_downloads,
            max_connections_per_download: self.max_connections_per_download,
            min_segment_size: self.min_segment_size,
            global_download_limit: self.global_download_limit,
            global_upload_limit: self.global_upload_limit,
            user_agent: self.user_agent.clone(),
            enable_dht: self.enable_dht,
            enable_pex: self.enable_pex,
            enable_lpd: self.enable_lpd,
            max_peers: self.max_peers,
            seed_ratio_permille: self.seed_ratio_permille,
            database_path: clone_opt(&self.database_path),
            http: self.http.clone(),
            torrent: self.torrent.clone(),
        }
    }
}

} // verus!
