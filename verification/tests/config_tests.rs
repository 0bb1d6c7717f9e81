use gosh_dl::config::{AllocationMode, DirProbe, EngineConfig};
use gosh_dl::error::EngineError;

fn probe(path: &std::path::Path) -> DirProbe {
    DirProbe { exists: path.exists(), is_dir: path.is_dir() }
}

fn present() -> DirProbe {
    DirProbe { exists: true, is_dir: true }
}

fn field_of(r: Result<(), EngineError>) -> String {
    match r {
        Err(EngineError::InvalidInput { field, .. }) => field,
        other => panic!("no invalid input: {:?}", other),
    }
}

#[test]
fn test_default_config() {
    let config = EngineConfig::default();
    assert_eq!(config.max_concurrent_downloads, 5);
    assert_eq!(config.max_connections_per_download, 16);
    assert!(config.enable_dht);
}

#[test]
fn test_default_config_in_full() {
    let config = EngineConfig::with_platform_dir(None);
    assert_eq!(config.download_dir, ".");
    assert_eq!(config.min_segment_size, 1024 * 1024);
    assert_eq!(config.global_download_limit, None);
    assert_eq!(config.global_upload_limit, None);
    assert_eq!(config.user_agent, "gosh-dl/0.1.0");
    assert!(config.enable_pex);
    assert!(config.enable_lpd);
    assert_eq!(config.max_peers, 55);
    assert_eq!(config.seed_ratio_permille, 1000);
    assert_eq!(config.database_path, None);
    assert_eq!(config.http.connect_timeout, 30);
    assert_eq!(config.http.read_timeout, 60);
    assert_eq!(config.http.max_redirects, 10);
    assert_eq!(config.http.max_retries, 3);
    assert_eq!(config.http.retry_delay_ms, 1000);
    assert_eq!(config.http.max_retry_delay_ms, 30000);
    assert!(!config.http.accept_invalid_certs);
    assert_eq!(config.http.proxy_url, None);
    assert_eq!(config.torrent.listen_port_range, (6881, 6889));
    assert_eq!(
        config.torrent.dht_bootstrap_nodes,
        vec![
            "router.bittorrent.com:6881".to_string(),
            "router.utorrent.com:6881".to_string(),
            "dht.transmissionbt.com:6881".to_string(),
        ]
    );
    assert_eq!(config.torrent.tracker_update_interval, 1800);
    assert_eq!(config.torrent.peer_timeout, 120);
    assert_eq!(config.torrent.max_pending_requests, 16);
    assert!(config.torrent.enable_endgame);
    assert_eq!(config.torrent.allocation_mode, AllocationMode::Sparse);
}

#[test]
fn test_config_builder() {
    let config = EngineConfig::new()
        .max_concurrent_downloads(10)
        .max_connections_per_download(8)
        .download_limit(Some(1024 * 1024));

    assert_eq!(config.max_concurrent_downloads, 10);
    assert_eq!(config.max_connections_per_download, 8);
    assert_eq!(config.global_download_limit, Some(1024 * 1024));
}

#[test]
fn test_config_builder_of_the_rest() {
    let config = EngineConfig::new()
        .download_dir("/data".to_string())
        .upload_limit(Some(7))
        .user_agent("agent/1".to_string())
        .database_path("/data/store.db".to_string());
    assert_eq!(config.download_dir, "/data");
    assert_eq!(config.global_upload_limit, Some(7));
    assert_eq!(config.user_agent, "agent/1");
    assert_eq!(config.get_database_path(), "/data/store.db");
    assert_eq!(config.max_concurrent_downloads, 5);
}

#[test]
fn test_config_validation() {
    let dir = tempfile::tempdir().unwrap();
    let config = EngineConfig::new().download_dir(dir.path().to_string_lossy().to_string());
    assert!(config.validate(probe(dir.path())).is_ok());
}

#[test]
fn test_invalid_download_dir() {
    let config = EngineConfig::new().download_dir("/nonexistent/path/12345".to_string());
    assert!(config.validate(probe(std::path::Path::new("/nonexistent/path/12345"))).is_err());
}

#[test]
fn test_validation_names_the_first_broken_rule() {
    let config = EngineConfig::new().download_dir("/data".to_string());
    let missing = config.validate(DirProbe { exists: false, is_dir: false });
    match missing {
        Err(EngineError::InvalidInput { field, message }) => {
            assert_eq!(field, "download_dir");
            assert_eq!(message, "Directory does not exist: /data");
        }
        other => panic!("no invalid input: {:?}", other),
    }
    let file = config.validate(DirProbe { exists: true, is_dir: false });
    match file {
        Err(EngineError::InvalidInput { field, message }) => {
            assert_eq!(field, "download_dir");
            assert_eq!(message, "Path is not a directory: /data");
        }
        other => panic!("no invalid input: {:?}", other),
    }

    let none_at_once = EngineConfig::new().max_concurrent_downloads(0);
    assert_eq!(field_of(none_at_once.validate(present())), "max_concurrent_downloads");

    let no_connections = EngineConfig::new().max_connections_per_download(0);
    assert_eq!(field_of(no_connections.validate(present())), "max_connections_per_download");

    let mut negative = EngineConfig::new();
    negative.seed_ratio_permille = -1;
    assert_eq!(field_of(negative.validate(present())), "seed_ratio");

    let mut ports = EngineConfig::new();
    ports.torrent.listen_port_range = (7000, 6999);
    assert_eq!(field_of(ports.validate(present())), "listen_port_range");

    let mut both = EngineConfig::new().max_concurrent_downloads(0);
    both.seed_ratio_permille = -1;
    assert_eq!(field_of(both.validate(present())), "max_concurrent_downloads");
}

#[test]
fn test_config_clone_keeps_every_field() {
    let config = EngineConfig::new().download_dir("/data".to_string()).download_limit(Some(9));
    let copy = config.clone();
    assert_eq!(copy.download_dir, "/data");
    assert_eq!(copy.global_download_limit, Some(9));
    assert_eq!(copy.torrent.dht_bootstrap_nodes, config.torrent.dht_bootstrap_nodes);
}

#[test]
fn test_database_path_of_the_platform() {
    let path = EngineConfig::new().get_database_path();
    assert!(path.ends_with("gosh-dl.db"));
    assert!(path.contains("gosh-dl"));
    assert_ne!(path, "gosh-dl.db");
}

#[test]
fn test_download_path_of_what_the_platform_names() {
    let dir = Some("/home/ada/Downloads".to_string());
    let below_home = Some("/home/ada/Downloads2".to_string());
    assert_eq!(
        gosh_dl::config::download_path_from(dir.clone(), below_home.clone(), "~/Downloads"),
        "/home/ada/Downloads"
    );
    assert_eq!(
        gosh_dl::config::download_path_from(None, below_home, "~/Downloads"),
        "/home/ada/Downloads2"
    );
    assert_eq!(gosh_dl::config::download_path_from(None, None, "~/Downloads"), "~/Downloads");
    assert_eq!(gosh_dl::config::download_path_from(dir, None, "Downloads"), "/home/ada/Downloads");
}
