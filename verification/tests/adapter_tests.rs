use gosh_dl::config::{AllocationMode, DirProbe, EngineConfig};
use gosh_dl::engine::{Admission, DownloadEngine, TaskOutcome};
use gosh_dl::error::EngineError;
use gosh_dl::sidecar::commands::{
    allocation_mode_of, apply_settings_to_config, check_path_text, folder_command,
    get_app_version, get_default_download_path, get_torrent_files, get_user_agent_presets,
    magnet_info_of, path_missing, reveal_command, select_torrent_files, torrent_info_of,
    Platform, APP_DATA_NAME,
};
use gosh_dl::sidecar::db::{row_to_download, selected_files_column, Settings, StoredDownload};
use gosh_dl::sidecar::engine_adapter::{
    convert_options, convert_status, EngineAdapter, TorrentFileInfo,
};
use gosh_dl::sidecar::error::Error;
use gosh_dl::sidecar::state::AppState;
use gosh_dl::sidecar::types::{DownloadOptions, DownloadState, DownloadType};
use gosh_dl::torrent::metainfo::{FileInfo, Info, Metainfo};
use gosh_dl::torrent::MagnetUri;
use gosh_dl::types::{
    ChecksumAlgorithm, DownloadId, DownloadKind, DownloadMetadata, DownloadPriority,
    DownloadProgress, DownloadStatus, EventKind, Timestamp, TorrentFile, TorrentStatusInfo,
};

fn present() -> DirProbe {
    DirProbe { exists: true, is_dir: true }
}

fn adapter(width: usize) -> EngineAdapter {
    let config = EngineConfig::with_platform_dir(Some("/data".to_string()))
        .max_concurrent_downloads(width);
    EngineAdapter::new(DownloadEngine::new(config, present()).unwrap())
}

fn torrent_bytes(name: &str) -> Vec<u8> {
    let mut data = format!(
        "d4:infod6:lengthi40e4:name{}:{}12:piece lengthi16e6:pieces60:",
        name.len(),
        name
    )
    .into_bytes();
    data.extend(vec![7u8; 60]);
    data.extend(b"ee".to_vec());
    data
}

fn start(a: &mut EngineAdapter, gid: &str) {
    let id = DownloadId::parse(gid).unwrap();
    assert!(matches!(a.engine.acquire_permit(id), Admission::Granted { .. }));
}

#[test]
fn test_convert_options() {
    let mut o = DownloadOptions::default();
    o.dir = Some("/dl".to_string());
    o.out = Some("a<b>.zip".to_string());
    o.split = Some("4".to_string());
    o.max_connection_per_server = Some("9".to_string());
    o.header = Some(vec!["X-One: 1".to_string(), "no colon".to_string(), "X-Two:two:2 ".to_string()]);
    o.select_file = Some("0,2,x,5".to_string());
    o.max_download_limit = Some("2M".to_string());
    o.max_upload_limit = Some("bad".to_string());
    o.priority = Some("HIGH".to_string());
    o.checksum = Some("md5:abcd".to_string());
    o.mirrors = Some(vec!["https://m.example/f".to_string()]);
    o.sequential = Some(true);
    o.seed_ratio = Some("1.5".to_string());
    let c = convert_options(o);
    assert_eq!(c.save_dir, Some("/dl".to_string()));
    assert_eq!(c.filename, Some("a_b_.zip".to_string()));
    assert_eq!(c.max_connections, Some(4));
    assert_eq!(
        c.headers,
        vec![("X-One".to_string(), "1".to_string()), ("X-Two".to_string(), "two:2".to_string())]
    );
    assert_eq!(c.selected_files, Some(vec![0, 2, 5]));
    assert_eq!(c.max_download_speed, Some(2 * 1024 * 1024));
    assert_eq!(c.max_upload_speed, None);
    assert_eq!(c.priority, DownloadPriority::High);
    let checksum = c.checksum.unwrap();
    assert_eq!(checksum.algorithm, ChecksumAlgorithm::Md5);
    assert_eq!(checksum.value, "abcd");
    assert_eq!(c.mirrors, vec!["https://m.example/f".to_string()]);
    assert_eq!(c.sequential, Some(true));
    assert_eq!(c.seed_ratio_permille, Some(1500));
}

#[test]
fn test_convert_options_defaults() {
    let mut o = DownloadOptions::default();
    o.max_connection_per_server = Some("9".to_string());
    o.priority = Some("urgent".to_string());
    let c = convert_options(o);
    assert_eq!(c.seed_ratio_permille, None);
    assert_eq!(c.max_connections, Some(9));
    assert_eq!(c.priority, DownloadPriority::Normal);
    assert_eq!(c.headers.len(), 0);
    assert_eq!(c.selected_files, None);
    assert!(c.checksum.is_none());
    assert_eq!(c.mirrors.len(), 0);
}

#[test]
fn test_convert_status() {
    let status = DownloadStatus {
        id: DownloadId::from_u128(0x0123_4567_89ab_cdef_0011_2233_4455_6677),
        kind: DownloadKind::Torrent,
        state: gosh_dl::types::DownloadState::Error {
            kind: "Network".to_string(),
            message: "network error: gone".to_string(),
            retryable: false,
        },
        progress: DownloadProgress {
            total_size: None,
            completed_size: 5,
            download_speed: 6,
            upload_speed: 7,
            connections: 8,
            seeders: 9,
            peers: 10,
            eta_seconds: None,
        },
        metadata: DownloadMetadata {
            name: "thing".to_string(),
            url: None,
            magnet_uri: None,
            info_hash: Some("ab".repeat(20)),
            save_dir: "/data".to_string(),
            filename: None,
            user_agent: None,
            referer: None,
            headers: vec![],
        },
        created_at: Timestamp { secs: 0, nanos: 0 },
        completed_at: Some(Timestamp { secs: 60, nanos: 0 }),
        torrent_info: Some(TorrentStatusInfo {
            files: vec![
                TorrentFile { index: 0, path: "a".to_string(), size: 1, completed: 0, selected: true },
                TorrentFile { index: 1, path: "b".to_string(), size: 1, completed: 0, selected: false },
                TorrentFile { index: 2, path: "c".to_string(), size: 1, completed: 0, selected: true },
            ],
        }),
        peers: None,
    };
    let d = convert_status(status);
    assert_eq!(d.id, 0);
    assert_eq!(d.gid, "01234567-89ab-cdef-0011-223344556677");
    assert_eq!(d.name, "thing");
    assert_eq!(d.download_type, DownloadType::Torrent);
    assert_eq!(d.status, DownloadState::Error);
    assert_eq!(d.total_size, 0);
    assert_eq!(d.completed_size, 5);
    assert_eq!(d.download_speed, 6);
    assert_eq!(d.upload_speed, 7);
    assert_eq!(d.connections, 8);
    assert_eq!(d.seeders, 9);
    assert_eq!(d.save_path, "/data");
    assert_eq!(d.created_at, "1970-01-01T00:00:00+00:00");
    assert_eq!(d.completed_at, Some("1970-01-01T00:01:00+00:00".to_string()));
    assert_eq!(d.error_message, Some("network error: gone".to_string()));
    assert_eq!(d.selected_files, Some(vec![0, 2]));
    assert_eq!(d.info_hash, Some("ab".repeat(20)));
}

#[test]
fn test_adapter_adds_and_lists() {
    let mut a = adapter(2);
    let (gid, events) = a.add_download("https://example.com/a.zip".to_string(), None).unwrap();
    assert_eq!(events.len(), 2);
    assert_eq!(DownloadId::parse(&gid).unwrap().to_text(), gid);
    let status = a.get_status(&gid).unwrap();
    assert_eq!(status.gid, gid);
    assert_eq!(status.url, Some("https://example.com/a.zip".to_string()));
    assert_eq!(status.status, DownloadState::Active);
    assert_eq!(status.download_type, DownloadType::Http);
    assert!(a.get_status("not an id").is_none());
    assert!(a.get_status("00000000-0000-0000-0000-000000000000").is_none());

    let (t, added) = a.add_torrent(&torrent_bytes("linux.iso"), None).unwrap();
    assert_eq!(added.metainfo.info.name, "linux.iso");
    assert_eq!(added.id.to_text(), t);
    let (m, magnet) = a
        .add_magnet("magnet:?xt=urn:btih:cdcdcdcdcdcdcdcdcdcdcdcdcdcdcdcdcdcdcdcd&dn=m", None)
        .unwrap();
    assert_eq!(magnet.magnet.info_hash, [0xcd; 20]);
    assert_eq!(a.get_status(&t).unwrap().download_type, DownloadType::Torrent);
    assert_eq!(a.get_status(&t).unwrap().name, "linux.iso");
    assert_eq!(a.get_status(&m).unwrap().download_type, DownloadType::Magnet);
    assert_eq!(a.get_status(&m).unwrap().name, "m");
    assert_eq!(a.get_status(&m).unwrap().info_hash, Some("cd".repeat(20)));
    assert_eq!(
        a.get_status(&m).unwrap().magnet_uri,
        Some("magnet:?xt=urn:btih:cdcdcdcdcdcdcdcdcdcdcdcdcdcdcdcdcdcdcdcd&dn=m".to_string())
    );
    let all: Vec<String> = a.get_all().into_iter().map(|d| d.gid).collect();
    assert_eq!(all, vec![gid, t, m]);
    assert_eq!(a.get_active().len(), 3);
    let stats = a.get_global_stats();
    assert_eq!(stats.num_active, "3");
    assert_eq!(stats.num_waiting, "0");
    assert_eq!(stats.num_stopped, "0");
    assert_eq!(stats.num_stopped_total, "0");
    assert_eq!(stats.download_speed, "0");
}

#[test]
fn test_adapter_refuses_a_bad_url() {
    let mut a = adapter(2);
    match a.add_download("ftp://example.com/a".to_string(), None) {
        Err(EngineError::InvalidInput { field, message }) => {
            assert_eq!(field, "url");
            assert_eq!(message, "Unsupported scheme: ftp");
        }
        other => panic!("added: {:?}", other),
    }
    match a.add_download("no url".to_string(), None) {
        Err(EngineError::InvalidInput { field, message }) => {
            assert_eq!(field, "url");
            assert_eq!(message, "Invalid URL: relative URL without a base");
        }
        other => panic!("added: {:?}", other),
    }
    assert_eq!(a.get_all().len(), 0);
}

#[test]
fn test_add_urls_stops_at_the_first_refusal() {
    let mut a = adapter(2);
    let urls = vec![
        "https://example.com/1".to_string(),
        "https://example.com/2".to_string(),
    ];
    let added = a.add_urls(&urls, None);
    assert!(added.refused.is_none());
    assert_eq!(added.gids.len(), 2);
    assert_eq!(added.events.len(), 4);
    assert_eq!(
        a.get_status(&added.gids[1]).unwrap().url,
        Some("https://example.com/2".to_string())
    );

    let mixed = vec![
        "https://example.com/3".to_string(),
        "gopher://example.com/4".to_string(),
        "https://example.com/5".to_string(),
    ];
    let partly = a.add_urls(&mixed, None);
    assert_eq!(partly.gids.len(), 1);
    assert_eq!(partly.events.len(), 2);
    match partly.refused {
        Some(EngineError::InvalidInput { field, message }) => {
            assert_eq!(field, "url");
            assert_eq!(message, "Unsupported scheme: gopher");
        }
        other => panic!("not refused: {:?}", other),
    }
    let urls: Vec<Option<String>> = a.get_all().into_iter().map(|d| d.url).collect();
    assert_eq!(
        urls,
        vec![
            Some("https://example.com/1".to_string()),
            Some("https://example.com/2".to_string()),
            Some("https://example.com/3".to_string()),
        ]
    );
}

#[test]
fn test_adapter_pause_resume_remove() {
    let mut a = adapter(2);
    let (gid, _) = a.add_download("https://example.com/a.zip".to_string(), None).unwrap();
    assert!(matches!(a.pause(&gid), Err(EngineError::InvalidState { .. })));
    start(&mut a, &gid);
    let paused = a.pause(&gid).unwrap();
    assert_eq!(paused[1].kind(), EventKind::Paused);
    assert_eq!(a.get_status(&gid).unwrap().status, DownloadState::Paused);
    let resumed = a.resume(&gid).unwrap();
    assert_eq!(resumed[1].kind(), EventKind::Resumed);
    match a.pause("nonsense") {
        Err(EngineError::NotFound(m)) => assert_eq!(m, "Invalid GID: nonsense"),
        other => panic!("paused: {:?}", other),
    }
    let plan = a.remove(&gid, true).unwrap();
    assert_eq!(plan.delete, vec!["a.zip".to_string(), "a.zip.part".to_string()]);
    assert!(a.get_status(&gid).is_none());
    assert!(matches!(a.remove(&gid, false), Err(EngineError::NotFound(_))));
}

#[test]
fn test_adapter_pause_all_and_resume_all() {
    let mut a = adapter(3);
    let (one, _) = a.add_download("https://example.com/1".to_string(), None).unwrap();
    let (two, _) = a.add_download("https://example.com/2".to_string(), None).unwrap();
    let (three, _) = a.add_download("https://example.com/3".to_string(), None).unwrap();
    start(&mut a, &one);
    start(&mut a, &three);
    let events = a.pause_all();
    assert_eq!(events.len(), 4);
    assert_eq!(a.get_status(&one).unwrap().status, DownloadState::Paused);
    assert_eq!(a.get_status(&two).unwrap().status, DownloadState::Active);
    assert_eq!(a.get_status(&three).unwrap().status, DownloadState::Paused);
    assert_eq!(a.pause_all().len(), 0);
    let events = a.resume_all();
    assert_eq!(events.len(), 4);
    assert_eq!(a.get_status(&one).unwrap().status, DownloadState::Active);
    assert_eq!(a.resume_all().len(), 0);
}

#[test]
fn test_adapter_speed_limits() {
    let mut a = adapter(2);
    assert!(a.set_speed_limit(Some(1024), None, present()).is_ok());
    assert_eq!(a.engine().get_config().global_download_limit, Some(1024));
    assert_eq!(a.engine().get_config().global_upload_limit, None);
    assert_eq!(a.engine().get_config().max_concurrent_downloads, 2);
    assert!(a.set_speed_limit(None, Some(5), DirProbe { exists: false, is_dir: false }).is_err());
    assert_eq!(a.engine().get_config().global_download_limit, Some(1024));
}

#[test]
fn test_adapter_torrent_details() {
    let mut a = adapter(2);
    let (gid, _) = a.add_torrent(&torrent_bytes("t"), None).unwrap();
    assert!(a.get_torrent_files(&gid).is_none());
    assert!(a.get_peers(&gid).is_none());
    assert!(a.get_torrent_files("nonsense").is_none());
    let id = DownloadId::parse(&gid).unwrap();
    let idx = a.engine.find_index(id).unwrap();
    a.engine.downloads[idx].status.torrent_info = Some(TorrentStatusInfo {
        files: vec![TorrentFile { index: 0, path: "a".to_string(), size: 9, completed: 4, selected: true }],
    });
    a.engine.downloads[idx].status.peers = Some(vec![gosh_dl::types::PeerInfo {
        ip: "10.0.0.1".to_string(),
        port: 6881,
        client: Some("x".to_string()),
        download_speed: 1,
        upload_speed: 2,
    }]);
    let files = a.get_torrent_files(&gid).unwrap();
    assert_eq!(files.len(), 1);
    assert_eq!(files[0].path, "a");
    assert_eq!(files[0].size, 9);
    assert_eq!(files[0].completed, 4);
    assert!(files[0].selected);
    let peers = a.get_peers(&gid).unwrap();
    assert_eq!(peers.len(), 1);
    assert_eq!(peers[0].ip, "10.0.0.1");
    assert_eq!(peers[0].port, 6881);
    assert_eq!(peers[0].client, Some("x".to_string()));
    assert_eq!(peers[0].download_speed, 1);
    assert_eq!(peers[0].upload_speed, 2);
}

#[test]
fn test_commands_of_the_system() {
    assert_eq!(get_app_version(), "0.1.0");
    let presets = get_user_agent_presets();
    assert_eq!(presets.len(), 7);
    assert_eq!(presets[0], ("gosh-dl".to_string(), "gosh-dl/0.1.0".to_string()));
    assert_eq!(presets[5], ("Wget".to_string(), "Wget/1.25.0".to_string()));
    assert_eq!(presets[6], ("Curl".to_string(), "curl/8.12.1".to_string()));
    assert!(presets[1].1.contains("Chrome/133.0.0.0"));
    assert!(presets[4].1.contains("Firefox/135.0"));
    assert!(!get_default_download_path().is_empty());
    assert!(check_path_text("/home/user/file.zip").is_ok());
    assert!(matches!(check_path_text(""), Err(Error::InvalidInput(m)) if m == "Path cannot be empty"));
    assert!(matches!(
        check_path_text("file:///etc/passwd"),
        Err(Error::InvalidInput(m)) if m == "URL schemes are not allowed in file paths"
    ));
    assert!(matches!(
        path_missing("/nowhere"),
        Error::InvalidInput(m) if m == "Path does not exist or is inaccessible: /nowhere"
    ));
    assert!(matches!(select_torrent_files(), Err(Error::InvalidInput(_))));
}

#[test]
fn test_commands_of_torrents() {
    let files = vec![
        TorrentFileInfo { path: "a".to_string(), size: 10, completed: 3, selected: true },
        TorrentFileInfo { path: "b".to_string(), size: 20, completed: 0, selected: false },
    ];
    let shown = get_torrent_files(&files);
    assert_eq!(shown.len(), 2);
    assert_eq!(shown[1].index, "1");
    assert_eq!(shown[1].path, "b");
    assert_eq!(shown[1].length, "20");
    assert_eq!(shown[0].completed_length, "3");
    assert_eq!(shown[0].selected, "true");
    assert_eq!(shown[1].selected, "false");
    assert_eq!(shown[0].uris.len(), 0);

    let m = Metainfo {
        info: Info {
            name: "album".to_string(),
            piece_length: 16,
            pieces: vec![[0u8; 20]; 2],
            files: vec![
                FileInfo { path: "a".to_string(), length: 10, offset: 0 },
                FileInfo { path: "b".to_string(), length: 20, offset: 10 },
            ],
            total_size: 30,
            is_single_file: false,
            private: false,
        },
        info_hash: [0xab; 20],
        announce: Some("udp://a.example:1".to_string()),
        announce_list: vec![
            vec!["udp://b.example:2".to_string(), "udp://c.example:3".to_string()],
            vec!["udp://b.example:2".to_string()],
        ],
        comment: Some("hello".to_string()),
        creation_date: Some(7),
        created_by: None,
    };
    let info = torrent_info_of(&m);
    assert_eq!(info.name, "album");
    assert_eq!(info.info_hash, "ab".repeat(20));
    assert_eq!(info.total_size, 30);
    assert_eq!(info.files.len(), 2);
    assert_eq!(info.files[1].index, 1);
    assert_eq!(info.files[1].path, "b");
    assert_eq!(info.files[1].length, 20);
    assert_eq!(info.comment, Some("hello".to_string()));
    assert_eq!(info.creation_date, Some(7));
    assert_eq!(
        info.announce_list,
        vec![
            "udp://b.example:2".to_string(),
            "udp://c.example:3".to_string(),
            "udp://b.example:2".to_string(),
        ]
    );

    let magnet = MagnetUri {
        info_hash: [0x01; 20],
        display_name: Some("n".to_string()),
        trackers: vec!["udp://a.example:1".to_string()],
    };
    let shown = magnet_info_of(&magnet);
    assert_eq!(shown.name, Some("n".to_string()));
    assert_eq!(shown.info_hash, "01".repeat(20));
    assert_eq!(shown.trackers, vec!["udp://a.example:1".to_string()]);
}

#[test]
fn test_settings_reach_the_configuration() {
    let mut s = Settings::with_download_path("/dl".to_string());
    s.max_concurrent_downloads = 3;
    s.max_connections_per_server = 4;
    s.split_count = 12;
    s.download_speed_limit = 0;
    s.upload_speed_limit = 2048;
    s.user_agent = "agent/2".to_string();
    s.bt_enable_dht = false;
    s.bt_max_peers = 77;
    s.bt_seed_ratio_permille = 2500;
    s.proxy_url = "http://proxy:8080".to_string();
    s.connect_timeout = 11;
    s.read_timeout = 22;
    s.max_retries = 9;
    s.allocation_mode = "full".to_string();
    let base = EngineConfig::with_platform_dir(Some("/old".to_string()));
    let c = apply_settings_to_config(base, &s);
    assert_eq!(c.download_dir, "/dl");
    assert_eq!(c.max_concurrent_downloads, 3);
    assert_eq!(c.max_connections_per_download, 12);
    assert_eq!(c.global_download_limit, None);
    assert_eq!(c.global_upload_limit, Some(2048));
    assert_eq!(c.user_agent, "agent/2");
    assert!(!c.enable_dht);
    assert!(c.enable_pex);
    assert_eq!(c.max_peers, 77);
    assert_eq!(c.seed_ratio_permille, 2500);
    assert_eq!(c.http.proxy_url, Some("http://proxy:8080".to_string()));
    assert_eq!(c.http.connect_timeout, 11);
    assert_eq!(c.http.read_timeout, 22);
    assert_eq!(c.http.max_retries, 9);
    assert_eq!(c.http.max_redirects, 10);
    assert_eq!(c.torrent.allocation_mode, AllocationMode::Full);
    assert_eq!(c.min_segment_size, 1024 * 1024);
    assert_eq!(allocation_mode_of("sparse"), AllocationMode::Sparse);
    assert_eq!(allocation_mode_of("none"), AllocationMode::Unallocated);
    assert_eq!(allocation_mode_of("whatever"), AllocationMode::Unallocated);
}

#[test]
fn test_history_rows() {
    let row = StoredDownload {
        id: Some(7),
        gid: Some("g".to_string()),
        name: Some("n".to_string()),
        url: Some("https://example.com/f".to_string()),
        magnet_uri: None,
        info_hash: None,
        download_type: Some("torrent".to_string()),
        status: Some("complete".to_string()),
        total_size: Some(100),
        completed_size: Some(-1),
        download_speed: None,
        upload_speed: Some(3),
        save_path: Some("/dl".to_string()),
        created_at: Some("2024-01-01T00:00:00Z".to_string()),
        completed_at: None,
        error_message: Some("e".to_string()),
        selected_files: Some("[0,2,5]".to_string()),
    };
    let d = row_to_download(&row);
    assert_eq!(d.id, 7);
    assert_eq!(d.gid, "g");
    assert_eq!(d.download_type, DownloadType::Torrent);
    assert_eq!(d.status, DownloadState::Complete);
    assert_eq!(d.total_size, 100);
    assert_eq!(d.completed_size, u64::MAX);
    assert_eq!(d.download_speed, 0);
    assert_eq!(d.upload_speed, 3);
    assert_eq!(d.connections, 0);
    assert_eq!(d.selected_files, Some(vec![0, 2, 5]));
    assert_eq!(selected_files_column(&d), Some("[0,2,5]".to_string()));
    let mut none_selected = row_to_download(&row);
    none_selected.selected_files = Some(Vec::new());
    assert_eq!(selected_files_column(&none_selected), Some("[]".to_string()));
    none_selected.selected_files = Some(vec![10, 0, usize::MAX]);
    assert_eq!(
        selected_files_column(&none_selected),
        Some(format!("[10,0,{}]", usize::MAX))
    );

    let empty = StoredDownload {
        id: None,
        gid: None,
        name: None,
        url: None,
        magnet_uri: None,
        info_hash: None,
        download_type: Some("gopher".to_string()),
        status: None,
        total_size: None,
        completed_size: None,
        download_speed: None,
        upload_speed: None,
        save_path: None,
        created_at: None,
        completed_at: None,
        error_message: None,
        selected_files: Some("not json".to_string()),
    };
    let d = row_to_download(&empty);
    assert_eq!(d.id, 0);
    assert_eq!(d.gid, "");
    assert_eq!(d.download_type, DownloadType::Http);
    assert_eq!(d.status, DownloadState::Waiting);
    assert_eq!(d.selected_files, None);
    assert_eq!(selected_files_column(&d), None);
}

#[test]
fn test_app_state() {
    let mut state = AppState::new();
    assert!(state.get_close_to_tray());
    state.set_close_to_tray(false);
    assert!(!state.get_close_to_tray());
    assert!(!state.is_engine_running());
    assert!(matches!(state.get_adapter(), Err(Error::EngineNotInitialized)));
    assert!(matches!(state.get_data_dir(), Err(Error::Database(m)) if m == "Data dir not set"));
    assert_eq!(state.shutdown().0.len(), 0);

    let mut settings = Settings::with_download_path("/dl".to_string());
    settings.max_concurrent_downloads = 0;
    let refused = state.initialize("/var/app".to_string(), &settings, present());
    assert!(matches!(refused, Err(Error::InvalidInput(m)) if m == "max_concurrent_downloads: Must be at least 1"));
    assert!(!state.is_engine_running());
    settings.max_concurrent_downloads = 2;
    assert!(state.initialize("/var/app".to_string(), &settings, DirProbe { exists: true, is_dir: false }).is_err());
    assert!(state.initialize("/var/app".to_string(), &settings, present()).is_ok());
    assert!(state.is_engine_running());
    assert_eq!(state.get_data_dir().unwrap(), "/var/app");
    let config = state.get_adapter().unwrap().engine().get_full_config();
    assert_eq!(config.download_dir, "/dl");
    assert_eq!(config.max_concurrent_downloads, 2);
    assert!(config.database_path.unwrap().ends_with("engine.db"));

    let wider = EngineConfig::with_platform_dir(Some("/dl".to_string())).max_concurrent_downloads(9);
    assert!(state.update_config(wider, present()).is_ok());
    assert_eq!(state.get_adapter().unwrap().engine().get_config().max_concurrent_downloads, 9);
    let broken = EngineConfig::with_platform_dir(Some("/dl".to_string())).max_concurrent_downloads(0);
    assert!(state.update_config(broken, present()).is_err());
}

#[test]
fn test_app_state_shutdown_hands_out_the_completed() {
    let mut state = AppState::new();
    let settings = Settings::with_download_path("/dl".to_string());
    state.initialize("/var/app".to_string(), &settings, present()).unwrap();
    let a = state.adapter.as_mut().unwrap();
    let (one, _) = a.add_download("https://example.com/1".to_string(), None).unwrap();
    let (two, _) = a.add_download("https://example.com/2".to_string(), None).unwrap();
    let (three, _) = a.add_download("https://example.com/3".to_string(), None).unwrap();
    for gid in [&one, &three] {
        let id = DownloadId::parse(gid).unwrap();
        assert!(matches!(a.engine.acquire_permit(id), Admission::Granted { .. }));
        a.engine.finish_task(id, TaskOutcome::Completed { filename: None }, Timestamp { secs: 5, nanos: 0 });
    }
    let (snapshots, tasks) = state.shutdown();
    let gids: Vec<String> = snapshots.into_iter().map(|d| d.gid).collect();
    assert_eq!(gids, vec![one, three]);
    assert_eq!(tasks, vec![DownloadId::parse(&two).unwrap()]);
}

#[test]
fn test_adapter_refuses_bad_torrents_and_links() {
    let mut a = adapter(2);
    match a.add_torrent(&b"not a torrent".to_vec(), None) {
        Err(EngineError::InvalidInput { field, message }) => {
            assert_eq!(field, "torrent");
            assert_eq!(message, "Invalid torrent: not a bencoded dictionary");
        }
        other => panic!("added: {:?}", other),
    }
    let mut short = torrent_bytes("x");
    let at = short.len() - 62;
    short[at - 3] = b'4';
    short[at - 2] = b'0';
    short.truncate(at + 40);
    short.extend(b"ee".to_vec());
    match a.add_torrent(&short, None) {
        Err(EngineError::InvalidInput { field, message }) => {
            assert_eq!(field, "torrent");
            assert_eq!(
                message,
                "Invalid torrent: files, piece length and piece hashes do not agree"
            );
        }
        other => panic!("added: {:?}", other),
    }
    match a.add_magnet("magnet:?dn=nameless", None) {
        Err(EngineError::InvalidInput { field, message }) => {
            assert_eq!(field, "magnet_uri");
            assert_eq!(message, "Missing or malformed info-hash");
        }
        other => panic!("added: {:?}", other),
    }
    assert_eq!(a.get_all().len(), 0);
}

#[test]
fn test_commands_of_the_file_manager() {
    let words = |v: Vec<&str>| v.into_iter().map(|s| s.to_string()).collect::<Vec<String>>();
    assert_eq!(folder_command(Platform::Linux, "/dl"), words(vec!["xdg-open", "/dl"]));
    assert_eq!(folder_command(Platform::MacOs, "/dl"), words(vec!["open", "/dl"]));
    assert_eq!(folder_command(Platform::Windows, "C:/dl"), words(vec!["explorer", "C:/dl"]));
    assert_eq!(
        reveal_command(Platform::Linux, "/dl/a.zip", "/dl", true),
        words(vec!["xdg-open", "/dl"])
    );
    assert_eq!(
        reveal_command(Platform::MacOs, "/dl/a.zip", "/dl", true),
        words(vec!["open", "-R", "/dl/a.zip"])
    );
    assert_eq!(
        reveal_command(Platform::Windows, "C:/dl/a.zip", "C:/dl", true),
        words(vec!["explorer", "/select,", "C:/dl/a.zip"])
    );
    assert_eq!(
        reveal_command(Platform::MacOs, "/dl", "/dl", false),
        words(vec!["open", "/dl"])
    );
    assert_eq!(
        reveal_command(Platform::Windows, "C:/dl", "C:/dl", false),
        words(vec!["explorer", "C:/dl"])
    );
    assert_eq!(Platform::Linux.to_data_dir_below_home(), ".local/share");
    assert_eq!(Platform::MacOs.to_data_dir_below_home(), "Library/Application Support");
    assert_eq!(Platform::Windows.to_data_dir_below_home(), "AppData/Roaming");
    assert_eq!(APP_DATA_NAME, "com.gosh.fetch");
}
