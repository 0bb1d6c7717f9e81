use gosh_dl::error::{EngineError, ProtocolErrorKind};
use gosh_dl::torrent::bitfield::Bitfield;
use gosh_dl::torrent::metainfo::{validate_path, FileInfo, Info, Metainfo};
use gosh_dl::config::AllocationMode;
use gosh_dl::torrent::piece::{
    allocation_step, AllocationStep, BlockCheck, BlockRequest, PendingPiece, PieceManager,
    PieceProgress, Verdict, WriteSlice,
};
use gosh_dl::torrent::{
    hash_hex, AnnounceEvent, AnnounceResponse, IpBits, MagnetUri, PeerAddr, TorrentConfig,
    TorrentDownloader, TorrentState,
};
use gosh_dl::types::DownloadId;
use sha1::{Digest, Sha1};

const PIECE: u64 = 32768;

fn digest(data: &[u8]) -> [u8; 20] {
    let mut hasher = Sha1::new();
    hasher.update(data);
    hasher.finalize().into()
}

fn piece_bytes(index: usize, len: usize) -> Vec<u8> {
    (0..len).map(|j| ((index * 31 + j) % 251) as u8).collect()
}

fn metainfo_of(name: &str, files: Vec<(&str, u64)>, piece_length: u64) -> Metainfo {
    let mut offset = 0;
    let mut infos = Vec::new();
    for (path, length) in files {
        infos.push(FileInfo { path: path.to_string(), length, offset });
        offset += length;
    }
    let total = offset;
    let count = ((total + piece_length - 1) / piece_length) as usize;
    let mut pieces = Vec::new();
    for i in 0..count {
        let len = std::cmp::min(piece_length, total - i as u64 * piece_length) as usize;
        pieces.push(digest(&piece_bytes(i, len)));
    }
    let single = infos.len() == 1;
    Metainfo {
        info: Info {
            name: name.to_string(),
            piece_length,
            pieces,
            files: infos,
            total_size: total,
            is_single_file: single,
            private: false,
        },
        info_hash: [7u8; 20],
        announce: Some("http://tracker.example/announce".to_string()),
        announce_list: vec![
            vec!["http://tracker.example/announce".to_string(), "udp://a.example:1".to_string()],
            vec!["udp://b.example:2".to_string(), "udp://a.example:1".to_string()],
        ],
        comment: None,
        creation_date: None,
        created_by: None,
    }
}

fn hundred_pieces() -> PieceManager {
    let m = metainfo_of("data.bin", vec![("data.bin", 100 * PIECE)], PIECE);
    assert!(m.is_consistent());
    PieceManager::new(m, "/save".to_string())
}

fn receive(pm: &mut PieceManager, index: u32) {
    let data = piece_bytes(index as usize, PIECE as usize);
    assert!(pm.start_piece(index).is_some());
    assert_eq!(pm.add_block(index, 0, data[..16384].to_vec()).unwrap(), false);
    assert_eq!(pm.add_block(index, 16384, data[16384..].to_vec()).unwrap(), true);
}

#[test]
fn test_torrent_config_default() {
    let config = TorrentConfig::default();
    assert_eq!(config.max_peers, 50);
    assert_eq!(config.listen_port_range, (6881, 6889));
    assert!(config.enable_dht);
}

#[test]
fn test_torrent_state() {
    assert_ne!(TorrentState::Downloading, TorrentState::Seeding);
    assert_eq!(TorrentState::Paused, TorrentState::Paused);
}

#[test]
fn test_pending_piece() {
    let mut piece = PendingPiece::new(0, 32768); // 2 blocks of 16KB

    assert_eq!(piece.blocks.len(), 2);
    assert!(!piece.is_complete());

    // Add first block
    assert!(piece.add_block(0, vec![0; 16384]));
    assert!(!piece.is_complete());

    // Add second block
    assert!(piece.add_block(16384, vec![0; 16384]));
    assert!(piece.is_complete());

    // Get data
    let data = piece.data().unwrap();
    assert_eq!(data.len(), 32768);
}

#[test]
fn test_unrequested_blocks() {
    let piece = PendingPiece::new(0, 32768);

    let blocks = piece.unrequested_blocks();
    assert_eq!(blocks.len(), 2);
    assert_eq!(blocks[0], (0, 16384));
    assert_eq!(blocks[1], (16384, 16384));
}

#[test]
fn test_block_request() {
    let req = BlockRequest { piece: 5, offset: 16384, length: 16384 };

    assert_eq!(req.piece, 5);
    assert_eq!(req.offset, 16384);
    assert_eq!(req.length, 16384);
}

#[test]
fn test_piece_progress() {
    let progress = PieceProgress {
        total_pieces: 100,
        have_pieces: 50,
        pending_pieces: 5,
        verified_bytes: 50 * 32768,
        total_size: 100 * 32768,
    };

    assert_eq!(progress.permille(), 500);
    assert_eq!(progress.bytes_remaining(), 50 * 32768);
}

#[test]
fn test_piece_progress_edges() {
    let none = PieceProgress {
        total_pieces: 0,
        have_pieces: 0,
        pending_pieces: 0,
        verified_bytes: 0,
        total_size: 0,
    };
    assert_eq!(none.permille(), 0);
    let third = PieceProgress { total_pieces: 3, have_pieces: 1, ..none };
    assert_eq!(third.permille(), 333);
    let over = PieceProgress { verified_bytes: 10, total_size: 4, ..none };
    assert_eq!(over.bytes_remaining(), 0);
}

#[test]
fn test_last_block_size() {
    // Piece with non-standard size (e.g., last piece)
    let piece = PendingPiece::new(0, 20000);

    let blocks = piece.unrequested_blocks();
    assert_eq!(blocks.len(), 2);
    assert_eq!(blocks[0], (0, 16384));
    assert_eq!(blocks[1], (16384, 3616)); // 20000 - 16384 = 3616
}

#[test]
fn test_pending_piece_refuses_bad_blocks() {
    let mut piece = PendingPiece::new(0, 20000);
    assert_eq!(piece.check_block(0, 16384), BlockCheck::Accept);
    assert_eq!(piece.check_block(1, 16384), BlockCheck::Malformed);
    assert_eq!(piece.check_block(32768, 16384), BlockCheck::Malformed);
    assert_eq!(piece.check_block(16384, 16384), BlockCheck::Malformed);
    assert_eq!(piece.check_block(16384, 3616), BlockCheck::Accept);
    assert!(!piece.add_block(0, vec![0; 100]));
    assert!(piece.add_block(0, vec![1; 16384]));
    assert_eq!(piece.check_block(0, 16384), BlockCheck::Duplicate);
    assert!(!piece.add_block(0, vec![2; 16384]));
    assert_eq!(piece.blocks_received, 1);
    assert_eq!(piece.data(), None);
    assert!(piece.add_block(16384, vec![3; 3616]));
    let data = piece.data().unwrap();
    assert_eq!(data.len(), 20000);
    assert_eq!(data[0], 1);
    assert_eq!(data[16384], 3);
}

#[test]
fn test_requested_blocks_are_not_offered_again() {
    let mut piece = PendingPiece::new(0, 3 * 16384);
    piece.mark_requested(1, 9);
    assert!(piece.add_block(0, vec![0; 16384]));
    assert_eq!(piece.unrequested_blocks(), vec![(32768, 16384)]);
}

#[test]
fn test_bitfield() {
    let mut b = Bitfield::new(10);
    assert_eq!(b.len(), 10);
    assert_eq!(b.count_ones(), 0);
    assert!(!b.get(3));
    assert!(b.set(3, true));
    assert!(b.get(3));
    assert!(!b.get(2));
    assert!(!b.get(4));
    assert_eq!(b.count_ones(), 1);
    assert!(!b.set(10, true));
    assert!(!b.get(10));
    assert_eq!(b.len(), 10);
    let copy = b.clone();
    b.set(3, false);
    assert!(copy.get(3));
    assert!(!b.get(3));
    let bools = vec![true, false, true];
    let from = Bitfield::from_bools(&bools);
    assert_eq!(from.to_bools(), bools);
    assert_eq!(from.count_ones(), 2);
}

#[test]
fn test_verified_piece_sets_its_bit() {
    let mut pm = hundred_pieces();
    assert_eq!(pm.num_pieces(), 100);
    receive(&mut pm, 3);
    assert!(!pm.have_piece(3));

    let verdict = pm.verify_piece(3).unwrap();
    match verdict {
        Verdict::Verified { data, slices } => {
            assert_eq!(data, piece_bytes(3, PIECE as usize));
            assert_eq!(
                slices,
                vec![WriteSlice { file_index: 0, file_offset: 3 * PIECE, data_offset: 0, length: PIECE }]
            );
        }
        Verdict::Mismatch => panic!("digest differs"),
    }
    assert!(!pm.have_piece(3));
    assert_eq!(pm.progress().verified_bytes, 0);

    assert!(pm.commit_piece(3));
    assert!(pm.have_piece(3));
    assert!(pm.bitfield().get(3));
    assert_eq!(pm.bitfield().count_ones(), 1);
    let progress = pm.progress();
    assert_eq!(progress.verified_bytes, 32768);
    assert_eq!(progress.have_pieces, 1);
    assert_eq!(progress.pending_pieces, 0);
    assert_eq!(progress.total_pieces, 100);
    assert_eq!(progress.total_size, 100 * PIECE);
}

#[test]
fn test_block_for_a_verified_piece_is_a_silent_no_op() {
    let mut pm = hundred_pieces();
    receive(&mut pm, 3);
    assert!(matches!(pm.verify_piece(3), Ok(Verdict::Verified { .. })));
    assert!(pm.commit_piece(3));
    let before = pm.progress();

    let again = piece_bytes(3, 16384);
    assert_eq!(pm.add_block(3, 0, again).unwrap(), false);
    assert_eq!(pm.add_block(3, 16384, vec![9; 16384]).unwrap(), false);
    assert_eq!(pm.progress(), before);
    assert!(pm.have_piece(3));
    assert!(!pm.commit_piece(3));
    assert_eq!(pm.progress().verified_bytes, 32768);
}

#[test]
fn test_mismatching_piece_is_dropped() {
    let mut pm = hundred_pieces();
    assert!(pm.start_piece(5).is_some());
    assert_eq!(pm.add_block(5, 0, vec![0; 16384]).unwrap(), false);
    assert_eq!(pm.add_block(5, 16384, vec![0; 16384]).unwrap(), true);
    assert!(matches!(pm.verify_piece(5), Ok(Verdict::Mismatch)));
    assert!(!pm.have_piece(5));
    assert!(!pm.commit_piece(5));
    assert!(pm.need_piece(5));
    assert_eq!(pm.progress().verified_bytes, 0);
    assert_eq!(pm.progress().pending_pieces, 0);
}

#[test]
fn test_commit_needs_a_passed_hash_check() {
    let mut pm = hundred_pieces();
    receive(&mut pm, 8);
    assert!(!pm.commit_piece(8));
    assert!(!pm.have_piece(8));
    assert!(!pm.commit_piece(99));
    assert!(!pm.commit_piece(100));
}

#[test]
fn test_block_errors() {
    let mut pm = hundred_pieces();
    match pm.add_block(4, 0, vec![0; 16384]) {
        Err(EngineError::Protocol { kind, message }) => {
            assert_eq!(kind, ProtocolErrorKind::PeerProtocol);
            assert_eq!(message, "Received block for unknown piece 4");
        }
        other => panic!("accepted: {:?}", other),
    }
    assert!(pm.start_piece(4).is_some());
    assert!(matches!(
        pm.add_block(4, 5, vec![0; 16384]),
        Err(EngineError::Protocol { kind: ProtocolErrorKind::PeerProtocol, .. })
    ));
    assert!(matches!(
        pm.add_block(4, 0, vec![0; 5]),
        Err(EngineError::Protocol { kind: ProtocolErrorKind::PeerProtocol, .. })
    ));
    assert_eq!(pm.add_block(4, 0, vec![0; 16384]).unwrap(), false);
    assert_eq!(pm.add_block(4, 0, vec![0; 16384]).unwrap(), false);
    assert!(matches!(pm.verify_piece(4), Err(EngineError::Protocol { .. })));
    assert!(matches!(pm.verify_piece(77), Err(EngineError::Protocol { .. })));
    assert!(pm.start_piece(100).is_none());
}

#[test]
fn test_existing_bytes_are_checked_against_the_digest() {
    let mut pm = hundred_pieces();
    assert!(!pm.check_existing(2, &vec![0; PIECE as usize]));
    assert!(!pm.check_existing(2, &piece_bytes(3, PIECE as usize)));
    assert!(!pm.check_existing(200, &piece_bytes(2, PIECE as usize)));
    assert!(!pm.have_piece(2));
    assert!(pm.check_existing(2, &piece_bytes(2, PIECE as usize)));
    assert!(pm.have_piece(2));
    assert_eq!(pm.progress().verified_bytes, PIECE);
    assert!(pm.check_existing(2, &piece_bytes(2, PIECE as usize)));
    assert_eq!(pm.progress().verified_bytes, PIECE);
    assert_eq!(pm.progress().have_pieces, 1);
}

#[test]
fn test_rarest_piece_first() {
    let m = metainfo_of("data.bin", vec![("data.bin", 4 * PIECE)], PIECE);
    let mut pm = PieceManager::new(m, "/save".to_string());
    let everything = Bitfield::from_bools(&vec![true, true, true, true]);
    let some = Bitfield::from_bools(&vec![true, false, true, false]);
    pm.update_availability(&everything, true);
    pm.update_availability(&some, true);
    assert_eq!(pm.piece_availability, vec![2, 1, 2, 1]);
    assert_eq!(pm.select_piece(&everything), Some(1));
    assert_eq!(pm.select_piece(&some), Some(0));
    pm.start_piece(1);
    assert_eq!(pm.select_piece(&everything), Some(3));
    assert!(pm.check_existing(3, &piece_bytes(3, PIECE as usize)));
    assert_eq!(pm.select_piece(&everything), Some(0));
    pm.update_availability(&some, false);
    assert_eq!(pm.piece_availability, vec![1, 1, 1, 1]);
    let nothing = Bitfield::new(4);
    assert_eq!(pm.select_piece(&nothing), None);
}

#[test]
fn test_block_requests_and_cancel() {
    let mut pm = hundred_pieces();
    assert_eq!(pm.get_block_requests(6), Vec::<BlockRequest>::new());
    pm.start_piece(6);
    assert_eq!(
        pm.get_block_requests(6),
        vec![
            BlockRequest { piece: 6, offset: 0, length: 16384 },
            BlockRequest { piece: 6, offset: 16384, length: 16384 },
        ]
    );
    pm.mark_block_requested(6, 0, 1);
    assert_eq!(
        pm.get_block_requests(6),
        vec![BlockRequest { piece: 6, offset: 16384, length: 16384 }]
    );
    assert_eq!(pm.progress().pending_pieces, 1);
    pm.cancel_piece(6);
    assert_eq!(pm.progress().pending_pieces, 0);
    assert!(pm.need_piece(6));
}

#[test]
fn test_endgame_when_few_pieces_are_missing() {
    let m = metainfo_of("data.bin", vec![("data.bin", 12 * PIECE)], PIECE);
    let mut pm = PieceManager::new(m, "/save".to_string());
    assert_eq!(pm.endgame_pieces(), Vec::<u32>::new());
    assert!(pm.check_existing(0, &piece_bytes(0, PIECE as usize)));
    assert!(pm.check_existing(1, &piece_bytes(1, PIECE as usize)));
    assert_eq!(pm.endgame_pieces(), (2..12).collect::<Vec<u32>>());
    pm.start_piece(5);
    pm.mark_block_requested(5, 0, 1);
    let requests = pm.endgame_requests();
    assert!(requests.contains(&BlockRequest { piece: 5, offset: 0, length: 16384 }));
    assert!(requests.contains(&BlockRequest { piece: 5, offset: 16384, length: 16384 }));
}

#[test]
fn test_pieces_over_several_files() {
    let m = metainfo_of("album", vec![("a.bin", 10), ("b.bin", 0), ("c/d.bin", 25)], 16);
    assert!(m.is_consistent());
    assert_eq!(m.num_pieces(), 3);
    assert_eq!(m.piece_length(0), Some(16));
    assert_eq!(m.piece_length(2), Some(3));
    assert_eq!(m.piece_length(3), None);
    assert_eq!(m.files_for_piece(0), vec![(0, 0, 10), (2, 0, 6)]);
    assert_eq!(m.files_for_piece(1), vec![(2, 6, 16)]);
    assert_eq!(m.files_for_piece(2), vec![(2, 22, 3)]);
    assert_eq!(m.files_for_piece(3), Vec::<(usize, u64, u64)>::new());
    let pm = PieceManager::new(m, "/save".to_string());
    assert_eq!(
        pm.piece_slices(0).unwrap(),
        vec![
            WriteSlice { file_index: 0, file_offset: 0, data_offset: 0, length: 10 },
            WriteSlice { file_index: 2, file_offset: 0, data_offset: 10, length: 6 },
        ]
    );
}

#[test]
fn test_inconsistent_descriptions() {
    let mut m = metainfo_of("data.bin", vec![("data.bin", 100)], 16);
    assert!(m.is_consistent());
    m.info.pieces.pop();
    assert!(!m.is_consistent());
    let mut m = metainfo_of("data.bin", vec![("a", 10), ("b", 10)], 16);
    m.info.files[1].offset = 11;
    assert!(!m.is_consistent());
    let mut m = metainfo_of("data.bin", vec![("a", 10)], 16);
    m.info.total_size = 11;
    assert!(!m.is_consistent());
    let mut m = metainfo_of("data.bin", vec![("a", 10)], 16);
    m.info.piece_length = 0;
    assert!(!m.is_consistent());
}

#[test]
fn test_trackers_each_once() {
    let m = metainfo_of("data.bin", vec![("data.bin", 10)], 16);
    assert_eq!(
        m.all_trackers(),
        vec![
            "http://tracker.example/announce".to_string(),
            "udp://a.example:1".to_string(),
            "udp://b.example:2".to_string(),
        ]
    );
}

#[test]
fn test_path_traversal_is_rejected() {
    for path in ["../../etc/passwd", "..", "a/../b", "a/..", "/etc/passwd", "\\x", "c:\\x", "a\\..\\b"] {
        match validate_path(path) {
            Err(EngineError::Protocol { kind, .. }) => {
                assert_eq!(kind, ProtocolErrorKind::InvalidTorrent, "{}", path)
            }
            other => panic!("{} accepted: {:?}", path, other),
        }
    }
    for path in ["etc/passwd", "a/b/c.txt", "..a/b", "a../b", "a/..b", "...", "", "a"] {
        assert!(validate_path(path).is_ok(), "{}", path);
    }
}

#[test]
fn test_malicious_torrent_is_rejected_at_start() {
    let m = metainfo_of("album", vec![("ok.bin", 10), ("../../etc/passwd", 22)], 16);
    assert!(matches!(
        m.info.validate_paths(),
        Err(EngineError::Protocol { kind: ProtocolErrorKind::InvalidTorrent, .. })
    ));
    let mut d = TorrentDownloader::from_torrent(
        DownloadId::from_u128(1),
        m,
        "/save".to_string(),
        TorrentConfig::default(),
        [1u8; 20],
    );
    match d.start() {
        Err(EngineError::Protocol { kind, message }) => {
            assert_eq!(kind, ProtocolErrorKind::InvalidTorrent);
            assert_eq!(message, "Invalid torrent: file path contains parent directory reference (..)");
        }
        other => panic!("started: {:?}", other),
    }
    assert_eq!(d.state(), TorrentState::Error);
    d.finish_check();
    assert_eq!(d.state(), TorrentState::Error);
    d.resume();
    d.piece_verified();
    assert_eq!(d.state(), TorrentState::Error);
    let pm = d.piece_manager.as_ref().unwrap();
    assert!(pm.piece_slices(0).is_err());
    assert!(pm.piece_slices(1).is_err());
}

#[test]
fn test_no_piece_of_a_malicious_torrent_is_written() {
    let m = metainfo_of("album", vec![("ok.bin", PIECE), ("../../etc/passwd", PIECE)], PIECE);
    let mut pm = PieceManager::new(m, "/save".to_string());
    for index in 0..2u32 {
        assert!(matches!(
            pm.piece_slices(index),
            Err(EngineError::Protocol { kind: ProtocolErrorKind::InvalidTorrent, .. })
        ));
    }
    receive(&mut pm, 0);
    assert!(matches!(
        pm.verify_piece(0),
        Err(EngineError::Protocol { kind: ProtocolErrorKind::InvalidTorrent, .. })
    ));
    assert!(!pm.commit_piece(0));
    assert!(!pm.have_piece(0));
}

#[test]
fn test_a_colon_behind_a_letter_is_a_drive() {
    for path in ["c:\\x", "C:", "z:file", "Z:/x"] {
        assert!(validate_path(path).is_err(), "{}", path);
    }
    for path in ["1: Intro.mp4", "a", "ab:c", "é:x", "_:x", "::", " :x"] {
        assert!(validate_path(path).is_ok(), "{}", path);
    }
}

#[test]
fn test_malicious_torrent_name_is_rejected() {
    let m = metainfo_of("/abs", vec![("ok.bin", 10)], 16);
    let pm = PieceManager::new(m, "/save".to_string());
    assert!(matches!(
        pm.piece_slices(0),
        Err(EngineError::Protocol { kind: ProtocolErrorKind::InvalidTorrent, .. })
    ));
}

#[test]
fn test_torrent_states() {
    let m = metainfo_of("data.bin", vec![("data.bin", 2 * PIECE)], PIECE);
    let mut d = TorrentDownloader::from_torrent(
        DownloadId::from_u128(1),
        m,
        "/save".to_string(),
        TorrentConfig::default(),
        [1u8; 20],
    );
    assert_eq!(d.state(), TorrentState::Checking);
    assert!(d.start().is_ok());
    assert_eq!(d.state(), TorrentState::Checking);
    d.finish_check();
    assert_eq!(d.state(), TorrentState::Downloading);
    d.pause();
    assert_eq!(d.state(), TorrentState::Paused);
    d.resume();
    assert_eq!(d.state(), TorrentState::Downloading);
    for i in 0..2u32 {
        let pm = d.piece_manager.as_mut().unwrap();
        assert!(pm.check_existing(i, &piece_bytes(i as usize, PIECE as usize)));
        d.piece_verified();
    }
    assert!(d.is_complete());
    assert_eq!(d.state(), TorrentState::Seeding);
    d.stop();
    assert_eq!(d.state(), TorrentState::Stopped);
}

#[test]
fn test_magnet_waits_for_metadata() {
    let magnet = MagnetUri {
        info_hash: [0xab; 20],
        display_name: None,
        trackers: vec!["udp://a.example:1".to_string()],
    };
    assert_eq!(magnet.name(), "ab".repeat(20));
    let mut d = TorrentDownloader::from_magnet(
        DownloadId::from_u128(2),
        magnet,
        "/save".to_string(),
        TorrentConfig::default(),
        [1u8; 20],
    );
    assert_eq!(d.state(), TorrentState::Metadata);
    assert!(d.start().is_ok());
    assert_eq!(d.state(), TorrentState::Metadata);
    assert_eq!(d.name(), "ab".repeat(20));
    assert_eq!(d.info_hash_hex(), "ab".repeat(20));
    assert_eq!(d.get_tracker_urls(), vec!["udp://a.example:1".to_string()]);
    assert!(!d.is_complete());
    assert_eq!(d.calculate_eta(), None);
}

#[test]
fn test_hash_hex() {
    let mut h = [0u8; 20];
    h[0] = 0x01;
    h[1] = 0xfe;
    h[19] = 0x0a;
    assert_eq!(hash_hex(&h), "01fe00000000000000000000000000000000000a");
}

#[test]
fn test_announce_and_peers() {
    let m = metainfo_of("data.bin", vec![("data.bin", 2 * PIECE)], PIECE);
    let mut d = TorrentDownloader::from_torrent(
        DownloadId::from_u128(1),
        m,
        "/save".to_string(),
        TorrentConfig::default(),
        [3u8; 20],
    );
    let pm = d.piece_manager.as_mut().unwrap();
    assert!(pm.check_existing(0, &piece_bytes(0, PIECE as usize)));
    let r = d.announce_request(AnnounceEvent::Started);
    assert_eq!(r.info_hash, [7u8; 20]);
    assert_eq!(r.peer_id, [3u8; 20]);
    assert_eq!(r.port, 6881);
    assert_eq!(r.downloaded, PIECE);
    assert_eq!(r.left, PIECE);
    assert_eq!(r.uploaded, 0);
    assert_eq!(r.event, AnnounceEvent::Started);
    assert!(r.compact);
    assert_eq!(r.numwant, Some(50));

    let a = PeerAddr { ip: IpBits::V4(0x0a00_0001), port: 6881 };
    let b = PeerAddr { ip: IpBits::V6(1), port: 6881 };
    let response = AnnounceResponse {
        interval: 900,
        complete: Some(4),
        incomplete: None,
        peers: vec![a, b, a],
    };
    d.apply_announce_response(&response);
    assert_eq!(d.known_peer_addresses(), vec![a, b]);
    d.add_known_peers(&vec![b, a]);
    assert_eq!(d.known_peer_addresses(), vec![a, b]);
    assert_eq!(d.seeders, 4);
    assert_eq!(d.leechers, 0);
    assert_eq!(d.next_announce_interval(900), 900);
    d.config.announce_interval = 60;
    assert_eq!(d.next_announce_interval(900), 60);
}

#[test]
fn test_peer_ceiling() {
    let m = metainfo_of("data.bin", vec![("data.bin", PIECE)], PIECE);
    let mut config = TorrentConfig::default();
    config.max_peers = 2;
    let mut d = TorrentDownloader::from_torrent(
        DownloadId::from_u128(1),
        m,
        "/save".to_string(),
        config,
        [3u8; 20],
    );
    assert!(d.try_connect_peer());
    assert!(d.try_connect_peer());
    assert!(!d.try_connect_peer());
    assert_eq!(d.peer_count(), 2);
    d.peer_disconnected();
    assert!(d.try_connect_peer());
    d.peer_disconnected();
    d.peer_disconnected();
    d.peer_disconnected();
    assert_eq!(d.peer_count(), 0);
}

#[test]
fn test_private_torrents_use_trackers_only() {
    let mut m = metainfo_of("data.bin", vec![("data.bin", PIECE)], PIECE);
    m.info.private = true;
    let d = TorrentDownloader::from_torrent(
        DownloadId::from_u128(1),
        m,
        "/save".to_string(),
        TorrentConfig::default(),
        [3u8; 20],
    );
    assert!(d.is_private());
    assert!(!d.dht_enabled());
    assert!(!d.pex_enabled());
    assert!(!d.lpd_enabled());

    let open = TorrentDownloader::from_torrent(
        DownloadId::from_u128(2),
        metainfo_of("data.bin", vec![("data.bin", PIECE)], PIECE),
        "/save".to_string(),
        TorrentConfig::default(),
        [3u8; 20],
    );
    assert!(!open.is_private());
    assert!(open.dht_enabled());
    assert!(open.pex_enabled());
    assert!(open.lpd_enabled());

    let mut config = TorrentConfig::default();
    config.enable_dht = false;
    let quiet = TorrentDownloader::from_torrent(
        DownloadId::from_u128(3),
        metainfo_of("data.bin", vec![("data.bin", PIECE)], PIECE),
        "/save".to_string(),
        config,
        [3u8; 20],
    );
    assert!(!quiet.dht_enabled());
    assert!(quiet.pex_enabled());
}

#[test]
fn test_where_the_files_lie() {
    let one = PieceManager::new(
        metainfo_of("data.bin", vec![("data.bin", PIECE)], PIECE),
        "/save".to_string(),
    );
    assert_eq!(one.target_path_parts(0), vec!["/save".to_string(), "data.bin".to_string()]);
    let many = PieceManager::new(
        metainfo_of("album", vec![("a.bin", 10), ("c/d.bin", 22)], 16),
        "/save".to_string(),
    );
    assert_eq!(
        many.target_path_parts(1),
        vec!["/save".to_string(), "album".to_string(), "c/d.bin".to_string()]
    );
    assert_eq!(many.target_path_parts(9), vec!["/save".to_string(), "album".to_string()]);
}

#[test]
fn test_allocation_steps() {
    assert_eq!(allocation_step(AllocationMode::Unallocated, 0, 100), AllocationStep::Leave);
    assert_eq!(allocation_step(AllocationMode::Sparse, 0, 100), AllocationStep::Extend { length: 100 });
    assert_eq!(allocation_step(AllocationMode::Sparse, 100, 100), AllocationStep::Leave);
    assert_eq!(allocation_step(AllocationMode::Sparse, 200, 100), AllocationStep::Leave);
    assert_eq!(
        allocation_step(AllocationMode::Full, 40, 100),
        AllocationStep::Fill { from: 40, length: 100 }
    );
    assert_eq!(allocation_step(AllocationMode::Full, 100, 100), AllocationStep::Leave);
}
