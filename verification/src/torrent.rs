//! BitTorrent downloads: torrent files and magnet links, piece bookkeeping
//! with SHA-1 verification and the orchestration around it: tracker
//! announces, the set of known peers and the state of the torrent.

pub mod bencode;
pub mod bitfield;
pub mod magnet;
pub mod metainfo;
pub mod piece;

use crate::error::{EngineError, EngineErrorView, ProtocolErrorKind};
use crate::torrent::metainfo::{spec_all_trackers, Metainfo, Sha1Hash};
use crate::torrent::piece::PieceManager;
use crate::types::{
    clone_strings, eta, hex_fixed, push_hex_fixed, spec_eta, strings_view, DownloadId,
    DownloadProgress,
};
use crate::text::string_of;
use vstd::prelude::*;

verus! {

/// Size of a block, the unit that peers are asked for (16 KiB).
pub const BLOCK_SIZE: u32 = 16384;

/// Configuration of one torrent download.
#[derive(Clone, Copy, Debug, PartialEq, Eq)]
pub struct TorrentConfig {
    /// Maximum number of peers per torrent.
    pub max_peers: usize,
    /// Port range for incoming connections.
    pub listen_port_range: (u16, u16),
    pub enable_dht: bool,
    pub enable_pex: bool,
    pub enable_lpd: bool,
    /// Stop seeding at this ratio, in thousandths of the downloaded size.
    pub seed_ratio_permille: Option<u64>,
    /// Maximum upload speed in bytes a second, 0 for none.
    pub max_upload_speed: u64,
    /// Maximum download speed in bytes a second, 0 for none.
    pub max_download_speed: u64,
    /// Announce interval in seconds that overrides the tracker's, 0 for
    /// none.
    pub announce_interval: u64,
    /// Seconds after which a block request has timed out.
    pub request_timeout_secs: u64,
    /// Seconds between keep-alive messages.
    pub keepalive_interval_secs: u64,
}

impl TorrentConfig {
    pub open spec fn spec_default() -> TorrentConfig {
        TorrentConfig {
            max_peers: 50,
            listen_port_range: (6881, 6889),
            enable_dht: true,
            enable_pex: true,
            enable_lpd: true,
            seed_ratio_permille: None,
            max_upload_speed: 0,
            max_download_speed: 0,
            announce_interval: 0,
            request_timeout_secs: 30,
            keepalive_interval_secs: 120,
        }
    }
}

impl Default for TorrentConfig {
    fn default() -> (c: TorrentConfig)
        ensures
            c == TorrentConfig::spec_default(),
    {
        TorrentConfig {
            max_peers: 50,
            listen_port_range: (6881, 6889),
            enable_dht: true,
            enable_pex: true,
            enable_lpd: true,
            seed_ratio_permille: None,
            max_upload_speed: 0,
            max_download_speed: 0,
            announce_interval: 0,
            request_timeout_secs: 30,
            keepalive_interval_secs: 120,
        }
    }
}

/// State of a torrent download.
#[derive(Clone, Copy, Debug, PartialEq, Eq, Structural)]
pub enum TorrentState {
    /// Checking existing files.
    Checking,
    /// Waiting for the metadata of a magnet link.
    Metadata,
    /// Downloading pieces.
    Downloading,
    /// Complete and uploading.
    Seeding,
    Paused,
    Stopped,
    /// The torrent was refused at its start.
    Error,
}

/// The address of an IPv4 or IPv6 peer.
#[derive(Clone, Copy, Debug, PartialEq, Eq, Structural)]
pub enum IpBits {
    V4(u32),
    V6(u128),
}

/// Where a peer can be reached.
#[derive(Clone, Copy, Debug, PartialEq, Eq, Structural)]
pub struct PeerAddr {
    pub ip: IpBits,
    pub port: u16,
}

/// Why an announce is made.
#[derive(Clone, Copy, Debug, PartialEq, Eq, Structural)]
pub enum AnnounceEvent {
    Started,
    Stopped,
    Completed,
    /// A regular announce between the others.
    Periodic,
}

/// What a tracker is told.
#[derive(Clone, Copy, Debug, PartialEq, Eq)]
pub struct AnnounceRequest {
    pub info_hash: Sha1Hash,
    pub peer_id: [u8; 20],
    pub port: u16,
    pub uploaded: u64,
    pub downloaded: u64,
    pub left: u64,
    pub event: AnnounceEvent,
    pub compact: bool,
    pub numwant: Option<u32>,
}

/// What a tracker answers.
#[derive(Debug)]
pub struct AnnounceResponse {
    /// Seconds until the next announce.
    pub interval: u64,
    /// Number of seeders.
    pub complete: Option<u32>,
    /// Number of leechers.
    pub incomplete: Option<u32>,
    pub peers: Vec<PeerAddr>,
}

/// A parsed magnet link.
#[derive(Debug)]
pub struct MagnetUri {
    pub info_hash: Sha1Hash,
    pub display_name: Option<String>,
    pub trackers: Vec<String>,
}

/// The bytes as lowercase hexadecimal digits, two per byte.
pub open spec fn hex_of_bytes(bytes: Seq<u8>) -> Seq<char>
    decreases bytes.len(),
{
    if bytes.len() == 0 {
        Seq::empty()
    } else {
        hex_of_bytes(bytes.drop_last()) + hex_fixed(bytes.last() as nat, 2)
    }
}

/// The digest as 40 lowercase hexadecimal digits.
pub fn hash_hex(hash: &Sha1Hash) -> (r: String)
    ensures
        r@ == hex_of_bytes(hash@),
{
    let mut out: Vec<char> = Vec::new();
    let mut i: usize = 0;
    assert(hash@.take(0) =~= Seq::empty());
    while i < 20
        invariant
            i <= 20,
            out@ == hex_of_bytes(hash@.take(i as int)),
        decreases 20 - i,
    {
        proof {
            assert(hash@.take(i + 1).drop_last() == hash@.take(i as int));
            assert(hash@.take(i + 1).last() == hash@[i as int]);
        }
        push_hex_fixed(&mut out, hash[i] as u64, 2);
        i += 1;
    }
    assert(hash@.take(20) == hash@);
    string_of(&out)
}

impl MagnetUri {
    /// The name to show: the display name, else the info-hash in
    /// hexadecimal.
    pub fn name(&self) -> (r: String)
        ensures
            r@ == match self.display_name {
                Some(n) => n@,
                None => hex_of_bytes(self.info_hash@),
            },
    {
        match &self.display_name {
            Some(n) => n.clone(),
            None => hash_hex(&self.info_hash),
        }
    }
}

/// No address stands twice in the list.
pub open spec fn no_repeats(peers: Seq<PeerAddr>) -> bool {
    forall|i: int, j: int| 0 <= i < j < peers.len() ==> peers[i] != peers[j]
}

/// The list with `more` appended, but for the addresses that are in it
/// already.
pub open spec fn with_new_peers(known: Seq<PeerAddr>, more: Seq<PeerAddr>) -> Seq<PeerAddr>
    decreases more.len(),
{
    if more.len() == 0 {
        known
    } else {
        let sofar = with_new_peers(known, more.drop_last());
        if sofar.contains(more.last()) {
            sofar
        } else {
            sofar.push(more.last())
        }
    }
}

pub proof fn lemma_with_new_peers(known: Seq<PeerAddr>, more: Seq<PeerAddr>)
    requires
        no_repeats(known),
    ensures
        no_repeats(with_new_peers(known, more)),
        forall|p: PeerAddr| known.contains(p) ==> with_new_peers(known, more).contains(p),
        forall|p: PeerAddr| more.contains(p) ==> with_new_peers(known, more).contains(p),
        forall|p: PeerAddr| #[trigger]
            with_new_peers(known, more).contains(p) ==> known.contains(p) || more.contains(p),
    decreases more.len(),
{
    if more.len() > 0 {
        let rest = more.drop_last();
        let last = more.last();
        lemma_with_new_peers(known, rest);
        let sofar = with_new_peers(known, rest);
        let all = with_new_peers(known, more);
        assert forall|p: PeerAddr| known.contains(p) implies all.contains(p) by {
            assert(sofar.contains(p));
            let i = choose|i: int| 0 <= i < sofar.len() && sofar[i] == p;
            assert(all[i] == p);
        }
        assert forall|p: PeerAddr| more.contains(p) implies all.contains(p) by {
            let k = choose|k: int| 0 <= k < more.len() && more[k] == p;
            if k < rest.len() {
                assert(rest[k] == p);
                assert(rest.contains(p));
                assert(sofar.contains(p));
                let i = choose|i: int| 0 <= i < sofar.len() && sofar[i] == p;
                assert(all[i] == p);
            } else if sofar.contains(last) {
            } else {
                assert(all[all.len() - 1] == p);
            }
        }
        assert forall|p: PeerAddr| #[trigger] all.contains(p) implies known.contains(p)
            || more.contains(p) by {
            let i = choose|i: int| 0 <= i < all.len() && all[i] == p;
            if i < sofar.len() {
                assert(sofar[i] == p);
                assert(sofar.contains(p));
                if rest.contains(p) {
                    let k = choose|k: int| 0 <= k < rest.len() && rest[k] == p;
                    assert(more[k] == p);
                }
            } else {
                assert(more[more.len() - 1] == p);
            }
        }
    }
}

/// The torrent tier around the piece engine.
#[derive(Debug)]
pub struct TorrentDownloader {
    pub id: DownloadId,
    /// The piece engine; absent for a magnet link whose metadata has not
    /// arrived.
    pub piece_manager: Option<PieceManager>,
    pub magnet: Option<MagnetUri>,
    pub info_hash: Sha1Hash,
    pub peer_id: [u8; 20],
    pub save_dir: String,
    pub config: TorrentConfig,
    pub state: TorrentState,
    /// Number of connected peers.
    pub peers_connected: usize,
    /// Peer addresses from trackers, DHT, PEX and LPD, each once.
    pub known_peers: Vec<PeerAddr>,
    pub uploaded: u64,
    pub download_speed: u64,
    pub upload_speed: u64,
    pub seeders: u64,
    pub leechers: u64,
}

/// The counter as a `u32`, kept at the maximum.
pub open spec fn clamp_u32(n: u64) -> u32 {
    if n > u32::MAX {
        u32::MAX
    } else {
        n as u32
    }
}

fn to_u32(n: u64) -> (r: u32)
    ensures
        r == clamp_u32(n),
{
    if n > u32::MAX as u64 {
        u32::MAX
    } else {
        n as u32
    }
}

impl TorrentDownloader {
    /// The piece engine, if there is one, keeps its books; no peer address
    /// is known twice; no more peers are connected than allowed.
    pub open spec fn wf(&self) -> bool {
        &&& self.piece_manager matches Some(pm) ==> pm.wf()
        &&& no_repeats(self.known_peers@)
        &&& self.peers_connected <= self.config.max_peers
    }

    /// A downloader for a parsed torrent file. It begins by checking the
    /// files that exist.
    pub fn from_torrent(
        id: DownloadId,
        metainfo: Metainfo,
        save_dir: String,
        config: TorrentConfig,
        peer_id: [u8; 20],
    ) -> (d: TorrentDownloader)
        requires
            metainfo.wf(),
        ensures
            d.wf(),
            d.id == id,
            d.piece_manager matches Some(pm) && pm.metainfo == metainfo && pm.verified_bytes == 0
                && pm.have@ == Seq::new(metainfo.info.pieces.len() as nat, |i: int| false),
            d.magnet is None,
            d.info_hash == metainfo.info_hash,
            d.peer_id == peer_id,
            d.save_dir@ == save_dir@,
            d.config == config,
            d.state == TorrentState::Checking,
            d.peers_connected == 0,
            d.known_peers@.len() == 0,
            d.uploaded == 0 && d.download_speed == 0 && d.upload_speed == 0 && d.seeders == 0
                && d.leechers == 0,
    {
        let info_hash = metainfo.info_hash;
        let piece_manager = PieceManager::new(metainfo, save_dir.clone());
        TorrentDownloader {
            id,
            piece_manager: Some(piece_manager),
            magnet: None,
            info_hash,
            peer_id,
            save_dir,
            config,
            state: TorrentState::Checking,
            peers_connected: 0,
            known_peers: Vec::new(),
            uploaded: 0,
            download_speed: 0,
            upload_speed: 0,
            seeders: 0,
            leechers: 0,
        }
    }

    /// A downloader for a magnet link. It begins by waiting for the
    /// metadata.
    pub fn from_magnet(
        id: DownloadId,
        magnet: MagnetUri,
        save_dir: String,
        config: TorrentConfig,
        peer_id: [u8; 20],
    ) -> (d: TorrentDownloader)
        ensures
            d.wf(),
            d.id == id,
            d.piece_manager is None,
            d.magnet == Some(magnet),
            d.info_hash == magnet.info_hash,
            d.peer_id == peer_id,
            d.save_dir == save_dir,
            d.config == config,
            d.state == TorrentState::Metadata,
            d.peers_connected == 0,
            d.known_peers@.len() == 0,
    {
        let info_hash = magnet.info_hash;
        TorrentDownloader {
            id,
            piece_manager: None,
            magnet: Some(magnet),
            info_hash,
            peer_id,
            save_dir,
            config,
            state: TorrentState::Metadata,
            peers_connected: 0,
            known_peers: Vec::new(),
            uploaded: 0,
            download_speed: 0,
            upload_speed: 0,
            seeders: 0,
            leechers: 0,
        }
    }

    /// The download id.
    pub fn id(&self) -> (r: DownloadId)
        ensures
            r == self.id,
    {
        self.id
    }

    /// The info-hash.
    pub fn info_hash(&self) -> (r: &Sha1Hash)
        ensures
            *r == self.info_hash,
    {
        &self.info_hash
    }

    /// The info-hash as 40 lowercase hexadecimal digits.
    pub fn info_hash_hex(&self) -> (r: String)
        ensures
            r@ == hex_of_bytes(self.info_hash@),
    {
        hash_hex(&self.info_hash)
    }

    /// The current state.
    pub fn state(&self) -> (r: TorrentState)
        ensures
            r == self.state,
    {
        self.state
    }

    /// The name: that of the torrent, else that of the magnet link, else
    /// the info-hash in hexadecimal.
    pub fn name(&self) -> (r: String)
        ensures
            r@ == match self.piece_manager {
                Some(pm) => pm.metainfo.info.name@,
                None => match self.magnet {
                    Some(m) => match m.display_name {
                        Some(n) => n@,
                        None => hex_of_bytes(m.info_hash@),
                    },
                    None => hex_of_bytes(self.info_hash@),
                },
            },
    {
        match &self.piece_manager {
            Some(pm) => pm.metainfo.info.name.clone(),
            None => match &self.magnet {
                Some(m) => m.name(),
                None => self.info_hash_hex(),
            },
        }
    }

    /// Bytes verified and bytes in all, zero without a piece engine.
    pub open spec fn spec_sizes(&self) -> (u64, u64) {
        match self.piece_manager {
            Some(pm) => (pm.verified_bytes, pm.metainfo.info.total_size),
            None => (0, 0),
        }
    }

    /// Seconds until the download is complete: zero when nothing remains,
    /// undefined without a piece engine or while nothing moves.
    pub open spec fn spec_eta_seconds(&self) -> Option<u64> {
        match self.piece_manager {
            Some(pm) => {
                let remaining = pm.spec_progress().spec_bytes_remaining();
                if remaining == 0 {
                    Some(0)
                } else {
                    spec_eta(remaining, self.download_speed)
                }
            },
            None => None,
        }
    }

    /// Seconds until the download is complete.
    pub fn calculate_eta(&self) -> (r: Option<u64>)
        ensures
            r == self.spec_eta_seconds(),
    {
        match &self.piece_manager {
            Some(pm) => {
                let remaining = pm.progress().bytes_remaining();
                if remaining == 0 {
                    Some(0)
                } else {
                    eta(remaining, self.download_speed)
                }
            },
            None => None,
        }
    }

    pub open spec fn spec_progress(&self) -> DownloadProgress {
        DownloadProgress {
            total_size: if self.spec_sizes().1 > 0 {
                Some(self.spec_sizes().1)
            } else {
                None
            },
            completed_size: self.spec_sizes().0,
            download_speed: self.download_speed,
            upload_speed: self.upload_speed,
            connections: clamp_u32(self.peers_connected as u64),
            seeders: clamp_u32(self.seeders),
            peers: clamp_u32(self.leechers),
            eta_seconds: self.spec_eta_seconds(),
        }
    }

    /// The counters of the download: the completed size is the bytes of the
    /// verified pieces.
    pub fn progress(&self) -> (r: DownloadProgress)
        ensures
            r == self.spec_progress(),
    {
        let (completed_size, total_size) = match &self.piece_manager {
            Some(pm) => {
                let p = pm.progress();
                (p.verified_bytes, p.total_size)
            },
            None => (0, 0),
        };
        DownloadProgress {
            total_size: if total_size > 0 {
                Some(total_size)
            } else {
                None
            },
            completed_size,
            download_speed: self.download_speed,
            upload_speed: self.upload_speed,
            connections: to_u32(self.peers_connected as u64),
            seeders: to_u32(self.seeders),
            peers: to_u32(self.leechers),
            eta_seconds: self.calculate_eta(),
        }
    }

    pub open spec fn spec_is_complete(&self) -> bool {
        match self.piece_manager {
            Some(pm) => pm.spec_is_complete(),
            None => false,
        }
    }

    /// Whether every piece is verified.
    pub fn is_complete(&self) -> (r: bool)
        requires
            self.wf(),
        ensures
            r == self.spec_is_complete(),
    {
        match &self.piece_manager {
            Some(pm) => pm.is_complete(),
            None => false,
        }
    }

    /// The state that a torrent with a piece engine is in while it runs:
    /// seeding once every piece is verified, downloading before.
    pub open spec fn running_state(&self) -> TorrentState {
        if self.spec_is_complete() {
            TorrentState::Seeding
        } else {
            TorrentState::Downloading
        }
    }

    /// The state after `start`: a torrent with metadata checks the files
    /// that exist, or is in error if it names an unsafe path; a magnet link
    /// goes on waiting for its metadata.
    pub open spec fn started_state(&self) -> TorrentState {
        match self.piece_manager {
            Some(pm) => if pm.metainfo.info.paths_safe() {
                TorrentState::Checking
            } else {
                TorrentState::Error
            },
            None => self.state,
        }
    }

    /// Begins the download: a torrent with metadata checks the files that
    /// exist, a magnet link goes on waiting for its metadata. A torrent
    /// that names an unsafe path is refused before any file is touched,
    /// and is in error: the check of its files does not begin.
    pub fn start(&mut self) -> (r: Result<(), EngineError>)
        ensures
            *final(self) == (TorrentDownloader { state: old(self).started_state(), ..*old(self) }),
            r is Ok <==> (old(self).piece_manager matches Some(pm)
                ==> pm.metainfo.info.paths_safe()),
            r matches Err(e) ==> e@ matches EngineErrorView::Protocol {
                kind: ProtocolErrorKind::InvalidTorrent,
                ..
            },
    {
        match &self.piece_manager {
            Some(pm) => {
                let checked = pm.metainfo.info.validate_paths();
                self.state = match checked {
                    Ok(_) => TorrentState::Checking,
                    Err(_) => TorrentState::Error,
                };
                checked
            },
            None => Ok(()),
        }
    }

    /// Ends the check of the existing files: the torrent seeds if every
    /// piece is there, else it downloads. Only a torrent that is checking
    /// changes.
    pub fn finish_check(&mut self)
        requires
            old(self).wf(),
        ensures
            *final(self) == (TorrentDownloader {
                state: if old(self).state == TorrentState::Checking && old(self).piece_manager is Some {
                    old(self).running_state()
                } else {
                    old(self).state
                },
                ..*old(self)
            }),
    {
        if self.state == TorrentState::Checking && self.piece_manager.is_some() {
            self.state = if self.is_complete() {
                TorrentState::Seeding
            } else {
                TorrentState::Downloading
            };
        }
    }

    /// Takes note that a piece was verified: a download whose last piece it
    /// was goes on to seed.
    pub fn piece_verified(&mut self)
        requires
            old(self).wf(),
        ensures
            *final(self) == (TorrentDownloader {
                state: if old(self).state == TorrentState::Downloading && old(self).spec_is_complete() {
                    TorrentState::Seeding
                } else {
                    old(self).state
                },
                ..*old(self)
            }),
    {
        if self.state == TorrentState::Downloading && self.is_complete() {
            self.state = TorrentState::Seeding;
        }
    }

    /// Pauses the download.
    pub fn pause(&mut self)
        ensures
            *final(self) == (TorrentDownloader { state: TorrentState::Paused, ..*old(self) }),
    {
        self.state = TorrentState::Paused;
    }

    /// Resumes a paused download that has its metadata: it seeds if every
    /// piece is there, else it downloads.
    pub fn resume(&mut self)
        requires
            old(self).wf(),
        ensures
            *final(self) == (TorrentDownloader {
                state: if old(self).state == TorrentState::Paused && old(self).piece_manager is Some {
                    old(self).running_state()
                } else {
                    old(self).state
                },
                ..*old(self)
            }),
    {
        if self.state == TorrentState::Paused && self.piece_manager.is_some() {
            self.state = if self.is_complete() {
                TorrentState::Seeding
            } else {
                TorrentState::Downloading
            };
        }
    }

    /// Stops the download; the caller announces `Stopped`.
    pub fn stop(&mut self)
        ensures
            *final(self) == (TorrentDownloader { state: TorrentState::Stopped, ..*old(self) }),
    {
        self.state = TorrentState::Stopped;
    }

    /// Number of connected peers.
    pub fn peer_count(&self) -> (r: usize)
        ensures
            r == self.peers_connected,
    {
        self.peers_connected
    }

    /// Takes a permit of the peer limiter for a new connection, if the
    /// ceiling of `max_peers` leaves one.
    pub fn try_connect_peer(&mut self) -> (r: bool)
        requires
            old(self).wf(),
        ensures
            final(self).wf(),
            r == (old(self).peers_connected < old(self).config.max_peers),
            *final(self) == (TorrentDownloader {
                peers_connected: if r {
                    (old(self).peers_connected + 1) as usize
                } else {
                    old(self).peers_connected
                },
                ..*old(self)
            }),
    {
        if self.peers_connected < self.config.max_peers {
            self.peers_connected = self.peers_connected + 1;
            true
        } else {
            false
        }
    }

    /// Gives the permit of a closed connection back to the peer limiter.
    pub fn peer_disconnected(&mut self)
        requires
            old(self).wf(),
        ensures
            final(self).wf(),
            *final(self) == (TorrentDownloader {
                peers_connected: if old(self).peers_connected > 0 {
                    (old(self).peers_connected - 1) as usize
                } else {
                    0
                },
                ..*old(self)
            }),
    {
        if self.peers_connected > 0 {
            self.peers_connected = self.peers_connected - 1;
        }
    }

    /// The known peer addresses.
    pub fn known_peer_addresses(&self) -> (r: Vec<PeerAddr>)
        ensures
            r@ == self.known_peers@,
    {
        let mut out: Vec<PeerAddr> = Vec::new();
        let mut i: usize = 0;
        while i < self.known_peers.len()
            invariant
                i <= self.known_peers.len(),
                out@ == self.known_peers@.take(i as int),
            decreases self.known_peers.len() - i,
        {
            out.push(self.known_peers[i]);
            i += 1;
        }
        assert(self.known_peers@.take(self.known_peers.len() as int) == self.known_peers@);
        out
    }

    pub open spec fn spec_is_private(&self) -> bool {
        match self.piece_manager {
            Some(pm) => pm.metainfo.info.private,
            None => false,
        }
    }

    /// Whether the torrent is private: its peers may only come from the
    /// trackers.
    #[verifier::when_used_as_spec(spec_is_private)]
    pub fn is_private(&self) -> (r: bool)
        ensures
            r == self.spec_is_private(),
    {
        match &self.piece_manager {
            Some(pm) => pm.metainfo.info.private,
            None => false,
        }
    }

    /// Adds discovered peers to the known ones, each address once.
    pub fn add_known_peers(&mut self, peers: &Vec<PeerAddr>)
        requires
            old(self).wf(),
        ensures
            final(self).wf(),
            final(self).known_peers@ == with_new_peers(old(self).known_peers@, peers@),
            forall|p: PeerAddr|
                final(self).known_peers@.contains(p) <==> old(self).known_peers@.contains(p)
                    || peers@.contains(p),
            *final(self) == (TorrentDownloader {
                known_peers: final(self).known_peers,
                ..*old(self)
            }),
    {
        let mut i: usize = 0;
        proof {
            lemma_with_new_peers(self.known_peers@, peers@);
        }
        while i < peers.len()
            invariant
                i <= peers.len(),
                no_repeats(old(self).known_peers@),
                self.known_peers@ == with_new_peers(old(self).known_peers@, peers@.take(i as int)),
                *self == (TorrentDownloader { known_peers: self.known_peers, ..*old(self) }),
            decreases peers.len() - i,
        {
            proof {
                assert(peers@.take(i + 1).drop_last() == peers@.take(i as int));
                assert(peers@.take(i + 1).last() == peers@[i as int]);
            }
            let p = peers[i];
            let mut found = false;
            let mut k: usize = 0;
            while k < self.known_peers.len()
                invariant
                    k <= self.known_peers.len(),
                    found == exists|j: int| 0 <= j < k && self.known_peers@[j] == p,
                decreases self.known_peers.len() - k,
            {
                if self.known_peers[k] == p {
                    found = true;
                }
                k += 1;
            }
            if !found {
                self.known_peers.push(p);
            }
            i += 1;
        }
        proof {
            assert(peers@.take(peers.len() as int) == peers@);
        }
    }

    /// The configuration.
    pub fn config(&self) -> (r: &TorrentConfig)
        ensures
            *r == self.config,
    {
        &self.config
    }

    /// Whether DHT is in use: enabled, and the torrent not private.
    pub fn dht_enabled(&self) -> (r: bool)
        ensures
            r == (self.config.enable_dht && !self.spec_is_private()),
            self.spec_is_private() ==> !r,
    {
        self.config.enable_dht && !self.is_private()
    }

    /// Whether peer exchange is in use: enabled, and the torrent not
    /// private.
    pub fn pex_enabled(&self) -> (r: bool)
        ensures
            r == (self.config.enable_pex && !self.spec_is_private()),
            self.spec_is_private() ==> !r,
    {
        self.config.enable_pex && !self.is_private()
    }

    /// Whether local peer discovery is in use: enabled, and the torrent not
    /// private.
    pub fn lpd_enabled(&self) -> (r: bool)
        ensures
            r == (self.config.enable_lpd && !self.spec_is_private()),
            self.spec_is_private() ==> !r,
    {
        self.config.enable_lpd && !self.is_private()
    }

    /// The trackers to announce to: those of the torrent, else those of the
    /// magnet link.
    pub fn get_tracker_urls(&self) -> (r: Vec<String>)
        ensures
            strings_view(r@) == match self.piece_manager {
                Some(pm) => spec_all_trackers(pm.metainfo.announce, pm.metainfo.announce_list@),
                None => match self.magnet {
                    Some(m) => strings_view(m.trackers@),
                    None => Seq::empty(),
                },
            },
    {
        match &self.piece_manager {
            Some(pm) => pm.metainfo.all_trackers(),
            None => match &self.magnet {
                Some(m) => clone_strings(&m.trackers),
                None => {
                    let v: Vec<String> = Vec::new();
                    assert(strings_view(v@) =~= Seq::empty());
                    v
                },
            },
        }
    }

    /// What every tracker is told for `event`, from the current counters.
    pub open spec fn spec_announce_request(&self, event: AnnounceEvent) -> AnnounceRequest {
        AnnounceRequest {
            info_hash: self.info_hash,
            peer_id: self.peer_id,
            port: self.config.listen_port_range.0,
            uploaded: self.uploaded,
            downloaded: self.spec_sizes().0,
            left: if self.spec_sizes().0 >= self.spec_sizes().1 {
                0
            } else {
                (self.spec_sizes().1 - self.spec_sizes().0) as u64
            },
            event,
            compact: true,
            numwant: Some(clamp_u32(self.config.max_peers as u64)),
        }
    }

    /// What every tracker is told for `event`: the bytes of the verified
    /// pieces as downloaded, the rest of the total size as left.
    pub fn announce_request(&self, event: AnnounceEvent) -> (r: AnnounceRequest)
        ensures
            r == self.spec_announce_request(event),
    {
        let (downloaded, left) = match &self.piece_manager {
            Some(pm) => {
                let p = pm.progress();
                (p.verified_bytes, p.bytes_remaining())
            },
            None => (0, 0),
        };
        AnnounceRequest {
            info_hash: self.info_hash,
            peer_id: self.peer_id,
            port: self.config.listen_port_range.0,
            uploaded: self.uploaded,
            downloaded,
            left,
            event,
            compact: true,
            numwant: Some(to_u32(self.config.max_peers as u64)),
        }
    }

    /// Takes in the answer of one tracker: its counts of seeders and
    /// leechers, where it gives them, and its peers, each address once.
    pub fn apply_announce_response(&mut self, response: &AnnounceResponse)
        requires
            old(self).wf(),
        ensures
            final(self).wf(),
            final(self).known_peers@ == with_new_peers(old(self).known_peers@, response.peers@),
            final(self).seeders == match response.complete {
                Some(n) => n as u64,
                None => old(self).seeders,
            },
            final(self).leechers == match response.incomplete {
                Some(n) => n as u64,
                None => old(self).leechers,
            },
            *final(self) == (TorrentDownloader {
                known_peers: final(self).known_peers,
                seeders: final(self).seeders,
                leechers: final(self).leechers,
                ..*old(self)
            }),
    {
        match response.complete {
            Some(n) => {
                self.seeders = n as u64;
            },
            None => {},
        }
        match response.incomplete {
            Some(n) => {
                self.leechers = n as u64;
            },
            None => {},
        }
        self.add_known_peers(&response.peers);
    }

    /// Seconds until the next announce: the tracker's interval, unless the
    /// configuration overrides it.
    pub fn next_announce_interval(&self, tracker_interval: u64) -> (r: u64)
        ensures
            r == if self.config.announce_interval > 0 {
                self.config.announce_interval
            } else {
                tracker_interval
            },
    {
        if self.config.announce_interval > 0 {
            self.config.announce_interval
        } else {
            tracker_interval
        }
    }
}

} // verus!
