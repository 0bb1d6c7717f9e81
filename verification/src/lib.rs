//! A multi-protocol download engine: segmented HTTP downloads, BitTorrent
//! piece bookkeeping and the coordinator that drives both, with every rule
//! stated as a contract and proved.

pub mod aria2;
pub mod config;
pub mod engine;
pub mod error;
pub mod http;
pub mod sidecar;
pub mod storage;
pub mod text;
pub mod torrent;
pub mod types;
