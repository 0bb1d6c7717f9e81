//! The aria2 back end of the desktop application: the records of its RPC
//! interface, the supervision of its process, the list of trackers and
//! the tray.

pub mod client;
pub mod commands;
pub mod db;
pub mod error;
pub mod process;
pub mod state;
pub mod supervisor;
pub mod tracker;
pub mod tray;
pub mod types;
