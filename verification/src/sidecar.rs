//! The engine as the front end sees it: string-typed download records,
//! options and settings, and the checks on what the front end sends.

pub mod commands;
pub mod db;
pub mod engine_adapter;
pub mod error;
pub mod rpc_args;
pub mod rpc_server;
pub mod state;
pub mod types;
