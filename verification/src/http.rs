//! HTTP downloads: capability probe, segment partitioning and the
//! bookkeeping of a segmented transfer.

pub mod probe;
pub mod segment;
