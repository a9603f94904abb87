//! Snapshot replication for pools of a snapshot-capable filesystem: naming
//! snapshots, reading catalogs, finding the snapshot that two timelines
//! share, planning the transfer and deciding which snapshots may go.

pub mod catalog;
pub mod command;
pub mod error;
pub mod listing;
pub mod machine;
pub mod metadata;
pub mod pipeline;
pub mod precursor;
pub mod retention;
pub mod session;
pub mod stamp;
pub mod text;
