//! Verified core of the Jellyfin media-server plugin: deployment lifecycle
//! planning, storage drift classification, and server diagnosis decisions.
pub mod command;
pub mod error;
pub mod lifecycle;
pub mod storage;
pub mod text;
pub mod tools;
