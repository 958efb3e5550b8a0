//! Verified core of the X bookmark archive service.

pub mod articles;
pub mod compliance;
pub mod digest;
pub mod explicit_capture;
pub mod folders;
pub mod ids;
pub mod incremental;
pub mod json;
pub mod knowledge;
pub mod legacy;
pub mod legacy_csv;
pub mod legacy_json;
pub mod legacy_sqlite;
pub mod legacy_sources;
pub mod order;
pub mod shadow;
pub mod snapshot;
pub mod social_sources;
pub mod text;
pub mod time;
pub mod transition;
pub mod writeback;
pub mod writeback_flow;
