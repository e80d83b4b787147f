//! Verified core of the `pg_actions` PostgreSQL administration tool.
pub mod backup;
pub mod clone;
pub mod database;
pub mod db;
pub mod extension;
pub mod misc;
pub mod output;
pub mod restore;
pub mod session;
pub mod structs;
pub mod text;
pub mod user;
