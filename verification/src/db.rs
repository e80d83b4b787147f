//! Statements and data for the database server.
pub mod database;
pub mod extension;
pub mod general;
pub mod user;
