//! Core of a read-only tile server for hierarchical 3-D model data.
//!
//! The crate holds the rules of the server as plain, verified functions:
//! who may read a tileset, when a cached body is fresh, which files may be
//! kept in memory, and how access counters roll up.

pub mod access;
pub mod cache;
pub mod config;
pub mod meta;
pub mod model;
pub mod path;
pub mod rollup;
pub mod server;
pub mod stat;
pub mod store;
pub mod wire;
