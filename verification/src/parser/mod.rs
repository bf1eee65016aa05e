//! Parsing of SQL units and what is derived from it.

pub mod config;
pub mod dependencies;
pub mod fallback;
pub mod lineage;
pub mod native;
pub mod sql;
