//! Sillok: a verified core for append-only agent work chronicles.

pub mod error;
pub mod text;
pub mod domain;
pub mod sync;
pub mod storage;
pub mod operation;
pub mod mutation_helpers;
pub mod mutations;
pub mod cli;
pub mod archive_codec;
pub mod queries;
pub mod migration;
