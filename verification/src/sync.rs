pub mod config;
pub mod git;
pub mod merge;
pub mod plan;
pub mod service;
