pub mod handle;
pub mod sql;
pub mod store;
