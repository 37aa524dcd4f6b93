pub mod convert;
pub mod store;
