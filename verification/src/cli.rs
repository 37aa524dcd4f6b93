pub mod args;
pub mod human;
pub mod output;
