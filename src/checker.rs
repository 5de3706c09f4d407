pub mod cli;
pub mod properties;
