//! Source line counting: classification of lines, file filtering,
//! language detection, configuration merging and report records.

pub mod cli;
pub mod config;
pub mod counter;
pub mod filter;
pub mod init;
pub mod languages;
pub mod output;
pub mod path;
pub mod table;
pub mod text;
