//! Log-file analysis: splitting a log into per-key files, counting keyed
//! findings, cutting a time window, measuring time differences between
//! marker lines, and importing regex-structured lines into a table.

pub mod pattern;
pub mod clock;
pub mod command;
pub mod filename;
pub mod split;
pub mod tally;
pub mod window;
pub mod timediff;
pub mod db;
