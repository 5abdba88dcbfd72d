//! A verified text-statistics library in the manner of `wc`: it counts the
//! lines, words, bytes, and Unicode characters of a byte source, combines
//! per-source counts into totals, and formats the report rows.

pub mod cli;
pub mod counter;
pub mod report;
pub mod stats;
pub mod text;

pub use cli::get_args;
pub use counter::Counter;
pub use cli::ArgError;
pub use cli::Cli;
pub use report::format_error_line;
pub use stats::Stats;
