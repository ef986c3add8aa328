//! Combines the text files of a directory tree into one artifact and counts
//! their tokens.
//!
//! The library holds the rules of a run: which entries are admitted, how a
//! file's outcome changes the statistics, and how the artifact is framed.
//! Reading directories and files is left to the caller.

pub mod combine;
pub mod config;
pub mod error;
pub mod filter;
pub mod order;
pub mod output;
pub mod paths;
pub mod pattern;
pub mod records;
pub mod run;
pub mod stability;
pub mod statistics;
pub mod summary;
pub mod text;
pub mod tokenizer;

pub use config::CombinerConfig;
pub use error::CombinerError;
pub use run::combine_files;
pub use statistics::Statistics;
pub use tokenizer::{get_bpe, TokenizationScheme, Tokenizer};
