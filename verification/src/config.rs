//! The settings of a run.

use vstd::prelude::*;
use vstd::string::StringExecFns;
use crate::pattern::MatchMode;

verus! {

/// How many files the summary of the largest files shows.
pub const TOP_FILES_TO_SHOW: usize = 10;

/// The prefix of file names that are reserved for artifacts, unless the
/// settings say otherwise.
pub open spec fn default_output_prefix() -> Seq<char> {
    "combined_output"@
}

/// Configuration for the file combiner.
#[derive(Debug, Clone)]
pub struct CombinerConfig {
    /// The directory to scan.
    pub directory: String,
    /// Where the artifact goes.
    pub output: String,
    /// The name of the tokenization scheme.
    pub tokenizer: String,
    /// A path that one of these matches is never combined.
    pub ignore_patterns: Vec<String>,
    /// Unless empty, only paths that one of these matches are combined.
    pub include_patterns: Vec<String>,
    /// A file whose name begins with this is taken for an artifact and never
    /// combined. Empty: no name is reserved.
    pub output_prefix: String,
    /// How the patterns are read.
    pub match_mode: MatchMode,
}

impl CombinerConfig {
    /// Settings with no patterns, globs as the way to read patterns, and
    /// the default reserved prefix.
    pub fn new(directory: String, output: String, tokenizer: String) -> (config: Self)
        ensures
            config.directory == directory,
            config.output == output,
            config.tokenizer == tokenizer,
            config.ignore_patterns@ == Seq::<String>::empty(),
            config.include_patterns@ == Seq::<String>::empty(),
            config.output_prefix@ == default_output_prefix(),
            config.match_mode == MatchMode::Glob,
    {
        Self {
            directory,
            output,
            tokenizer,
            ignore_patterns: Vec::new(),
            include_patterns: Vec::new(),
            output_prefix: String::from_str("combined_output"),
            match_mode: MatchMode::Glob,
        }
    }
}

} // verus!
