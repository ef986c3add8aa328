//! The errors of a run.

use vstd::prelude::*;
use vstd::string::StringExecFns;

verus! {

/// What can go wrong while files are combined.
///
/// A `FileProcessing` error concerns one file and is recorded as a skip;
/// every other error ends the run.
#[derive(Debug)]
pub enum CombinerError {
    /// The artifact could not be created or written.
    Io(String),
    /// One file could not be read, decoded or tokenized.
    FileProcessing { path: String, cause: String },
    /// The settings are unusable.
    Config(String),
    /// The tokenizer could not be built.
    Tokenization(String),
    /// Anything else.
    Unknown(String),
}

impl CombinerError {
    /// Whether the error ends the run: every error does, except the failure
    /// of a single file.
    pub open spec fn fatal(&self) -> bool {
        !(self is FileProcessing)
    }

    /// The text of the message.
    pub open spec fn message_text(&self) -> Seq<char> {
        match self {
            CombinerError::Io(detail) => "IO error: "@ + detail@,
            CombinerError::FileProcessing { path, cause } => "Failed to process file: "@ + path@,
            CombinerError::Config(detail) => "Configuration error: "@ + detail@,
            CombinerError::Tokenization(detail) => "Tokenization error: "@ + detail@,
            CombinerError::Unknown(detail) => "Unknown error: "@ + detail@,
        }
    }

    /// Whether the error ends the run.
    pub fn is_fatal(&self) -> (r: bool)
        ensures
            r == self.fatal(),
    {
        match self {
            CombinerError::FileProcessing { .. } => false,
            _ => true,
        }
    }

    /// The message, as it is shown to the user.
    pub fn message(&self) -> (text: String)
        ensures
            text@ == self.message_text(),
    {
        match self {
            CombinerError::Io(detail) => String::from_str("IO error: ").concat(detail.as_str()),
            CombinerError::FileProcessing { path, cause } => String::from_str(
                "Failed to process file: ",
            ).concat(path.as_str()),
            CombinerError::Config(detail) => String::from_str("Configuration error: ").concat(
                detail.as_str(),
            ),
            CombinerError::Tokenization(detail) => String::from_str("Tokenization error: ").concat(
                detail.as_str(),
            ),
            CombinerError::Unknown(detail) => String::from_str("Unknown error: ").concat(
                detail.as_str(),
            ),
        }
    }
}

} // verus!
