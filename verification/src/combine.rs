//! The state of a run and the steps that change it.
//!
//! A run walks a tree. For each entry it decides what to do
//! ([`plan_entry`]); a file that is to be processed is read by the caller,
//! tokenized ([`process_file`]), and its outcome recorded
//! ([`Combiner::record_processed`], [`Combiner::record_skipped`]).

use std::time::Duration;
use vstd::prelude::*;
use crate::config::CombinerConfig;
use crate::error::CombinerError;
use crate::filter::{admitted, is_admitted, Entry, EntryKind};
use crate::records::{
    is_first_largest,
    sum_tokens,
    FileContents,
    FileRecord,
    ProcessedFile,
    SkipRecord,
};
use crate::statistics::Statistics;
use crate::paths::{components, same_path};
use crate::tokenizer::Tokenizer;

verus! {

/// What a run does with an entry.
#[derive(Clone, Copy, Debug, PartialEq, Eq, Structural)]
pub enum EntryAction {
    /// Count it as a visited directory.
    CountDirectory,
    /// Read it and process its content.
    Process,
    /// Leave it alone; no counter changes.
    Pass,
}

/// What a run does with `entry`: a directory other than the root is
/// counted; an admitted file other than the artifact itself is processed;
/// everything else is passed over. Two paths are the same where they have
/// the same components, however they are spelled.
pub open spec fn planned(entry: Entry, config: CombinerConfig, output_path: Seq<char>)
    -> EntryAction {
    if entry.kind == EntryKind::Directory {
        if components(entry.path@) != components(config.directory@) {
            EntryAction::CountDirectory
        } else {
            EntryAction::Pass
        }
    } else if admitted(entry, config) && components(entry.path@) != components(output_path) {
        EntryAction::Process
    } else {
        EntryAction::Pass
    }
}

/// Decides what the run does with `entry`.
pub fn plan_entry(entry: &Entry, config: &CombinerConfig, output_path: &str) -> (action:
    EntryAction)
    ensures
        action == planned(*entry, *config, output_path@),
{
    let path = entry.path.as_str();
    match entry.kind {
        EntryKind::Directory => {
            if same_path(path, config.directory.as_str()) {
                EntryAction::Pass
            } else {
                EntryAction::CountDirectory
            }
        },
        _ => {
            if same_path(path, output_path) {
                EntryAction::Pass
            } else if is_admitted(entry, config) {
                EntryAction::Process
            } else {
                EntryAction::Pass
            }
        },
    }
}

/// What becomes of a file once its content is read and encoded: the record
/// with the number of tokens, or the failure of this one file.
pub open spec fn processed(
    path: String,
    contents: FileContents,
    encoded: Result<Vec<u32>, String>,
) -> Result<ProcessedFile, CombinerError> {
    match encoded {
        Ok(tokens) => Ok(
            ProcessedFile {
                record: FileRecord { path, tokens: tokens@.len() as usize, size: contents.size },
                content: contents.content,
            },
        ),
        Err(cause) => Err(CombinerError::FileProcessing { path, cause }),
    }
}

/// Builds the outcome of one file from its content and from what the
/// encoder gave for that content.
pub fn process_text(path: String, contents: FileContents, encoded: Result<Vec<u32>, String>) -> (r:
    Result<ProcessedFile, CombinerError>)
    ensures
        r == processed(path, contents, encoded),
{
    match encoded {
        Ok(tokens) => Ok(
            ProcessedFile {
                record: FileRecord { path, tokens: tokens.len(), size: contents.size },
                content: contents.content,
            },
        ),
        Err(cause) => Err(CombinerError::FileProcessing { path, cause }),
    }
}

/// Processes one file from what was read of it.
///
/// A failed read is the failure of this file, with the cause as given.
/// Otherwise the content is encoded, special tokens included, and the number
/// of tokens is the length of the encoding; where the encoder reports an
/// error, that is the failure of this file.
pub fn process_file(path: String, read: Result<FileContents, String>, tokenizer: &Tokenizer) -> (r:
    Result<ProcessedFile, CombinerError>)
    ensures
        match read {
            Err(cause) => r == Err::<ProcessedFile, CombinerError>(
                CombinerError::FileProcessing { path, cause },
            ),
            Ok(contents) => match tokenizer.encoding(contents.content@) {
                Ok(tokens) => r == Ok::<ProcessedFile, CombinerError>(
                    ProcessedFile {
                        record: FileRecord {
                            path,
                            tokens: tokens.len() as usize,
                            size: contents.size,
                        },
                        content: contents.content,
                    },
                ),
                Err(message) => {
                    &&& r is Err
                    &&& r->Err_0 is FileProcessing
                    &&& r->Err_0->path == path
                    &&& r->Err_0->cause@ == message
                },
            },
        },
{
    match read {
        Err(cause) => Err(CombinerError::FileProcessing { path, cause }),
        Ok(contents) => {
            let encoded = tokenizer.encode(contents.content.as_str());
            process_text(path, contents, encoded)
        },
    }
}

/// The state of a run: the statistics and the files they were drawn from.
#[derive(Debug)]
pub struct Combiner {
    pub stats: Statistics,
    /// The processed files, in the order in which they were recorded.
    pub records: Vec<FileRecord>,
    /// The skipped files, in the order in which they were recorded.
    pub skipped: Vec<SkipRecord>,
}

impl Combiner {
    /// The statistics say what the lists hold: each attempted file is
    /// counted once, as processed or as skipped; the total is the sum of the
    /// processed files' token counts; the maximum is the largest of them and
    /// the file named with it is the first processed file that has it.
    pub open spec fn wf(&self) -> bool {
        &&& self.stats.wf()
        &&& self.stats.files_processed == self.records@.len()
        &&& self.stats.files_skipped == self.skipped@.len()
        &&& self.stats.total_tokens == sum_tokens(self.records@)
        &&& forall|j: int|
            0 <= j < self.records@.len() ==> (#[trigger] self.records@[j]).tokens
                <= self.stats.max_tokens
        &&& self.stats.max_tokens > 0 ==> exists|i: int|
            {
                &&& #[trigger] is_first_largest(self.records@, i)
                &&& self.records@[i].tokens == self.stats.max_tokens
                &&& self.records@[i].path == self.stats.max_tokens_file
            }
    }

    /// The state at the start of a run: nothing attempted, the root counted.
    pub fn new(output_file: String) -> (state: Self)
        ensures
            state.wf(),
            state.records@.len() == 0,
            state.skipped@.len() == 0,
            state.stats.directories_visited == 1,
            state.stats.processing_time is None,
            state.stats.output_file == output_file,
    {
        Combiner { stats: Statistics::new(output_file), records: Vec::new(), skipped: Vec::new() }
    }

    /// Counts a visited directory.
    pub fn visit_directory(&mut self)
        requires
            old(self).wf(),
            old(self).stats.directories_visited < usize::MAX,
        ensures
            final(self).wf(),
            final(self).stats.directories_visited == old(self).stats.directories_visited + 1,
            final(self).records == old(self).records,
            final(self).skipped == old(self).skipped,
            final(self).stats.files_processed == old(self).stats.files_processed,
            final(self).stats.files_skipped == old(self).stats.files_skipped,
            final(self).stats.total_tokens == old(self).stats.total_tokens,
            final(self).stats.max_tokens == old(self).stats.max_tokens,
            final(self).stats.max_tokens_file == old(self).stats.max_tokens_file,
            final(self).stats.processing_time == old(self).stats.processing_time,
            final(self).stats.output_file == old(self).stats.output_file,
    {
        self.stats.increment_directories_visited();
    }

    /// Records a processed file: it is counted, its tokens join the total,
    /// and it becomes the file with the most tokens if it has strictly more
    /// than every file before it.
    pub fn record_processed(&mut self, record: FileRecord)
        requires
            old(self).wf(),
            old(self).stats.files_processed < usize::MAX,
            old(self).stats.total_tokens + record.tokens <= usize::MAX,
        ensures
            final(self).wf(),
            final(self).records@ == old(self).records@.push(record),
            final(self).skipped == old(self).skipped,
            final(self).stats.files_processed == old(self).stats.files_processed + 1,
            final(self).stats.files_skipped == old(self).stats.files_skipped,
            final(self).stats.total_tokens == old(self).stats.total_tokens + record.tokens,
            record.tokens > old(self).stats.max_tokens ==> final(self).stats.max_tokens
                == record.tokens && final(self).stats.max_tokens_file == record.path,
            record.tokens <= old(self).stats.max_tokens ==> final(self).stats.max_tokens == old(
                self,
            ).stats.max_tokens && final(self).stats.max_tokens_file == old(
                self,
            ).stats.max_tokens_file,
            final(self).stats.directories_visited == old(self).stats.directories_visited,
            final(self).stats.processing_time == old(self).stats.processing_time,
            final(self).stats.output_file == old(self).stats.output_file,
    {
        let ghost before = self.records@;
        let ghost old_max = self.stats.max_tokens;
        let ghost tokens = record.tokens;
        self.stats.increment_processed_files();
        self.stats.update_token_stats(record.tokens, record.path.clone());
        self.records.push(record);
        proof {
            let after = self.records@;
            assert(after.drop_last() == before);
            if tokens > old_max {
                assert(is_first_largest(after, after.len() - 1));
            } else if old_max > 0 {
                let i = choose|i: int|
                    {
                        &&& #[trigger] is_first_largest(before, i)
                        &&& before[i].tokens == old_max
                        &&& before[i].path == old(self).stats.max_tokens_file
                    };
                assert(is_first_largest(after, i));
            }
        }
    }

    /// Records a file that was admitted but could not be processed.
    pub fn record_skipped(&mut self, path: String, reason: String)
        requires
            old(self).wf(),
            old(self).stats.files_skipped < usize::MAX,
        ensures
            final(self).wf(),
            final(self).skipped@ == old(self).skipped@.push(SkipRecord { path, reason }),
            final(self).records == old(self).records,
            final(self).stats.files_skipped == old(self).stats.files_skipped + 1,
            final(self).stats.files_processed == old(self).stats.files_processed,
            final(self).stats.total_tokens == old(self).stats.total_tokens,
            final(self).stats.max_tokens == old(self).stats.max_tokens,
            final(self).stats.max_tokens_file == old(self).stats.max_tokens_file,
            final(self).stats.directories_visited == old(self).stats.directories_visited,
            final(self).stats.processing_time == old(self).stats.processing_time,
            final(self).stats.output_file == old(self).stats.output_file,
    {
        self.stats.increment_skipped_files();
        self.skipped.push(SkipRecord { path, reason });
    }

    /// Finalizes the run: sets the elapsed time and nothing else.
    pub fn finish(&mut self, elapsed: Duration)
        requires
            old(self).wf(),
        ensures
            final(self).wf(),
            final(self).stats.processing_time == Some(elapsed),
            final(self).records == old(self).records,
            final(self).skipped == old(self).skipped,
            final(self).stats.files_processed == old(self).stats.files_processed,
            final(self).stats.files_skipped == old(self).stats.files_skipped,
            final(self).stats.total_tokens == old(self).stats.total_tokens,
            final(self).stats.max_tokens == old(self).stats.max_tokens,
            final(self).stats.max_tokens_file == old(self).stats.max_tokens_file,
            final(self).stats.directories_visited == old(self).stats.directories_visited,
            final(self).stats.output_file == old(self).stats.output_file,
    {
        self.stats.set_processing_time(elapsed);
        proof {
            if self.stats.max_tokens > 0 {
                let i = choose|i: int|
                    {
                        &&& #[trigger] is_first_largest(old(self).records@, i)
                        &&& old(self).records@[i].tokens == old(self).stats.max_tokens
                        &&& old(self).records@[i].path == old(self).stats.max_tokens_file
                    };
                assert(is_first_largest(self.records@, i));
            }
        }
    }
}

} // verus!
