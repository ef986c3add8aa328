//! The statistics of one run.

use std::time::Duration;
use vstd::prelude::*;

verus! {

/// Counters and totals collected while files are combined.
///
/// `processing_time` is `None` until the run is finalized.
#[derive(Debug)]
pub struct Statistics {
    pub files_processed: usize,
    pub files_skipped: usize,
    pub directories_visited: usize,
    pub total_tokens: usize,
    pub max_tokens: usize,
    pub max_tokens_file: String,
    pub processing_time: Option<Duration>,
    pub output_file: String,
}

impl Statistics {
    /// The relations between the fields that every operation keeps:
    /// the root directory is counted, the largest single count is part of
    /// the total, and a file is named exactly when some count was positive.
    pub open spec fn wf(&self) -> bool {
        &&& self.directories_visited >= 1
        &&& self.max_tokens <= self.total_tokens
        &&& self.max_tokens == 0 ==> self.max_tokens_file@.len() == 0
    }

    /// Whether the elapsed time has been set.
    pub open spec fn finalized(&self) -> bool {
        self.processing_time is Some
    }

    /// Zeroed counters, the root directory counted, no elapsed time yet.
    pub fn new(output_file: String) -> (stats: Self)
        ensures
            stats.files_processed == 0,
            stats.files_skipped == 0,
            stats.directories_visited == 1,
            stats.total_tokens == 0,
            stats.max_tokens == 0,
            stats.max_tokens_file@ == Seq::<char>::empty(),
            stats.processing_time is None,
            stats.output_file == output_file,
            stats.wf(),
    {
        Statistics {
            files_processed: 0,
            files_skipped: 0,
            directories_visited: 1,
            total_tokens: 0,
            max_tokens: 0,
            max_tokens_file: String::new(),
            processing_time: None,
            output_file,
        }
    }

    /// Counts one more processed file.
    pub fn increment_processed_files(&mut self)
        requires
            old(self).files_processed < usize::MAX,
        ensures
            final(self).files_processed == old(self).files_processed + 1,
            final(self).files_skipped == old(self).files_skipped,
            final(self).directories_visited == old(self).directories_visited,
            final(self).total_tokens == old(self).total_tokens,
            final(self).max_tokens == old(self).max_tokens,
            final(self).max_tokens_file == old(self).max_tokens_file,
            final(self).processing_time == old(self).processing_time,
            final(self).output_file == old(self).output_file,
            old(self).wf() ==> final(self).wf(),
    {
        self.files_processed += 1;
    }

    /// Adds `tokens` to the total. A count strictly above the current
    /// maximum replaces the maximum and its file together; any other count
    /// leaves both as they were.
    pub fn update_token_stats(&mut self, tokens: usize, file_path: String)
        requires
            old(self).total_tokens + tokens <= usize::MAX,
        ensures
            final(self).total_tokens == old(self).total_tokens + tokens,
            tokens > old(self).max_tokens ==> final(self).max_tokens == tokens
                && final(self).max_tokens_file == file_path,
            tokens <= old(self).max_tokens ==> final(self).max_tokens == old(self).max_tokens
                && final(self).max_tokens_file == old(self).max_tokens_file,
            final(self).files_processed == old(self).files_processed,
            final(self).files_skipped == old(self).files_skipped,
            final(self).directories_visited == old(self).directories_visited,
            final(self).processing_time == old(self).processing_time,
            final(self).output_file == old(self).output_file,
            old(self).wf() ==> final(self).wf(),
    {
        self.total_tokens += tokens;
        if tokens > self.max_tokens {
            self.max_tokens = tokens;
            self.max_tokens_file = file_path;
        }
    }

    /// Counts one more skipped file.
    pub fn increment_skipped_files(&mut self)
        requires
            old(self).files_skipped < usize::MAX,
        ensures
            final(self).files_skipped == old(self).files_skipped + 1,
            final(self).files_processed == old(self).files_processed,
            final(self).directories_visited == old(self).directories_visited,
            final(self).total_tokens == old(self).total_tokens,
            final(self).max_tokens == old(self).max_tokens,
            final(self).max_tokens_file == old(self).max_tokens_file,
            final(self).processing_time == old(self).processing_time,
            final(self).output_file == old(self).output_file,
            old(self).wf() ==> final(self).wf(),
    {
        self.files_skipped += 1;
    }

    /// Counts one more visited directory.
    pub fn increment_directories_visited(&mut self)
        requires
            old(self).directories_visited < usize::MAX,
        ensures
            final(self).directories_visited == old(self).directories_visited + 1,
            final(self).files_processed == old(self).files_processed,
            final(self).files_skipped == old(self).files_skipped,
            final(self).total_tokens == old(self).total_tokens,
            final(self).max_tokens == old(self).max_tokens,
            final(self).max_tokens_file == old(self).max_tokens_file,
            final(self).processing_time == old(self).processing_time,
            final(self).output_file == old(self).output_file,
            old(self).wf() ==> final(self).wf(),
    {
        self.directories_visited += 1;
    }

    /// Finalizes the run: sets the elapsed time and nothing else.
    pub fn set_processing_time(&mut self, duration: Duration)
        ensures
            final(self).processing_time == Some(duration),
            final(self).files_processed == old(self).files_processed,
            final(self).files_skipped == old(self).files_skipped,
            final(self).directories_visited == old(self).directories_visited,
            final(self).total_tokens == old(self).total_tokens,
            final(self).max_tokens == old(self).max_tokens,
            final(self).max_tokens_file == old(self).max_tokens_file,
            final(self).output_file == old(self).output_file,
            old(self).wf() ==> final(self).wf(),
    {
        self.processing_time = Some(duration);
    }
}

} // verus!
