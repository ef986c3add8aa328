//! A whole run over the entries of a tree, one entry at a time.

use vstd::prelude::*;
use vstd::string::StringExecFns;
use crate::combine::{plan_entry, planned, process_file, Combiner, EntryAction};
use crate::config::CombinerConfig;
use crate::error::CombinerError;
use crate::filter::Entry;
use crate::records::{sum_tokens, FileContents, FileRecord, ProcessedFile};
use crate::paths::{resolve_output_path, resolved_output};
use crate::tokenizer::{get_bpe, TokenizationScheme, Tokenizer};

verus! {

/// An entry of the tree together with what reading it gave. The reading is
/// looked at only where the entry is a file that is to be processed.
#[derive(Debug)]
pub struct WalkItem {
    pub entry: Entry,
    pub read: Result<FileContents, String>,
}

/// What one entry leads to.
pub enum Outcome {
    /// A directory was counted.
    Counted,
    /// Nothing changed.
    Passed,
    /// The file was processed.
    Processed(ProcessedFile),
    /// The file was attempted and skipped, for this reason.
    Skipped { path: String, reason: Seq<char> },
}

/// What `item` leads to once `action` is planned for its entry: for a file
/// that is to be processed, what reading and encoding it gave.
pub open spec fn outcome_for(action: EntryAction, tokenizer: Tokenizer, item: WalkItem)
    -> Outcome {
    match action {
        EntryAction::CountDirectory => Outcome::Counted,
        EntryAction::Pass => Outcome::Passed,
        EntryAction::Process => match item.read {
            Err(cause) => Outcome::Skipped { path: item.entry.path, reason: cause@ },
            Ok(contents) => match tokenizer.encoding(contents.content@) {
                Ok(tokens) => Outcome::Processed(
                    ProcessedFile {
                        record: FileRecord {
                            path: item.entry.path,
                            tokens: tokens.len() as usize,
                            size: contents.size,
                        },
                        content: contents.content,
                    },
                ),
                Err(message) => Outcome::Skipped { path: item.entry.path, reason: message },
            },
        },
    }
}

/// What `item` leads to: what is planned for its entry is carried out.
pub open spec fn outcome(
    config: CombinerConfig,
    tokenizer: Tokenizer,
    output_path: Seq<char>,
    item: WalkItem,
) -> Outcome {
    outcome_for(planned(item.entry, config, output_path), tokenizer, item)
}

/// What was done for one entry, before the state hears of it.
#[derive(Debug)]
pub enum Attempt {
    /// The entry is a directory to be counted.
    Directory,
    /// The entry is passed over.
    Nothing,
    /// The entry is a file that was processed, with what came of it.
    File(Result<ProcessedFile, CombinerError>),
}

/// The outcome that `attempt` stands for. The failure of a file names the
/// file and gives the cause as the reason.
pub open spec fn attempt_outcome(attempt: Attempt) -> Outcome {
    match attempt {
        Attempt::Directory => Outcome::Counted,
        Attempt::Nothing => Outcome::Passed,
        Attempt::File(Ok(file)) => Outcome::Processed(file),
        Attempt::File(Err(e)) => Outcome::Skipped { path: e->path, reason: e->cause@ },
    }
}

/// Whether `attempt` holds no error but the failure of a single file.
pub open spec fn fails_per_file(attempt: Attempt) -> bool {
    attempt matches Attempt::File(Err(e)) ==> e is FileProcessing
}

/// Carries out what is planned for the entry of `item`: nothing for a
/// directory or an entry that is passed over, and the processing of the
/// file where that is planned. No state is touched.
pub fn attempt(action: EntryAction, item: WalkItem, tokenizer: &Tokenizer) -> (made: Attempt)
    ensures
        attempt_outcome(made) == outcome_for(action, *tokenizer, item),
        fails_per_file(made),
{
    match action {
        EntryAction::CountDirectory => Attempt::Directory,
        EntryAction::Pass => Attempt::Nothing,
        EntryAction::Process => {
            let WalkItem { entry, read } = item;
            Attempt::File(process_file(entry.path, read, tokenizer))
        },
    }
}

/// What each of `items` leads to.
pub open spec fn outcomes(
    config: CombinerConfig,
    tokenizer: Tokenizer,
    output_path: Seq<char>,
    items: Seq<WalkItem>,
) -> Seq<Outcome> {
    Seq::new(items.len(), |i: int| outcome(config, tokenizer, output_path, items[i]))
}

/// The processed files among `results`, in order.
pub open spec fn processed_files(results: Seq<Outcome>) -> Seq<ProcessedFile>
    decreases results.len(),
{
    if results.len() == 0 {
        Seq::empty()
    } else {
        match results.last() {
            Outcome::Processed(file) => processed_files(results.drop_last()).push(file),
            _ => processed_files(results.drop_last()),
        }
    }
}

/// The skipped files among `results`, in order: the path and the reason.
pub open spec fn skipped_files(results: Seq<Outcome>) -> Seq<(String, Seq<char>)>
    decreases results.len(),
{
    if results.len() == 0 {
        Seq::empty()
    } else {
        match results.last() {
            Outcome::Skipped { path, reason } => skipped_files(results.drop_last()).push(
                (path, reason),
            ),
            _ => skipped_files(results.drop_last()),
        }
    }
}

/// The number of counted directories among `results`.
pub open spec fn counted_directories(results: Seq<Outcome>) -> nat
    decreases results.len(),
{
    if results.len() == 0 {
        0
    } else if results.last() is Counted {
        counted_directories(results.drop_last()) + 1
    } else {
        counted_directories(results.drop_last())
    }
}

/// The records of `files`, in order.
pub open spec fn records_of(files: Seq<ProcessedFile>) -> Seq<FileRecord> {
    Seq::new(files.len(), |i: int| files[i].record)
}

/// How one entry changes the state, and what is handed back: the
/// processed file, if there is one. A file whose tokens would carry the
/// total out of the counter's range changes nothing and ends the run.
pub open spec fn advanced(
    before: Combiner,
    after: Combiner,
    result: Outcome,
    handed: Result<Option<ProcessedFile>, CombinerError>,
) -> bool {
    &&& after.stats.processing_time == before.stats.processing_time
    &&& after.stats.output_file == before.stats.output_file
    &&& match result {
        Outcome::Counted => {
            &&& handed == Ok::<Option<ProcessedFile>, CombinerError>(None)
            &&& after.stats.directories_visited == before.stats.directories_visited + 1
            &&& after.records == before.records
            &&& after.skipped == before.skipped
        },
        Outcome::Passed => {
            &&& handed == Ok::<Option<ProcessedFile>, CombinerError>(None)
            &&& after == before
        },
        Outcome::Skipped { path, reason } => {
            &&& handed == Ok::<Option<ProcessedFile>, CombinerError>(None)
            &&& after.stats.directories_visited == before.stats.directories_visited
            &&& after.records == before.records
            &&& after.skipped@.len() == before.skipped@.len() + 1
            &&& after.skipped@.drop_last() == before.skipped@
            &&& after.skipped@.last().path == path
            &&& after.skipped@.last().reason@ == reason
        },
        Outcome::Processed(file) => if before.stats.total_tokens + file.record.tokens
            <= usize::MAX {
            &&& handed == Ok::<Option<ProcessedFile>, CombinerError>(Some(file))
            &&& after.stats.directories_visited == before.stats.directories_visited
            &&& after.records@ == before.records@.push(file.record)
            &&& after.skipped == before.skipped
        } else {
            &&& handed is Err
            &&& handed->Err_0 is Unknown
            &&& after == before
        },
    }
}

/// A copy of `record`.
fn copy_record(record: &FileRecord) -> (copy: FileRecord)
    ensures
        copy == *record,
{
    FileRecord { path: record.path.clone(), tokens: record.tokens, size: record.size }
}

impl Combiner {
    /// Records what was done for one entry, and hands back the processed
    /// file, if there is one.
    pub fn settle(&mut self, made: Attempt) -> (handed: Result<
        Option<ProcessedFile>,
        CombinerError,
    >)
        requires
            old(self).wf(),
            old(self).stats.directories_visited < usize::MAX,
            old(self).stats.files_processed < usize::MAX,
            old(self).stats.files_skipped < usize::MAX,
            fails_per_file(made),
        ensures
            final(self).wf(),
            advanced(*old(self), *final(self), attempt_outcome(made), handed),
    {
        match made {
            Attempt::Directory => {
                self.visit_directory();
                Ok(None)
            },
            Attempt::Nothing => Ok(None),
            Attempt::File(Ok(file)) => {
                if file.record.tokens > usize::MAX - self.stats.total_tokens {
                    Err(
                        CombinerError::Unknown(
                            String::from_str("the token total exceeds the range of its counter"),
                        ),
                    )
                } else {
                    self.record_processed(copy_record(&file.record));
                    Ok(Some(file))
                }
            },
            Attempt::File(Err(e)) => match e {
                CombinerError::FileProcessing { path, cause } => {
                    self.record_skipped(path, cause);
                    assert(self.skipped@.drop_last() == old(self).skipped@);
                    Ok(None)
                },
                // Left out by what is required of `made`.
                other => Err(other),
            },
        }
    }

    /// Takes one entry through the run: plans it, carries the plan out, and
    /// records what came of it.
    pub fn step(
        &mut self,
        config: &CombinerConfig,
        tokenizer: &Tokenizer,
        output_path: &str,
        item: WalkItem,
    ) -> (handed: Result<Option<ProcessedFile>, CombinerError>)
        requires
            old(self).wf(),
            old(self).stats.directories_visited < usize::MAX,
            old(self).stats.files_processed < usize::MAX,
            old(self).stats.files_skipped < usize::MAX,
        ensures
            final(self).wf(),
            advanced(
                *old(self),
                *final(self),
                outcome(*config, *tokenizer, output_path@, item),
                handed,
            ),
    {
        let action = plan_entry(&item.entry, config, output_path);
        let made = attempt(action, item, tokenizer);
        self.settle(made)
    }
}

/// What a whole run hands back: the final state and the processed files
/// with their contents, in the order in which they were processed.
#[derive(Debug)]
pub struct CombineOutput {
    pub state: Combiner,
    pub files: Vec<ProcessedFile>,
}

/// The token total of the processed files among `results`.
pub open spec fn tokens_through(results: Seq<Outcome>) -> nat {
    sum_tokens(records_of(processed_files(results)))
}

/// Whether `state` and `files` are what `results` lead to from a fresh
/// state: the processed files and the skipped files are those of `results`,
/// in order, and the directories are the root and the counted ones.
pub open spec fn mirrors(state: Combiner, files: Seq<ProcessedFile>, results: Seq<Outcome>)
    -> bool {
    &&& state.wf()
    &&& files == processed_files(results)
    &&& state.records@ == records_of(files)
    &&& state.skipped@.len() == skipped_files(results).len()
    &&& forall|i: int|
        0 <= i < state.skipped@.len() ==> {
            &&& (#[trigger] state.skipped@[i]).path == skipped_files(results)[i].0
            &&& state.skipped@[i].reason@ == skipped_files(results)[i].1
        }
    &&& state.stats.directories_visited == 1 + counted_directories(results)
}

/// One more outcome adds the tokens of its file, if it has one.
proof fn lemma_tokens_step(results: Seq<Outcome>)
    requires
        results.len() > 0,
    ensures
        tokens_through(results) == tokens_through(results.drop_last()) + (match results.last() {
            Outcome::Processed(file) => file.record.tokens as nat,
            _ => 0,
        }),
{
    let earlier = processed_files(results.drop_last());
    match results.last() {
        Outcome::Processed(file) => {
            assert(records_of(earlier.push(file)).drop_last() == records_of(earlier));
        },
        _ => {},
    }
}

/// The token total of a prefix is at most the token total of the whole.
proof fn lemma_tokens_grow(results: Seq<Outcome>, k: int)
    requires
        0 <= k <= results.len(),
    ensures
        tokens_through(results.take(k)) <= tokens_through(results),
    decreases results.len() - k,
{
    if k < results.len() {
        assert(results.take(k + 1).drop_last() == results.take(k));
        lemma_tokens_step(results.take(k + 1));
        lemma_tokens_grow(results, k + 1);
    } else {
        assert(results.take(k) == results);
    }
}

/// Runs over `items` in order, from a fresh state.
///
/// The run succeeds unless the token total leaves the range of its counter;
/// the state then mirrors what the items lead to, and the elapsed time is
/// still to be set.
pub fn combine_entries(
    config: &CombinerConfig,
    tokenizer: &Tokenizer,
    output_path: &str,
    items: Vec<WalkItem>,
) -> (r: Result<CombineOutput, CombinerError>)
    requires
        items.len() < usize::MAX,
    ensures
        ({
            let results = outcomes(*config, *tokenizer, output_path@, items@);
            if tokens_through(results) <= usize::MAX {
                &&& r is Ok
                &&& mirrors(r->Ok_0.state, r->Ok_0.files@, results)
                &&& r->Ok_0.state.stats.processing_time is None
                &&& r->Ok_0.state.stats.output_file@ == output_path@
            } else {
                r is Err && r->Err_0 is Unknown
            }
        }),
{
    let ghost results = outcomes(*config, *tokenizer, output_path@, items@);
    let mut state = Combiner::new(String::from_str(output_path));
    let mut files: Vec<ProcessedFile> = Vec::new();
    proof {
        assert(results.take(0) == Seq::<Outcome>::empty());
        assert(files@ == processed_files(results.take(0)));
        assert(state.records@ == records_of(files@));
        assert(skipped_files(results.take(0)).len() == 0);
        assert(counted_directories(results.take(0)) == 0);
    }
    for item in it: items
        invariant
            it.seq() == items@,
            items@.len() < usize::MAX,
            results == outcomes(*config, *tokenizer, output_path@, items@),
            mirrors(state, files@, results.take(it.index() as int)),
            state.stats.processing_time is None,
            state.stats.output_file@ == output_path@,
            state.records@.len() + state.skipped@.len() + counted_directories(
                results.take(it.index() as int),
            ) <= it.index(),
    {
        let ghost i = it.index() as int;
        let ghost before = state;
        let ghost earlier = results.take(i);
        let ghost now = results.take(i + 1);
        proof {
            assert(now.drop_last() == earlier);
            assert(now.last() == outcome(*config, *tokenizer, output_path@, item));
            lemma_tokens_step(now);
        }
        match state.step(config, tokenizer, output_path, item) {
            Ok(handed) => {
                match handed {
                    Some(file) => {
                        files.push(file);
                    },
                    None => {},
                }
                proof {
                    assert(records_of(files@) == state.records@);
                    assert forall|k: int| 0 <= k < state.skipped@.len() implies {
                        &&& (#[trigger] state.skipped@[k]).path == skipped_files(now)[k].0
                        &&& state.skipped@[k].reason@ == skipped_files(now)[k].1
                    } by {
                        if k < before.skipped@.len() {
                            assert(state.skipped@[k] == before.skipped@[k]);
                        }
                    }
                }
            },
            Err(e) => {
                proof {
                    lemma_tokens_grow(results, i + 1);
                }
                return Err(e);
            },
        }
    }
    proof {
        assert(results.take(items@.len() as int) == results);
    }
    Ok(CombineOutput { state, files })
}

/// Whether `tokenizer` is one for the scheme that `config` names, and
/// `results` are what `items` lead to with it.
pub open spec fn run_with(
    config: CombinerConfig,
    tokenizer: Tokenizer,
    items: Seq<WalkItem>,
    results: Seq<Outcome>,
) -> bool {
    &&& tokenizer.scheme_of() == TokenizationScheme::named(config.tokenizer@)
    &&& results == outcomes(
        config,
        tokenizer,
        resolved_output(config.directory@, config.output@),
        items,
    )
}

/// Combines the files among `items` under `config`.
///
/// The path of the artifact is resolved against the scanned directory, the
/// encoder of the named scheme is built, and the items are run over in
/// order. The run fails where the encoder cannot be built (`Tokenization`)
/// and where the token total leaves the range of its counter (`Unknown`),
/// and nowhere else.
pub fn combine_files(config: &CombinerConfig, items: Vec<WalkItem>) -> (r: Result<
    CombineOutput,
    CombinerError,
>)
    requires
        items.len() < usize::MAX,
    ensures
        match r {
            Ok(out) => exists|tokenizer: Tokenizer, results: Seq<Outcome>|
                {
                    &&& #[trigger] run_with(*config, tokenizer, items@, results)
                    &&& tokens_through(results) <= usize::MAX
                    &&& mirrors(out.state, out.files@, results)
                    &&& out.state.stats.processing_time is None
                    &&& out.state.stats.output_file@ == resolved_output(
                        config.directory@,
                        config.output@,
                    )
                },
            Err(e) => e is Tokenization || (e is Unknown && exists|
                tokenizer: Tokenizer,
                results: Seq<Outcome>,
            |
                {
                    &&& #[trigger] run_with(*config, tokenizer, items@, results)
                    &&& tokens_through(results) > usize::MAX
                }),
        },
{
    let output_path = resolve_output_path(config.directory.as_str(), config.output.as_str());
    match get_bpe(config.tokenizer.as_str()) {
        Err(e) => Err(e),
        Ok(tokenizer) => {
            let r = combine_entries(config, &tokenizer, output_path.as_str(), items);
            proof {
                let results = outcomes(
                    *config,
                    tokenizer,
                    resolved_output(config.directory@, config.output@),
                    items@,
                );
                assert(run_with(*config, tokenizer, items@, results));
            }
            r
        },
    }
}

} // verus!
