//! What holds of every run, and what two runs over the same entries share.

use vstd::multiset::Multiset;
use vstd::prelude::*;
use crate::combine::{planned, Combiner, EntryAction};
use crate::config::CombinerConfig;
use crate::filter::{text_like, Entry, EntryKind};
use crate::paths::{components, file_name, lemma_resolved_output_is_output, resolved_output};
use crate::pattern::any_pattern_matches;
use crate::text::has_prefix;
use crate::order::{
    gather,
    lemma_gather_any_order,
    lemma_image_any_order,
    lemma_tally_any_order,
    tally,
};
use crate::output::framed;
use crate::records::{is_first_largest, sum_tokens, FileRecord, ProcessedFile};
use crate::run::{
    counted_directories,
    mirrors,
    outcome,
    outcomes,
    processed_files,
    records_of,
    skipped_files,
    tokens_through,
    Outcome,
    WalkItem,
};
use crate::tokenizer::Tokenizer;

verus! {

/// The number of `items` that the run attempts to process: the admitted
/// files other than the artifact itself.
pub open spec fn attempts(config: CombinerConfig, output_path: Seq<char>, items: Seq<WalkItem>)
    -> nat
    decreases items.len(),
{
    if items.len() == 0 {
        0
    } else if planned(items.last().entry, config, output_path) == EntryAction::Process {
        attempts(config, output_path, items.drop_last()) + 1
    } else {
        attempts(config, output_path, items.drop_last())
    }
}

/// The blocks of `files`, one for each file, in order.
pub open spec fn blocks(files: Seq<ProcessedFile>) -> Seq<Seq<char>> {
    Seq::new(files.len(), |i: int| framed(files[i].record.path@, files[i].content@))
}

/// The artifact is never its own input: a file whose path has the
/// components of the artifact's path is passed over, however either is
/// spelled, wherever the file lies and whatever the patterns.
pub proof fn lemma_output_is_never_input(
    entry: Entry,
    config: CombinerConfig,
    output_path: Seq<char>,
)
    requires
        entry.kind != EntryKind::Directory,
        components(entry.path@) == components(output_path),
    ensures
        planned(entry, config, output_path) == EntryAction::Pass,
{
}

/// The same of the artifact as the settings spell it: a file whose path has
/// the components of the configured output is passed over once that output
/// is resolved against the scanned directory.
pub proof fn lemma_configured_output_is_never_input(entry: Entry, config: CombinerConfig)
    requires
        entry.kind != EntryKind::Directory,
        components(entry.path@) == components(config.output@),
    ensures
        planned(entry, config, resolved_output(config.directory@, config.output@))
            == EntryAction::Pass,
{
    lemma_resolved_output_is_output(config.directory@, config.output@);
}

/// In a whole run the artifact is neither processed nor skipped: no entry
/// that leads to a processed or to a skipped file has the components of the
/// artifact's path.
pub proof fn lemma_output_is_never_attempted(
    config: CombinerConfig,
    tokenizer: Tokenizer,
    output_path: Seq<char>,
    item: WalkItem,
)
    requires
        outcome(config, tokenizer, output_path, item) is Processed || outcome(
            config,
            tokenizer,
            output_path,
            item,
        ) is Skipped,
    ensures
        components(item.entry.path@) != components(output_path),
{
}

/// Whether `file` is what one of `results` processed.
pub open spec fn came_processed(results: Seq<Outcome>, file: ProcessedFile) -> bool {
    exists|j: int| 0 <= j < results.len() && #[trigger] results[j] == Outcome::Processed(file)
}

/// Whether `path` is the path of a file that one of `results` skipped.
pub open spec fn came_skipped(results: Seq<Outcome>, path: String) -> bool {
    exists|j: int|
        0 <= j < results.len() && (#[trigger] results[j]) is Skipped && results[j]->path == path
}

/// Every processed file and every skipped file of a run comes from one of
/// its outcomes.
proof fn lemma_lists_come_from_outcomes(results: Seq<Outcome>)
    ensures
        forall|k: int|
            0 <= k < processed_files(results).len() ==> came_processed(
                results,
                #[trigger] processed_files(results)[k],
            ),
        forall|k: int|
            0 <= k < skipped_files(results).len() ==> came_skipped(
                results,
                (#[trigger] skipped_files(results)[k]).0,
            ),
    decreases results.len(),
{
    if results.len() > 0 {
        let shorter = results.drop_last();
        let last = results.len() - 1;
        lemma_lists_come_from_outcomes(shorter);
        assert forall|k: int| 0 <= k < processed_files(results).len() implies came_processed(
            results,
            #[trigger] processed_files(results)[k],
        ) by {
            let file = processed_files(results)[k];
            if k < processed_files(shorter).len() {
                assert(file == processed_files(shorter)[k]);
                let j = choose|j: int|
                    0 <= j < shorter.len() && #[trigger] shorter[j] == Outcome::Processed(file);
                assert(results[j] == shorter[j]);
            } else {
                assert(results[last] == Outcome::Processed(file));
            }
        }
        assert forall|k: int| 0 <= k < skipped_files(results).len() implies came_skipped(
            results,
            (#[trigger] skipped_files(results)[k]).0,
        ) by {
            let path = skipped_files(results)[k].0;
            if k < skipped_files(shorter).len() {
                assert(path == skipped_files(shorter)[k].0);
                let j = choose|j: int|
                    0 <= j < shorter.len() && (#[trigger] shorter[j]) is Skipped
                        && shorter[j]->path == path;
                assert(results[j] == shorter[j]);
            } else {
                assert(results[last] is Skipped && results[last]->path == path);
            }
        }
    }
}

/// The artifact appears nowhere in a run: no processed file, no skipped
/// file and no block has the components of the artifact's path, and the
/// file with the most tokens is not the artifact.
pub proof fn lemma_output_appears_nowhere(
    config: CombinerConfig,
    tokenizer: Tokenizer,
    output_path: Seq<char>,
    items: Seq<WalkItem>,
    state: Combiner,
    files: Seq<ProcessedFile>,
)
    requires
        mirrors(state, files, outcomes(config, tokenizer, output_path, items)),
    ensures
        forall|k: int|
            0 <= k < files.len() ==> components((#[trigger] files[k]).record.path@) != components(
                output_path,
            ),
        forall|k: int|
            0 <= k < state.records@.len() ==> components((#[trigger] state.records@[k]).path@)
                != components(output_path),
        forall|k: int|
            0 <= k < state.skipped@.len() ==> components((#[trigger] state.skipped@[k]).path@)
                != components(output_path),
        state.stats.max_tokens > 0 ==> components(state.stats.max_tokens_file@) != components(
            output_path,
        ),
{
    let results = outcomes(config, tokenizer, output_path, items);
    lemma_lists_come_from_outcomes(results);
    assert forall|k: int| 0 <= k < files.len() implies components(
        (#[trigger] files[k]).record.path@,
    ) != components(output_path) by {
        assert(came_processed(results, processed_files(results)[k]));
        let j = choose|j: int|
            0 <= j < results.len() && #[trigger] results[j] == Outcome::Processed(files[k]);
        lemma_output_is_never_attempted(config, tokenizer, output_path, items[j]);
    }
    assert forall|k: int| 0 <= k < state.records@.len() implies components(
        (#[trigger] state.records@[k]).path@,
    ) != components(output_path) by {
        assert(state.records@[k] == files[k].record);
    }
    assert forall|k: int| 0 <= k < state.skipped@.len() implies components(
        (#[trigger] state.skipped@[k]).path@,
    ) != components(output_path) by {
        let path = skipped_files(results)[k].0;
        assert(came_skipped(results, path));
        let j = choose|j: int|
            0 <= j < results.len() && (#[trigger] results[j]) is Skipped && results[j]->path
                == path;
        lemma_output_is_never_attempted(config, tokenizer, output_path, items[j]);
        assert(state.skipped@[k].path == path);
    }
    if state.stats.max_tokens > 0 {
        lemma_maximum_belongs_to_a_processed_file(state);
        let i = choose|i: int|
            {
                &&& 0 <= i < state.records@.len()
                &&& (#[trigger] state.records@[i]).tokens == state.stats.max_tokens
                &&& state.records@[i].path == state.stats.max_tokens_file
            };
        assert(components(state.records@[i].path@) != components(output_path));
    }
}

/// A file with an allowed extension is processed whenever there are no
/// patterns, its name is not reserved for artifacts and it is not the
/// artifact itself.
pub proof fn lemma_plain_text_file_is_processed(
    entry: Entry,
    config: CombinerConfig,
    output_path: Seq<char>,
)
    requires
        entry.kind == EntryKind::File,
        text_like(entry.path@),
        config.ignore_patterns@.len() == 0,
        config.include_patterns@.len() == 0,
        !has_prefix(file_name(entry.path@), config.output_prefix@),
        components(entry.path@) != components(output_path),
    ensures
        planned(entry, config, output_path) == EntryAction::Process,
{
}

/// A file whose extension is not an allowed one is never processed,
/// whatever the patterns.
pub proof fn lemma_other_extensions_are_never_processed(
    entry: Entry,
    config: CombinerConfig,
    output_path: Seq<char>,
)
    requires
        entry.kind == EntryKind::File,
        !text_like(entry.path@),
    ensures
        planned(entry, config, output_path) == EntryAction::Pass,
{
}

/// A file that an ignore pattern matches is never processed, whatever the
/// include patterns say.
pub proof fn lemma_ignored_files_are_never_processed(
    entry: Entry,
    config: CombinerConfig,
    output_path: Seq<char>,
)
    requires
        entry.kind == EntryKind::File,
        any_pattern_matches(config.match_mode, config.ignore_patterns@, entry.path@),
    ensures
        planned(entry, config, output_path) == EntryAction::Pass,
{
}

/// Every attempted file is counted exactly once, as processed or as
/// skipped, and nothing else is: the two counters add up to the number of
/// attempts.
pub proof fn lemma_every_attempt_is_counted(
    config: CombinerConfig,
    tokenizer: Tokenizer,
    output_path: Seq<char>,
    items: Seq<WalkItem>,
    state: Combiner,
    files: Seq<ProcessedFile>,
)
    requires
        mirrors(state, files, outcomes(config, tokenizer, output_path, items)),
    ensures
        state.stats.files_processed + state.stats.files_skipped == attempts(
            config,
            output_path,
            items,
        ),
{
    lemma_attempts_split(config, tokenizer, output_path, items);
}

proof fn lemma_attempts_split(
    config: CombinerConfig,
    tokenizer: Tokenizer,
    output_path: Seq<char>,
    items: Seq<WalkItem>,
)
    ensures
        processed_files(outcomes(config, tokenizer, output_path, items)).len() + skipped_files(
            outcomes(config, tokenizer, output_path, items),
        ).len() == attempts(config, output_path, items),
    decreases items.len(),
{
    if items.len() > 0 {
        lemma_attempts_split(config, tokenizer, output_path, items.drop_last());
        assert(outcomes(config, tokenizer, output_path, items).drop_last() == outcomes(
            config,
            tokenizer,
            output_path,
            items.drop_last(),
        ));
    }
}

/// The token total is the sum over exactly the processed files.
pub proof fn lemma_total_is_sum_of_processed(
    state: Combiner,
    files: Seq<ProcessedFile>,
    results: Seq<Outcome>,
)
    requires
        mirrors(state, files, results),
    ensures
        state.stats.total_tokens == sum_tokens(records_of(processed_files(results))),
{
}

/// The recorded maximum is the largest token count of a processed file,
/// and the file recorded with it is a processed file that has that count.
/// Where no processed file has a token, the maximum is zero and no file is
/// named.
pub proof fn lemma_maximum_belongs_to_a_processed_file(state: Combiner)
    requires
        state.wf(),
    ensures
        forall|j: int|
            0 <= j < state.records@.len() ==> (#[trigger] state.records@[j]).tokens
                <= state.stats.max_tokens,
        state.stats.max_tokens > 0 ==> exists|i: int|
            {
                &&& 0 <= i < state.records@.len()
                &&& (#[trigger] state.records@[i]).tokens == state.stats.max_tokens
                &&& state.records@[i].path == state.stats.max_tokens_file
            },
        state.stats.max_tokens == 0 ==> state.stats.max_tokens_file@.len() == 0,
{
    if state.stats.max_tokens > 0 {
        let i = choose|i: int|
            {
                &&& #[trigger] is_first_largest(state.records@, i)
                &&& state.records@[i].tokens == state.stats.max_tokens
                &&& state.records@[i].path == state.stats.max_tokens_file
            };
        assert(state.records@[i].tokens == state.stats.max_tokens);
    }
}

/// 1 for a processed file, 0 for anything else.
pub open spec fn counts_processed() -> spec_fn(Outcome) -> nat {
    |o: Outcome|
        if o is Processed {
            1nat
        } else {
            0nat
        }
}

/// 1 for a skipped file, 0 for anything else.
pub open spec fn counts_skipped() -> spec_fn(Outcome) -> nat {
    |o: Outcome|
        if o is Skipped {
            1nat
        } else {
            0nat
        }
}

/// 1 for a counted directory, 0 for anything else.
pub open spec fn counts_directory() -> spec_fn(Outcome) -> nat {
    |o: Outcome|
        if o is Counted {
            1nat
        } else {
            0nat
        }
}

/// The tokens of a processed file, 0 for anything else.
pub open spec fn counts_tokens() -> spec_fn(Outcome) -> nat {
    |o: Outcome|
        match o {
            Outcome::Processed(file) => file.record.tokens as nat,
            _ => 0nat,
        }
}

/// The block of a processed file, nothing for anything else.
pub open spec fn block_of() -> spec_fn(Outcome) -> Multiset<Seq<char>> {
    |o: Outcome|
        match o {
            Outcome::Processed(file) => Multiset::singleton(
                framed(file.record.path@, file.content@),
            ),
            _ => Multiset::empty(),
        }
}

/// The record of a processed file, nothing for anything else.
pub open spec fn record_of() -> spec_fn(Outcome) -> Multiset<FileRecord> {
    |o: Outcome|
        match o {
            Outcome::Processed(file) => Multiset::singleton(file.record),
            _ => Multiset::empty(),
        }
}

/// The lists and sums of a run, as sums and collections over its outcomes.
proof fn lemma_run_as_sums(results: Seq<Outcome>)
    ensures
        processed_files(results).len() == tally(results, counts_processed()),
        skipped_files(results).len() == tally(results, counts_skipped()),
        counted_directories(results) == tally(results, counts_directory()),
        tokens_through(results) == tally(results, counts_tokens()),
        blocks(processed_files(results)).to_multiset() == gather(results, block_of()),
        records_of(processed_files(results)).to_multiset() == gather(results, record_of()),
    decreases results.len(),
{
    broadcast use vstd::seq_lib::group_to_multiset_ensures;

    let files = processed_files(results);
    if results.len() == 0 {
        assert(blocks(files).to_multiset() =~= Multiset::<Seq<char>>::empty());
        assert(records_of(files).to_multiset() =~= Multiset::<FileRecord>::empty());
    } else {
        let shorter = results.drop_last();
        let earlier = processed_files(shorter);
        lemma_run_as_sums(shorter);
        match results.last() {
            Outcome::Processed(file) => {
                assert(records_of(files) == records_of(earlier).push(file.record));
                assert(records_of(files).drop_last() == records_of(earlier));
                assert(blocks(files) == blocks(earlier).push(
                    framed(file.record.path@, file.content@),
                ));
                assert(blocks(files).to_multiset() =~= gather(results, block_of()));
                assert(records_of(files).to_multiset() =~= gather(results, record_of()));
            },
            _ => {
                assert(blocks(files).to_multiset() =~= gather(results, block_of()));
                assert(records_of(files).to_multiset() =~= gather(results, record_of()));
            },
        }
    }
}

/// A second run over the same entries, in whatever order and with the same
/// settings and encoder, writes the same blocks, though maybe in another
/// order, and counts the same: processed and skipped files, directories,
/// the token total and the maximum.
pub proof fn lemma_rerun_is_stable(
    config: CombinerConfig,
    tokenizer: Tokenizer,
    output_path: Seq<char>,
    first: Seq<WalkItem>,
    second: Seq<WalkItem>,
    a: Combiner,
    a_files: Seq<ProcessedFile>,
    b: Combiner,
    b_files: Seq<ProcessedFile>,
)
    requires
        first.to_multiset() == second.to_multiset(),
        mirrors(a, a_files, outcomes(config, tokenizer, output_path, first)),
        mirrors(b, b_files, outcomes(config, tokenizer, output_path, second)),
    ensures
        blocks(a_files).to_multiset() == blocks(b_files).to_multiset(),
        a.stats.files_processed == b.stats.files_processed,
        a.stats.files_skipped == b.stats.files_skipped,
        a.stats.directories_visited == b.stats.directories_visited,
        a.stats.total_tokens == b.stats.total_tokens,
        a.stats.max_tokens == b.stats.max_tokens,
{
    let one = outcomes(config, tokenizer, output_path, first);
    let two = outcomes(config, tokenizer, output_path, second);
    let f = |item: WalkItem| outcome(config, tokenizer, output_path, item);
    lemma_image_any_order(first, second, f);
    assert(one == Seq::new(first.len(), |i: int| f(first[i])));
    assert(two == Seq::new(second.len(), |i: int| f(second[i])));
    lemma_run_as_sums(one);
    lemma_run_as_sums(two);
    lemma_tally_any_order(one, two, counts_processed());
    lemma_tally_any_order(one, two, counts_skipped());
    lemma_tally_any_order(one, two, counts_directory());
    lemma_tally_any_order(one, two, counts_tokens());
    lemma_gather_any_order(one, two, block_of());
    lemma_gather_any_order(one, two, record_of());
    lemma_maximum_of_same_records(a, b);
}

/// Two states whose processed files are the same, in whatever order, have
/// the same maximum.
proof fn lemma_maximum_of_same_records(a: Combiner, b: Combiner)
    requires
        a.wf(),
        b.wf(),
        a.records@.to_multiset() == b.records@.to_multiset(),
    ensures
        a.stats.max_tokens == b.stats.max_tokens,
{
    lemma_maximum_is_reached(a, b);
    lemma_maximum_is_reached(b, a);
}

proof fn lemma_maximum_is_reached(a: Combiner, b: Combiner)
    requires
        a.wf(),
        b.wf(),
        a.records@.to_multiset() == b.records@.to_multiset(),
    ensures
        a.stats.max_tokens <= b.stats.max_tokens,
{
    a.records@.to_multiset_ensures();
    b.records@.to_multiset_ensures();
    if a.stats.max_tokens > 0 {
        let i = choose|i: int|
            {
                &&& #[trigger] is_first_largest(a.records@, i)
                &&& a.records@[i].tokens == a.stats.max_tokens
                &&& a.records@[i].path == a.stats.max_tokens_file
            };
        let record = a.records@[i];
        assert(a.records@.contains(record));
        assert(a.records@.to_multiset().count(record) > 0);
        assert(b.records@.to_multiset().count(record) > 0);
        assert(b.records@.contains(record));
        let j = choose|j: int| 0 <= j < b.records@.len() && b.records@[j] == record;
        assert(b.records@[j].tokens <= b.stats.max_tokens);
    }
}

} // verus!
