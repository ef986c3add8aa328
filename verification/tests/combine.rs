use combiner::combine::{plan_entry, process_file, process_text, Combiner, EntryAction};
use combiner::filter::{Entry, EntryKind};
use combiner::paths::resolve_output_path;
use combiner::records::{FileContents, FileRecord};
use combiner::{get_bpe, CombinerConfig, CombinerError};
use std::time::Duration;

fn config() -> CombinerConfig {
    CombinerConfig::new("proj".to_string(), "proj/all.txt".to_string(), "cl100k_base".to_string())
}

fn entry(path: &str, kind: EntryKind) -> Entry {
    Entry { path: path.to_string(), kind }
}

fn record(path: &str, tokens: usize) -> FileRecord {
    FileRecord { path: path.to_string(), tokens, size: 1 }
}

#[test]
fn directories_are_counted_except_the_root() {
    let config = config();
    assert_eq!(
        plan_entry(&entry("proj/sub", EntryKind::Directory), &config, "./proj/all.txt"),
        EntryAction::CountDirectory
    );
    assert_eq!(
        plan_entry(&entry("proj", EntryKind::Directory), &config, "./proj/all.txt"),
        EntryAction::Pass
    );
}

#[test]
fn admitted_files_are_processed() {
    let config = config();
    assert_eq!(
        plan_entry(&entry("proj/a.txt", EntryKind::File), &config, "./proj/all.txt"),
        EntryAction::Process
    );
    assert_eq!(
        plan_entry(&entry("proj/a.bin", EntryKind::File), &config, "./proj/all.txt"),
        EntryAction::Pass
    );
    assert_eq!(
        plan_entry(&entry("proj/a.txt", EntryKind::Other), &config, "./proj/all.txt"),
        EntryAction::Pass
    );
}

#[test]
fn artifact_is_never_its_own_input() {
    let config = config();
    assert_eq!(
        plan_entry(&entry("./proj/all.txt", EntryKind::File), &config, "./proj/all.txt"),
        EntryAction::Pass
    );
    assert_eq!(
        plan_entry(&entry("./proj/other.txt", EntryKind::File), &config, "./proj/all.txt"),
        EntryAction::Process
    );
}

#[test]
fn artifact_is_recognised_under_another_spelling() {
    let current =
        CombinerConfig::new(".".to_string(), "./out.txt".to_string(), "cl100k_base".to_string());
    let resolved = resolve_output_path(&current.directory, &current.output);
    assert_eq!(resolved, "././out.txt");
    assert_eq!(
        plan_entry(&entry("./out.txt", EntryKind::File), &current, &resolved),
        EntryAction::Pass
    );
    assert_eq!(
        plan_entry(&entry("./other.txt", EntryKind::File), &current, &resolved),
        EntryAction::Process
    );

    let below =
        CombinerConfig::new("src".to_string(), "src/o.txt".to_string(), "cl100k_base".to_string());
    let resolved = resolve_output_path(&below.directory, &below.output);
    assert_eq!(resolved, "./src/o.txt");
    assert_eq!(
        plan_entry(&entry("src/o.txt", EntryKind::File), &below, &resolved),
        EntryAction::Pass
    );
    assert_eq!(
        plan_entry(&entry("src//o.txt", EntryKind::File), &below, &resolved),
        EntryAction::Pass
    );
    assert_eq!(
        plan_entry(&entry("src/a.txt", EntryKind::File), &below, &resolved),
        EntryAction::Process
    );
    assert_eq!(
        plan_entry(&entry("lib/o.txt", EntryKind::File), &below, &resolved),
        EntryAction::Process
    );
}

#[test]
fn a_path_from_the_root_is_not_one_from_the_current_directory() {
    let config = config();
    assert_eq!(
        plan_entry(&entry("/proj/all.txt", EntryKind::File), &config, "proj/all.txt"),
        EntryAction::Process
    );
    assert_eq!(
        plan_entry(&entry("/proj/all.txt", EntryKind::File), &config, "//proj/./all.txt"),
        EntryAction::Pass
    );
}

#[test]
fn root_is_recognised_under_another_spelling() {
    let config = config();
    assert_eq!(
        plan_entry(&entry("./proj/", EntryKind::Directory), &config, "./proj/all.txt"),
        EntryAction::Pass
    );
    assert_eq!(
        plan_entry(&entry("proj/.", EntryKind::Directory), &config, "./proj/all.txt"),
        EntryAction::Pass
    );
    assert_eq!(
        plan_entry(&entry("proj/./sub", EntryKind::Directory), &config, "./proj/all.txt"),
        EntryAction::CountDirectory
    );
}

#[test]
fn a_failed_read_is_the_failure_of_that_file() {
    let tokenizer = get_bpe("cl100k_base").unwrap();
    let result =
        process_file("proj/bad.txt".to_string(), Err("invalid UTF-8".to_string()), &tokenizer);
    match result {
        Err(CombinerError::FileProcessing { path, cause }) => {
            assert_eq!(path, "proj/bad.txt");
            assert_eq!(cause, "invalid UTF-8");
        }
        other => panic!("unexpected result {:?}", other),
    }
}

#[test]
fn a_read_file_is_tokenized() {
    let tokenizer = get_bpe("cl100k_base").unwrap();
    let contents = FileContents { content: "hello world".to_string(), size: 11 };
    let file = process_file("proj/a.txt".to_string(), Ok(contents), &tokenizer).unwrap();
    assert_eq!(file.record.path, "proj/a.txt");
    assert_eq!(file.record.tokens, 2);
    assert_eq!(file.record.size, 11);
    assert_eq!(file.content, "hello world");
}

#[test]
fn the_token_count_is_the_length_of_the_encoding() {
    let contents = FileContents { content: "abc".to_string(), size: 3 };
    let file = process_text("a.txt".to_string(), contents, Ok(vec![7, 8, 9, 10, 11])).unwrap();
    assert_eq!(file.record.tokens, 5);
    assert_eq!(file.record.size, 3);
    assert_eq!(file.record.path, "a.txt");
    assert_eq!(file.content, "abc");
    let contents = FileContents { content: "abc".to_string(), size: 3 };
    match process_text("a.txt".to_string(), contents, Err("regex gave up".to_string())) {
        Err(CombinerError::FileProcessing { path, cause }) => {
            assert_eq!(path, "a.txt");
            assert_eq!(cause, "regex gave up");
        }
        other => panic!("unexpected result {:?}", other),
    }
}

#[test]
fn a_fresh_state_has_counted_the_root_only() {
    let state = Combiner::new("./all.txt".to_string());
    assert_eq!(state.stats.files_processed, 0);
    assert_eq!(state.stats.files_skipped, 0);
    assert_eq!(state.stats.directories_visited, 1);
    assert_eq!(state.stats.total_tokens, 0);
    assert_eq!(state.stats.output_file, "./all.txt");
    assert!(state.records.is_empty());
    assert!(state.skipped.is_empty());
}

#[test]
fn recorded_files_are_counted_and_summed() {
    let mut state = Combiner::new("./all.txt".to_string());
    state.record_processed(record("a.txt", 4));
    state.record_processed(record("b.txt", 10));
    state.record_skipped("c.txt".to_string(), "unreadable".to_string());
    state.record_processed(record("d.txt", 6));
    state.visit_directory();
    assert_eq!(state.stats.files_processed, 3);
    assert_eq!(state.stats.files_skipped, 1);
    assert_eq!(state.stats.directories_visited, 2);
    assert_eq!(state.stats.total_tokens, 20);
    assert_eq!(state.stats.max_tokens, 10);
    assert_eq!(state.stats.max_tokens_file, "b.txt");
    assert_eq!(state.records.len(), 3);
    assert_eq!(state.records[2].path, "d.txt");
    assert_eq!(state.skipped.len(), 1);
    assert_eq!(state.skipped[0].path, "c.txt");
    assert_eq!(state.skipped[0].reason, "unreadable");
}

#[test]
fn the_first_of_equal_maxima_is_kept() {
    let mut state = Combiner::new("./all.txt".to_string());
    state.record_processed(record("a.txt", 8));
    state.record_processed(record("b.txt", 8));
    state.record_processed(record("c.txt", 2));
    assert_eq!(state.stats.max_tokens, 8);
    assert_eq!(state.stats.max_tokens_file, "a.txt");
}

#[test]
fn files_without_tokens_leave_the_maximum_unnamed() {
    let mut state = Combiner::new("./all.txt".to_string());
    state.record_processed(record("empty.txt", 0));
    assert_eq!(state.stats.files_processed, 1);
    assert_eq!(state.stats.max_tokens, 0);
    assert_eq!(state.stats.max_tokens_file, "");
}

#[test]
fn finishing_sets_the_elapsed_time_only() {
    let mut state = Combiner::new("./all.txt".to_string());
    state.record_processed(record("a.txt", 4));
    state.finish(Duration::from_secs(2));
    assert_eq!(state.stats.processing_time, Some(Duration::from_secs(2)));
    assert_eq!(state.stats.files_processed, 1);
    assert_eq!(state.stats.total_tokens, 4);
}
