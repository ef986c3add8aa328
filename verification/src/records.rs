//! What a run keeps of each file it attempted.

use vstd::prelude::*;

verus! {

/// A file that was read and tokenized.
#[derive(Debug)]
pub struct FileRecord {
    pub path: String,
    /// The number of tokens of the content.
    pub tokens: usize,
    /// The length of the file in bytes.
    pub size: u64,
}

/// A file that was admitted but could not be processed, and why.
#[derive(Debug)]
pub struct SkipRecord {
    pub path: String,
    pub reason: String,
}

/// What was read of a file: its text and its length in bytes.
#[derive(Debug)]
pub struct FileContents {
    pub content: String,
    pub size: u64,
}

/// A processed file together with its content.
#[derive(Debug)]
pub struct ProcessedFile {
    pub record: FileRecord,
    pub content: String,
}

/// The sum of the token counts of `records`.
pub open spec fn sum_tokens(records: Seq<FileRecord>) -> nat
    decreases records.len(),
{
    if records.len() == 0 {
        0
    } else {
        sum_tokens(records.drop_last()) + records.last().tokens as nat
    }
}

/// The sum of the sizes of `records`.
pub open spec fn sum_sizes(records: Seq<FileRecord>) -> nat
    decreases records.len(),
{
    if records.len() == 0 {
        0
    } else {
        sum_sizes(records.drop_last()) + records.last().size as nat
    }
}

/// Whether `records[i]` has the largest token count, and is the first to
/// have it.
pub open spec fn is_first_largest(records: Seq<FileRecord>, i: int) -> bool {
    &&& 0 <= i < records.len()
    &&& forall|j: int| 0 <= j < records.len() ==> (#[trigger] records[j]).tokens <= records[i].tokens
    &&& forall|j: int| 0 <= j < i ==> (#[trigger] records[j]).tokens < records[i].tokens
}

} // verus!
