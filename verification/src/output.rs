//! The framing of the artifact.
//!
//! Each combined file contributes one block: a header line that names the
//! file, the raw content, and a blank line.

use vstd::prelude::*;
use vstd::string::StringExecFns;
use crate::records::ProcessedFile;

verus! {

/// The block of one file: `--- File: <path> ---`, a line break, the
/// content, and two line breaks.
pub open spec fn framed(path: Seq<char>, content: Seq<char>) -> Seq<char> {
    "--- File: "@ + path + " ---\n"@ + content + "\n\n"@
}

/// The blocks of `files`, one after the other, in the order of `files`.
pub open spec fn rendered(files: Seq<ProcessedFile>) -> Seq<char>
    decreases files.len(),
{
    if files.len() == 0 {
        Seq::empty()
    } else {
        rendered(files.drop_last()) + framed(files.last().record.path@, files.last().content@)
    }
}

/// The block of one file.
pub fn format_record(path: &str, content: &str) -> (block: String)
    ensures
        block@ == framed(path@, content@),
{
    let mut block = String::from_str("--- File: ");
    block.append(path);
    block.append(" ---\n");
    block.append(content);
    block.append("\n\n");
    block
}

/// The whole artifact for `files`.
pub fn render_output(files: &Vec<ProcessedFile>) -> (artifact: String)
    ensures
        artifact@ == rendered(files@),
{
    let mut artifact = String::new();
    let mut i: usize = 0;
    while i < files.len()
        invariant
            i <= files.len(),
            artifact@ == rendered(files@.take(i as int)),
        decreases files.len() - i,
    {
        let block = format_record(files[i].record.path.as_str(), files[i].content.as_str());
        artifact.append(block.as_str());
        assert(files@.take(i + 1).drop_last() == files@.take(i as int));
        i += 1;
    }
    assert(files@.take(files@.len() as int) == files@);
    artifact
}

} // verus!
