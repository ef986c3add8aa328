//! Which entries of the tree are combined.
//!
//! An entry is admitted when it is a file, its extension is one of the
//! text-like ones, no ignore pattern matches it and its name is not reserved
//! for artifacts, and, where include patterns are given, one of them matches.
//! An ignore pattern wins over every include pattern.

use vstd::prelude::*;
use crate::config::CombinerConfig;
use crate::paths::{extension, extension_of, file_name, file_name_of};
use crate::pattern::{any_pattern_matches, matches_any, MatchMode};
use crate::text::{chars_equal, chars_of, has_prefix, starts_with_chars};

verus! {

/// What kind of node an entry of the tree is.
#[derive(Clone, Copy, Debug, PartialEq, Eq, Structural)]
pub enum EntryKind {
    File,
    Directory,
    /// Neither of the two: a broken link, a socket and the like.
    Other,
}

/// One node met while the tree is walked.
#[derive(Debug)]
pub struct Entry {
    pub path: String,
    pub kind: EntryKind,
}

/// Whether `ext` is one of the extensions of text, markup, source code and
/// settings that are combined.
pub open spec fn allowed_extension(ext: Seq<char>) -> bool {
        ||| ext == "txt"@
        ||| ext == "md"@
        ||| ext == "markdown"@
        ||| ext == "rst"@
        ||| ext == "rs"@
        ||| ext == "py"@
        ||| ext == "js"@
        ||| ext == "ts"@
        ||| ext == "jsx"@
        ||| ext == "tsx"@
        ||| ext == "java"@
        ||| ext == "c"@
        ||| ext == "h"@
        ||| ext == "cpp"@
        ||| ext == "hpp"@
        ||| ext == "cs"@
        ||| ext == "go"@
        ||| ext == "rb"@
        ||| ext == "php"@
        ||| ext == "swift"@
        ||| ext == "kt"@
        ||| ext == "sh"@
        ||| ext == "sql"@
        ||| ext == "html"@
        ||| ext == "css"@
        ||| ext == "json"@
        ||| ext == "toml"@
        ||| ext == "yaml"@
        ||| ext == "yml"@
        ||| ext == "xml"@
        ||| ext == "ini"@
        ||| ext == "cfg"@
        ||| ext == "conf"@
}

/// Whether the extension of `path` is an allowed one.
pub open spec fn text_like(path: Seq<char>) -> bool {
    match extension(path) {
        Some(ext) => allowed_extension(ext),
        None => false,
    }
}

/// Whether `path` is to be left out: an ignore pattern matches it, or its
/// file name begins with the (non-empty) reserved prefix.
pub open spec fn ignored(
    path: Seq<char>,
    patterns: Seq<String>,
    prefix: Seq<char>,
    mode: MatchMode,
) -> bool {
    any_pattern_matches(mode, patterns, path) || has_prefix(file_name(path), prefix)
}

/// Whether the include patterns let `path` in: there are none, or one of
/// them matches.
pub open spec fn included(path: Seq<char>, patterns: Seq<String>, mode: MatchMode) -> bool {
    patterns.len() == 0 || any_pattern_matches(mode, patterns, path)
}

/// Whether `entry` is combined under `config`.
pub open spec fn admitted(entry: Entry, config: CombinerConfig) -> bool {
    &&& entry.kind == EntryKind::File
    &&& text_like(entry.path@)
    &&& !ignored(
        entry.path@,
        config.ignore_patterns@,
        config.output_prefix@,
        config.match_mode,
    )
    &&& included(entry.path@, config.include_patterns@, config.match_mode)
}

fn same_text(chars: &Vec<char>, text: &str) -> (r: bool)
    ensures
        r == (chars@ == text@),
{
    chars_equal(chars, &chars_of(text))
}

/// Whether the extension of `path` is an allowed one.
pub fn is_text_like(path: &str) -> (r: bool)
    ensures
        r == text_like(path@),
{
    match extension_of(&chars_of(path)) {
        Some(ext) => {
                same_text(&ext, "txt")
                || same_text(&ext, "md")
                || same_text(&ext, "markdown")
                || same_text(&ext, "rst")
                || same_text(&ext, "rs")
                || same_text(&ext, "py")
                || same_text(&ext, "js")
                || same_text(&ext, "ts")
                || same_text(&ext, "jsx")
                || same_text(&ext, "tsx")
                || same_text(&ext, "java")
                || same_text(&ext, "c")
                || same_text(&ext, "h")
                || same_text(&ext, "cpp")
                || same_text(&ext, "hpp")
                || same_text(&ext, "cs")
                || same_text(&ext, "go")
                || same_text(&ext, "rb")
                || same_text(&ext, "php")
                || same_text(&ext, "swift")
                || same_text(&ext, "kt")
                || same_text(&ext, "sh")
                || same_text(&ext, "sql")
                || same_text(&ext, "html")
                || same_text(&ext, "css")
                || same_text(&ext, "json")
                || same_text(&ext, "toml")
                || same_text(&ext, "yaml")
                || same_text(&ext, "yml")
                || same_text(&ext, "xml")
                || same_text(&ext, "ini")
                || same_text(&ext, "cfg")
                || same_text(&ext, "conf")
        },
        None => false,
    }
}

/// Whether `path` is to be left out.
pub fn is_ignored(path: &str, patterns: &Vec<String>, prefix: &str, mode: MatchMode) -> (r: bool)
    ensures
        r == ignored(path@, patterns@, prefix@, mode),
{
    if matches_any(mode, patterns, path) {
        true
    } else {
        let name = file_name_of(&chars_of(path));
        starts_with_chars(&name, &chars_of(prefix))
    }
}

/// Whether the include patterns let `path` in.
pub fn is_included(path: &str, patterns: &Vec<String>, mode: MatchMode) -> (r: bool)
    ensures
        r == included(path@, patterns@, mode),
{
    patterns.len() == 0 || matches_any(mode, patterns, path)
}

/// Whether `entry` is combined under `config`.
pub fn is_admitted(entry: &Entry, config: &CombinerConfig) -> (r: bool)
    ensures
        r == admitted(*entry, *config),
{
    let path = entry.path.as_str();
    match entry.kind {
        EntryKind::File => is_text_like(path) && !is_ignored(
            path,
            &config.ignore_patterns,
            config.output_prefix.as_str(),
            config.match_mode,
        ) && is_included(path, &config.include_patterns, config.match_mode),
        _ => false,
    }
}

/// An ignore pattern wins: an entry that one of them matches is not
/// admitted, whatever the include patterns say.
pub proof fn lemma_ignore_takes_precedence(entry: Entry, config: CombinerConfig)
    requires
        any_pattern_matches(config.match_mode, config.ignore_patterns@, entry.path@),
    ensures
        !admitted(entry, config),
{
}

/// An entry whose extension is not an allowed one is never admitted,
/// whatever the patterns.
pub proof fn lemma_extension_is_required(entry: Entry, config: CombinerConfig)
    requires
        !text_like(entry.path@),
    ensures
        !admitted(entry, config),
{
}

/// With no patterns at all, a file with an allowed extension is admitted,
/// unless its name is reserved for artifacts.
pub proof fn lemma_plain_text_file_is_admitted(entry: Entry, config: CombinerConfig)
    requires
        entry.kind == EntryKind::File,
        text_like(entry.path@),
        config.ignore_patterns@.len() == 0,
        config.include_patterns@.len() == 0,
        !has_prefix(file_name(entry.path@), config.output_prefix@),
    ensures
        admitted(entry, config),
{
}

} // verus!
