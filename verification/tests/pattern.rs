use combiner::pattern::{matches_any, Glob, GlobToken, MatchMode};

fn glob(pattern: &str, path: &str) -> bool {
    combiner::pattern::matches(MatchMode::Glob, pattern, path)
}

fn chars(s: &str) -> Vec<char> {
    s.chars().collect()
}

#[test]
fn literal_pattern_matches_itself_only() {
    assert!(glob("notes.txt", "notes.txt"));
    assert!(!glob("notes.txt", "notes.txt.bak"));
    assert!(!glob("notes.txt", "xnotes.txt"));
    assert!(!glob("notes.txt", ""));
    assert!(glob("", ""));
}

#[test]
fn star_matches_any_run() {
    assert!(glob("*", ""));
    assert!(glob("*", "anything/at/all"));
    assert!(glob("*.log", "a.log"));
    assert!(glob("*.log", ".log"));
    assert!(!glob("*.log", "a.log.txt"));
    assert!(glob("a*b*c", "abc"));
    assert!(glob("a*b*c", "aXXbYYc"));
    assert!(glob("a*b*c", "abbbc"));
    assert!(!glob("a*b*c", "acb"));
    assert!(glob("**", "x"));
}

#[test]
fn question_mark_matches_exactly_one_character() {
    assert!(glob("?", "a"));
    assert!(!glob("?", ""));
    assert!(!glob("?", "ab"));
    assert!(glob("file?.txt", "file1.txt"));
    assert!(!glob("file?.txt", "file12.txt"));
    assert!(glob("?", "é"));
}

#[test]
fn classes_match_members_and_ranges() {
    assert!(glob("[abc]", "b"));
    assert!(!glob("[abc]", "d"));
    assert!(glob("[a-c]x", "bx"));
    assert!(!glob("[a-c]x", "dx"));
    assert!(glob("file[0-9].txt", "file7.txt"));
    assert!(!glob("file[0-9].txt", "fileA.txt"));
    assert!(glob("[a-cx-z]", "y"));
    assert!(!glob("[a-cx-z]", "m"));
}

#[test]
fn negated_classes_match_everything_else() {
    assert!(glob("[!abc]", "d"));
    assert!(!glob("[!abc]", "a"));
    assert!(glob("[^0-9]", "x"));
    assert!(!glob("[^0-9]", "5"));
    assert!(!glob("[!a]", ""));
}

#[test]
fn bracket_and_dash_can_be_members() {
    assert!(glob("[]]", "]"));
    assert!(glob("[]a]", "a"));
    assert!(glob("[!]]", "x"));
    assert!(!glob("[!]]", "]"));
    assert!(glob("[a-]", "-"));
    assert!(glob("[a-]", "a"));
    assert!(!glob("[a-]", "b"));
    assert!(glob("[-a]", "-"));
}

#[test]
fn malformed_pattern_matches_nothing() {
    assert!(Glob::compile("[abc").is_none());
    assert!(Glob::compile("x[").is_none());
    assert!(Glob::compile("[]").is_none());
    assert!(Glob::compile("[!]").is_none());
    assert!(!glob("[abc", "a"));
    assert!(!glob("[abc", "[abc"));
    assert!(!glob("*[", "anything"));
}

#[test]
fn compile_gives_one_token_for_each_element() {
    let compiled = Glob::compile("a*?[!x-z]").unwrap();
    assert_eq!(compiled.tokens.len(), 4);
    assert!(matches!(compiled.tokens[0], GlobToken::Literal('a')));
    assert!(matches!(compiled.tokens[1], GlobToken::AnySequence));
    assert!(matches!(compiled.tokens[2], GlobToken::AnyChar));
    match &compiled.tokens[3] {
        GlobToken::Class { negated, ranges } => {
            assert!(*negated);
            assert_eq!(ranges.len(), 1);
            assert_eq!(ranges[0].lo, 'x');
            assert_eq!(ranges[0].hi, 'z');
        }
        other => panic!("unexpected token {:?}", other),
    }
    assert!(compiled.matches(&chars("abcd")));
    assert!(!compiled.matches(&chars("abcx")));
    assert!(!compiled.matches(&chars("a")));
}

#[test]
fn glob_is_held_against_the_path_and_against_the_file_name() {
    assert!(glob("a.log", "logs/a.log"));
    assert!(glob("logs/*", "logs/a.log"));
    assert!(glob("?.log", "deep/er/a.log"));
    assert!(!glob("b.log", "logs/a.log"));
    assert!(!glob("logs", "logs/a.log"));
}

#[test]
fn substring_mode_looks_for_plain_text() {
    assert!(combiner::pattern::matches(MatchMode::Substring, "target", "proj/target/debug/x.rs"));
    assert!(combiner::pattern::matches(MatchMode::Substring, "", "whatever"));
    assert!(combiner::pattern::matches(MatchMode::Substring, "x.rs", "x.rs"));
    assert!(!combiner::pattern::matches(MatchMode::Substring, "*.rs", "x.rs"));
    assert!(combiner::pattern::matches(MatchMode::Substring, "*.rs", "odd*.rs"));
    assert!(!combiner::pattern::matches(MatchMode::Substring, "longer than the path", "short"));
}

#[test]
fn any_of_several_patterns_suffices() {
    let patterns = vec!["*.log".to_string(), "[".to_string(), "build/*".to_string()];
    assert!(matches_any(MatchMode::Glob, &patterns, "x.log"));
    assert!(matches_any(MatchMode::Glob, &patterns, "build/out.o"));
    assert!(!matches_any(MatchMode::Glob, &patterns, "src/lib.rs"));
    assert!(!matches_any(MatchMode::Glob, &Vec::new(), "src/lib.rs"));
}
