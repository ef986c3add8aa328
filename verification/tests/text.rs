use combiner::text::{
    char_at, chars_equal, chars_of, contains_chars, find_last, occurs_here, starts_with_chars,
    tail_from,
};
use combiner::tokenizer::to_lower;

fn chars(s: &str) -> Vec<char> {
    s.chars().collect()
}

#[test]
fn chars_are_taken_one_by_one() {
    assert_eq!(chars_of("héllo"), vec!['h', 'é', 'l', 'l', 'o']);
    assert_eq!(chars_of(""), Vec::<char>::new());
    assert_eq!(char_at(&chars("abc"), 1), 'b');
}

#[test]
fn equal_means_same_characters_in_same_order() {
    assert!(chars_equal(&chars("abc"), &chars("abc")));
    assert!(chars_equal(&chars(""), &chars("")));
    assert!(!chars_equal(&chars("abc"), &chars("abd")));
    assert!(!chars_equal(&chars("abc"), &chars("ab")));
    assert!(!chars_equal(&chars("abc"), &chars("cba")));
}

#[test]
fn occurrences_are_found_where_they_stand() {
    let hay = chars("one two one");
    assert!(occurs_here(&chars("one"), &hay, 0));
    assert!(occurs_here(&chars("one"), &hay, 8));
    assert!(!occurs_here(&chars("one"), &hay, 1));
    assert!(!occurs_here(&chars("one"), &hay, 9));
    assert!(!occurs_here(&chars("one"), &hay, 100));
    assert!(occurs_here(&chars(""), &hay, 11));
    assert!(!occurs_here(&chars(""), &hay, 12));
    assert!(contains_chars(&chars("two"), &hay));
    assert!(contains_chars(&chars("e"), &hay));
    assert!(contains_chars(&chars(""), &chars("")));
    assert!(!contains_chars(&chars("three"), &hay));
    assert!(!contains_chars(&chars("one two one!"), &hay));
}

#[test]
fn prefixes_must_not_be_empty() {
    assert!(starts_with_chars(&chars("combined_output.txt"), &chars("combined_output")));
    assert!(starts_with_chars(&chars("abc"), &chars("abc")));
    assert!(!starts_with_chars(&chars("abc"), &chars("abcd")));
    assert!(!starts_with_chars(&chars("abc"), &chars("bc")));
    assert!(!starts_with_chars(&chars("abc"), &chars("")));
}

#[test]
fn last_occurrence_and_tail() {
    assert_eq!(find_last(&chars("a/b/c"), '/'), Some(3));
    assert_eq!(find_last(&chars("abc"), '/'), None);
    assert_eq!(find_last(&chars("/"), '/'), Some(0));
    assert_eq!(find_last(&chars(""), '/'), None);
    assert_eq!(tail_from(&chars("a/b/c"), 4), vec!['c']);
    assert_eq!(tail_from(&chars("abc"), 0), vec!['a', 'b', 'c']);
    assert_eq!(tail_from(&chars("abc"), 3), Vec::<char>::new());
}

#[test]
fn only_ascii_capitals_are_lowered() {
    assert_eq!(to_lower("Cl100K_Base"), chars("cl100k_base"));
    assert_eq!(to_lower("AZ az @[`{"), chars("az az @[`{"));
    assert_eq!(to_lower("ÄÖ"), chars("ÄÖ"));
}
