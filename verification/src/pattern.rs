//! Glob patterns and plain substring patterns over paths.
//!
//! A glob pattern is read character by character:
//!
//! * `*` stands for any run of characters, the empty run too;
//! * `?` stands for exactly one character;
//! * `[...]` stands for one character out of a class. A class lists single
//!   characters and ranges `a-z`; a leading `!` or `^` negates it; a `]`
//!   directly after the opening (or after the negation mark) is an ordinary
//!   member, and so is a `-` that does not stand between two characters;
//! * every other character stands for itself.
//!
//! A class that is never closed makes the whole pattern malformed, and a
//! malformed pattern matches nothing.

use vstd::prelude::*;
use crate::paths::{file_name, file_name_of};
use crate::text::{char_at, chars_of, contains_chars, is_substring};

verus! {

/// An inclusive range of characters inside a class.
#[derive(Clone, Copy, Debug)]
pub struct CharRange {
    pub lo: char,
    pub hi: char,
}

impl CharRange {
    /// Whether `c` lies between the two ends, both included.
    pub open spec fn holds(&self, c: char) -> bool {
        self.lo as u32 <= c as u32 && c as u32 <= self.hi as u32
    }

    /// Whether `c` lies between the two ends, both included.
    pub fn contains(&self, c: char) -> (r: bool)
        ensures
            r == self.holds(c),
    {
        self.lo as u32 <= c as u32 && c as u32 <= self.hi as u32
    }
}

/// Whether some range of `ranges` holds `c`.
pub open spec fn in_ranges(ranges: Seq<CharRange>, c: char) -> bool {
    exists|i: int| 0 <= i < ranges.len() && (#[trigger] ranges[i]).holds(c)
}

/// What one element of a compiled glob stands for.
pub enum Matcher {
    /// This character and no other.
    Literal(char),
    /// Any one character.
    AnyChar,
    /// Any run of characters.
    AnySequence,
    /// One character inside (or, negated, outside) the ranges.
    Class { negated: bool, ranges: Seq<CharRange> },
}

impl Matcher {
    /// Whether this element consumes exactly the character `c`.
    /// `AnySequence` consumes runs, never a character by this rule.
    pub open spec fn accepts(self, c: char) -> bool {
        match self {
            Matcher::Literal(l) => c == l,
            Matcher::AnyChar => true,
            Matcher::AnySequence => false,
            Matcher::Class { negated, ranges } => in_ranges(ranges, c) != negated,
        }
    }
}

/// Whether the elements, in order, consume exactly `text`.
///
/// A run element at the end either consumes nothing, or consumes the last
/// character and stays; any other element consumes the last character.
pub open spec fn tokens_match(tokens: Seq<Matcher>, text: Seq<char>) -> bool
    decreases tokens.len(), text.len(),
{
    if tokens.len() == 0 {
        text.len() == 0
    } else if tokens.last() is AnySequence {
        tokens_match(tokens.drop_last(), text) || (text.len() > 0 && tokens_match(
            tokens,
            text.drop_last(),
        ))
    } else {
        text.len() > 0 && tokens.last().accepts(text.last()) && tokens_match(
            tokens.drop_last(),
            text.drop_last(),
        )
    }
}

/// A run element at the end consumes any tail of the text: the elements
/// match exactly when those before the run match some prefix of the text.
pub proof fn lemma_run_consumes_any_tail(tokens: Seq<Matcher>, text: Seq<char>)
    requires
        tokens.len() > 0,
        tokens.last() is AnySequence,
    ensures
        tokens_match(tokens, text) <==> exists|k: int|
            0 <= k <= text.len() && #[trigger] tokens_match(tokens.drop_last(), text.take(k)),
    decreases text.len(),
{
    let before = tokens.drop_last();
    let split = |k: int| 0 <= k <= text.len() && tokens_match(before, text.take(k));
    if text.len() > 0 {
        let shorter = text.drop_last();
        lemma_run_consumes_any_tail(tokens, shorter);
        assert(text.take(text.len() as int) == text);
        if tokens_match(tokens, text) {
            if tokens_match(before, text) {
                assert(split(text.len() as int));
            } else {
                let k = choose|k: int|
                    0 <= k <= shorter.len() && #[trigger] tokens_match(before, shorter.take(k));
                assert(text.take(k) == shorter.take(k));
                assert(split(k));
            }
        }
        if exists|k: int| 0 <= k <= text.len() && #[trigger] tokens_match(before, text.take(k)) {
            let k = choose|k: int|
                0 <= k <= text.len() && #[trigger] tokens_match(before, text.take(k));
            if k < text.len() {
                assert(text.take(k) == shorter.take(k));
                assert(tokens_match(before, shorter.take(k)));
                assert(tokens_match(tokens, shorter));
            }
        }
    } else {
        assert(text.take(0) == text);
        if tokens_match(tokens, text) {
            assert(split(0));
        }
    }
}

/// The members of a class body `body[k..]`: `a-b` with a character on each
/// side is a range, anything else a single character.
pub open spec fn class_ranges(body: Seq<char>, k: int) -> Seq<CharRange>
    decreases body.len() - k,
{
    if k < 0 || k >= body.len() {
        Seq::empty()
    } else if k + 2 < body.len() && body[k + 1] == '-' {
        seq![CharRange { lo: body[k], hi: body[k + 2] }] + class_ranges(body, k + 3)
    } else {
        seq![CharRange { lo: body[k], hi: body[k] }] + class_ranges(body, k + 1)
    }
}

/// Where the members of the class opened just before `open` begin: after
/// the negation mark, if there is one.
pub open spec fn class_body_start(p: Seq<char>, open: int) -> int {
    if open < p.len() && (p[open] == '!' || p[open] == '^') {
        open + 1
    } else {
        open
    }
}

/// Whether `close` is the bracket that closes the class whose members begin
/// at `start`: the first `]` strictly after `start`.
pub open spec fn closes_class(p: Seq<char>, start: int, close: int) -> bool {
    &&& start < close < p.len()
    &&& p[close] == ']'
    &&& forall|j: int| start < j < close ==> p[j] != ']'
}

/// Whether the class whose members begin at `start` is ever closed.
pub open spec fn class_is_closed(p: Seq<char>, start: int) -> bool {
    exists|close: int| closes_class(p, start, close)
}

/// The index of the closing bracket of the class whose members begin at
/// `start`.
pub open spec fn class_close(p: Seq<char>, start: int) -> int {
    choose|close: int| closes_class(p, start, close)
}

/// The elements that `p[i..]` compiles to, or `None` where a class in it is
/// never closed.
pub open spec fn parse_from(p: Seq<char>, i: int) -> Option<Seq<Matcher>>
    decreases p.len() - i,
{
    if i < 0 || i >= p.len() {
        Some(Seq::empty())
    } else if p[i] == '[' {
        let start = class_body_start(p, i + 1);
        if class_is_closed(p, start) {
            let close = class_close(p, start);
            // The closing bracket lies behind the opening one; said here so
            // that the recursion is seen to move forward.
            if close > i {
                let class = Matcher::Class {
                    negated: start != i + 1,
                    ranges: class_ranges(p.subrange(start, close), 0),
                };
                match parse_from(p, close + 1) {
                    Some(rest) => Some(seq![class] + rest),
                    None => None,
                }
            } else {
                None
            }
        } else {
            None
        }
    } else {
        let first = if p[i] == '*' {
            Matcher::AnySequence
        } else if p[i] == '?' {
            Matcher::AnyChar
        } else {
            Matcher::Literal(p[i])
        };
        match parse_from(p, i + 1) {
            Some(rest) => Some(seq![first] + rest),
            None => None,
        }
    }
}

/// The elements that the pattern compiles to, or `None` if it is malformed.
pub open spec fn parse_glob(p: Seq<char>) -> Option<Seq<Matcher>> {
    parse_from(p, 0)
}

/// Whether the glob `pattern` consumes exactly `text`. A malformed pattern
/// matches nothing.
pub open spec fn glob_matches(pattern: Seq<char>, text: Seq<char>) -> bool {
    match parse_glob(pattern) {
        Some(tokens) => tokens_match(tokens, text),
        None => false,
    }
}

/// `prefix` followed by what `rest` holds, or `None` where `rest` is `None`.
pub open spec fn prepend(prefix: Seq<Matcher>, rest: Option<Seq<Matcher>>) -> Option<Seq<Matcher>> {
    match rest {
        Some(r) => Some(prefix + r),
        None => None,
    }
}

/// One element of a compiled glob.
#[derive(Debug)]
pub enum GlobToken {
    Literal(char),
    AnyChar,
    AnySequence,
    Class { negated: bool, ranges: Vec<CharRange> },
}

impl View for GlobToken {
    type V = Matcher;

    open spec fn view(&self) -> Matcher {
        match self {
            GlobToken::Literal(c) => Matcher::Literal(*c),
            GlobToken::AnyChar => Matcher::AnyChar,
            GlobToken::AnySequence => Matcher::AnySequence,
            GlobToken::Class { negated, ranges } => Matcher::Class {
                negated: *negated,
                ranges: ranges@,
            },
        }
    }
}

impl GlobToken {
    /// Whether this element consumes exactly the character `c`.
    pub fn accepts(&self, c: char) -> (r: bool)
        ensures
            r == self@.accepts(c),
    {
        match self {
            GlobToken::Literal(l) => c == *l,
            GlobToken::AnyChar => true,
            GlobToken::AnySequence => false,
            GlobToken::Class { negated, ranges } => {
                let mut found = false;
                let mut i: usize = 0;
                while i < ranges.len()
                    invariant
                        i <= ranges.len(),
                        found == exists|j: int| 0 <= j < i && (#[trigger] ranges@[j]).holds(c),
                    decreases ranges.len() - i,
                {
                    if ranges[i].contains(c) {
                        found = true;
                    }
                    i += 1;
                }
                found != *negated
            },
        }
    }
}

/// A compiled glob pattern.
#[derive(Debug)]
pub struct Glob {
    pub tokens: Vec<GlobToken>,
}

impl View for Glob {
    type V = Seq<Matcher>;

    open spec fn view(&self) -> Seq<Matcher> {
        Seq::new(self.tokens@.len(), |i: int| self.tokens@[i]@)
    }
}

/// The closing bracket of the class whose members begin at `start`, if the
/// class is closed at all.
fn find_class_close(p: &Vec<char>, start: usize) -> (r: Option<usize>)
    ensures
        match r {
            Some(close) => closes_class(p@, start as int, close as int),
            None => !class_is_closed(p@, start as int),
        },
{
    if start >= p.len() {
        return None;
    }
    let mut j: usize = start + 1;
    while j < p.len()
        invariant
            start < j <= p.len(),
            forall|k: int| start < k < j ==> p@[k] != ']',
        decreases p.len() - j,
    {
        if char_at(p, j) == ']' {
            return Some(j);
        }
        j += 1;
    }
    None
}

/// The members of the class body `p[start..close]`.
fn parse_class_ranges(p: &Vec<char>, start: usize, close: usize) -> (r: Vec<CharRange>)
    requires
        start <= close <= p.len(),
    ensures
        r@ == class_ranges(p@.subrange(start as int, close as int), 0),
{
    let ghost body = p@.subrange(start as int, close as int);
    let n: usize = close - start;
    let mut out: Vec<CharRange> = Vec::new();
    let mut k: usize = 0;
    while k < n
        invariant
            start <= close <= p.len(),
            n == close - start,
            body == p@.subrange(start as int, close as int),
            k <= n,
            class_ranges(body, 0) == out@ + class_ranges(body, k as int),
        decreases n - k,
    {
        let ghost before = out@;
        if n - k > 2 && char_at(p, start + k + 1) == '-' {
            out.push(CharRange { lo: char_at(p, start + k), hi: char_at(p, start + k + 2) });
            proof {
                let first = CharRange { lo: body[k as int], hi: body[k + 2] };
                assert(class_ranges(body, k as int) == seq![first] + class_ranges(body, k + 3));
                assert(out@ == before + seq![first]);
                assert(out@ + class_ranges(body, k + 3) =~= before + class_ranges(body, k as int));
            }
            k += 3;
        } else {
            out.push(CharRange { lo: char_at(p, start + k), hi: char_at(p, start + k) });
            proof {
                let first = CharRange { lo: body[k as int], hi: body[k as int] };
                assert(class_ranges(body, k as int) == seq![first] + class_ranges(body, k + 1));
                assert(out@ == before + seq![first]);
                assert(out@ + class_ranges(body, k + 1) =~= before + class_ranges(body, k as int));
            }
            k += 1;
        }
    }
    out
}

impl Glob {
    /// Compiles `pattern`; `None` exactly when the pattern is malformed.
    pub fn compile(pattern: &str) -> (r: Option<Glob>)
        ensures
            match r {
                Some(g) => parse_glob(pattern@) == Some(g@),
                None => parse_glob(pattern@) is None,
            },
    {
        let p = chars_of(pattern);
        let mut tokens: Vec<GlobToken> = Vec::new();
        let mut i: usize = 0;
        while i < p.len()
            invariant
                i <= p.len(),
                p@ == pattern@,
                parse_from(p@, 0) == prepend(
                    Seq::new(tokens@.len(), |j: int| tokens@[j]@),
                    parse_from(p@, i as int),
                ),
            decreases p.len() - i,
        {
            let ghost before = Seq::new(tokens@.len(), |j: int| tokens@[j]@);
            let c = char_at(&p, i);
            if c == '[' {
                let negated = i + 1 < p.len() && (char_at(&p, i + 1) == '!' || char_at(
                    &p,
                    i + 1,
                ) == '^');
                let start: usize = if negated {
                    i + 2
                } else {
                    i + 1
                };
                assert(start as int == class_body_start(p@, i + 1));
                match find_class_close(&p, start) {
                    None => {
                        return None;
                    },
                    Some(close) => {
                        assert(class_is_closed(p@, start as int));
                        assert(class_close(p@, start as int) == close);
                        let ranges = parse_class_ranges(&p, start, close);
                        let token = GlobToken::Class { negated, ranges };
                        let ghost m = token@;
                        tokens.push(token);
                        proof {
                            let after = Seq::new(tokens@.len(), |j: int| tokens@[j]@);
                            assert(after =~= before + seq![m]);
                            let rest = parse_from(p@, close + 1);
                            if rest is Some {
                                assert(after + rest->0 =~= before + (seq![m] + rest->0));
                            }
                        }
                        i = close + 1;
                    },
                }
            } else {
                let token = if c == '*' {
                    GlobToken::AnySequence
                } else if c == '?' {
                    GlobToken::AnyChar
                } else {
                    GlobToken::Literal(c)
                };
                let ghost m = token@;
                tokens.push(token);
                proof {
                    let after = Seq::new(tokens@.len(), |j: int| tokens@[j]@);
                    assert(after =~= before + seq![m]);
                    let rest = parse_from(p@, i + 1);
                    if rest is Some {
                        assert(after + rest->0 =~= before + (seq![m] + rest->0));
                    }
                }
                i += 1;
            }
        }
        let g = Glob { tokens };
        assert(g@ + Seq::<Matcher>::empty() == g@);
        Some(g)
    }

    /// Whether the compiled elements, in order, consume exactly `text`.
    pub fn matches(&self, text: &Vec<char>) -> (r: bool)
        ensures
            r == tokens_match(self@, text@),
    {
        let n = text.len();
        let ghost toks = self@;
        // reach[j]: the elements seen so far consume exactly text[..j]
        let mut reach: Vec<bool> = Vec::new();
        reach.push(true);
        let mut j: usize = 0;
        while j < n
            invariant
                j <= n,
                n == text.len(),
                reach.len() == j + 1,
                forall|k: int|
                    0 <= k <= j ==> reach@[k] == tokens_match(
                        Seq::<Matcher>::empty(),
                        #[trigger] text@.take(k),
                    ),
            decreases n - j,
        {
            reach.push(false);
            j += 1;
        }
        let mut i: usize = 0;
        while i < self.tokens.len()
            invariant
                i <= self.tokens.len(),
                toks == self@,
                n == text.len(),
                reach.len() == n + 1,
                forall|k: int|
                    0 <= k <= n ==> reach@[k] == tokens_match(
                        toks.take(i as int),
                        #[trigger] text@.take(k),
                    ),
            decreases self.tokens.len() - i,
        {
            let ghost prev = toks.take(i as int);
            let ghost cur = toks.take(i + 1);
            assert(cur.drop_last() == prev);
            assert(cur.last() == self.tokens@[i as int]@);
            let token = &self.tokens[i];
            let star = match token {
                GlobToken::AnySequence => true,
                _ => false,
            };
            let mut next: Vec<bool> = Vec::new();
            if star {
                next.push(reach[0]);
            } else {
                next.push(false);
            }
            assert(text@.take(0).len() == 0);
            let mut j: usize = 0;
            while j < n
                invariant
                    j <= n,
                    n == text.len(),
                    reach.len() == n + 1,
                    next.len() == j + 1,
                    cur.len() > 0,
                    star == (cur.last() is AnySequence),
                    cur.last() == token@,
                    cur.drop_last() == prev,
                    forall|k: int|
                        0 <= k <= n ==> reach@[k] == tokens_match(prev, #[trigger] text@.take(k)),
                    forall|k: int|
                        0 <= k <= j ==> next@[k] == tokens_match(cur, #[trigger] text@.take(k)),
                decreases n - j,
            {
                let b = if star {
                    next[j] || reach[j + 1]
                } else {
                    reach[j] && token.accepts(char_at(text, j))
                };
                proof {
                    let longer = text@.take(j + 1);
                    assert(longer.drop_last() == text@.take(j as int));
                    assert(longer.last() == text@[j as int]);
                }
                next.push(b);
                j += 1;
            }
            reach = next;
            i += 1;
        }
        assert(toks.take(self.tokens.len() as int) == toks);
        assert(text@.take(n as int) == text@);
        reach[n]
    }
}

/// How a pattern is read.
#[derive(Clone, Copy, Debug, PartialEq, Eq, Structural)]
pub enum MatchMode {
    /// As a glob, held against the whole path and against its file name.
    Glob,
    /// As plain text that has to occur somewhere in the path.
    Substring,
}

/// Whether `pattern`, read in `mode`, matches `path`.
pub open spec fn pattern_matches(mode: MatchMode, pattern: Seq<char>, path: Seq<char>) -> bool {
    match mode {
        MatchMode::Glob => glob_matches(pattern, path) || glob_matches(pattern, file_name(path)),
        MatchMode::Substring => is_substring(pattern, path),
    }
}

/// Whether some pattern of `patterns`, read in `mode`, matches `path`.
pub open spec fn any_pattern_matches(
    mode: MatchMode,
    patterns: Seq<String>,
    path: Seq<char>,
) -> bool {
    exists|i: int| 0 <= i < patterns.len() && pattern_matches(mode, (#[trigger] patterns[i])@, path)
}

/// Whether `pattern`, read in `mode`, matches `path`. A malformed glob
/// matches nothing.
pub fn matches(mode: MatchMode, pattern: &str, path: &str) -> (r: bool)
    ensures
        r == pattern_matches(mode, pattern@, path@),
{
    let text = chars_of(path);
    match mode {
        MatchMode::Glob => {
            match Glob::compile(pattern) {
                Some(glob) => {
                    if glob.matches(&text) {
                        true
                    } else {
                        let name = file_name_of(&text);
                        glob.matches(&name)
                    }
                },
                None => false,
            }
        },
        MatchMode::Substring => {
            let needle = chars_of(pattern);
            contains_chars(&needle, &text)
        },
    }
}

/// Whether some pattern of `patterns`, read in `mode`, matches `path`.
pub fn matches_any(mode: MatchMode, patterns: &Vec<String>, path: &str) -> (r: bool)
    ensures
        r == any_pattern_matches(mode, patterns@, path@),
{
    let mut i: usize = 0;
    while i < patterns.len()
        invariant
            i <= patterns.len(),
            forall|j: int| 0 <= j < i ==> !pattern_matches(mode, (#[trigger] patterns@[j])@, path@),
        decreases patterns.len() - i,
    {
        if matches(mode, patterns[i].as_str(), path) {
            return true;
        }
        i += 1;
    }
    false
}

} // verus!
