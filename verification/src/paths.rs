//! Paths as written: sequences of characters with `/` between components.
//!
//! Two spellings are taken for the same path when they have the same
//! components: a repeated `/`, a `.` between two `/` and a `/` at the end
//! change nothing. Whether a path from the root and one from the current
//! directory name the same file is not decided here.

use vstd::prelude::*;
use vstd::string::StringExecFns;
use crate::text::{
    char_at,
    chars_equal,
    chars_of,
    find_last,
    last_index_of,
    lemma_last_index_of,
    lemma_last_index_of_joined,
    tail_from,
};

verus! {

/// The file name of `path`: what follows the last `/`, or the whole path
/// where it has none.
pub open spec fn file_name(path: Seq<char>) -> Seq<char> {
    path.skip(last_index_of(path, '/') + 1)
}

/// The extension of the file name: what follows its last `.`, provided
/// that `.` is not the name's first character. `None` where the name has no
/// such `.`.
pub open spec fn extension(path: Seq<char>) -> Option<Seq<char>> {
    let name = file_name(path);
    let dot = last_index_of(name, '.');
    if dot <= 0 {
        None
    } else {
        Some(name.skip(dot + 1))
    }
}

/// Whether a part between two `/` is a component: it is neither empty nor
/// `.`.
pub open spec fn is_component(part: Seq<char>) -> bool {
    part.len() > 0 && part != seq!['.']
}

/// The components of `path`: the parts between `/` that are neither empty
/// nor `.`, in order. A path that begins at the root has the empty part as
/// its first component, so that it differs from every path that does not.
pub open spec fn components(path: Seq<char>) -> Seq<Seq<char>>
    decreases path.len(),
{
    let slash = last_index_of(path, '/');
    let last = path.skip(slash + 1);
    let before = if slash < 0 {
        Seq::empty()
    } else if slash == 0 {
        seq![Seq::<char>::empty()]
    } else if slash < path.len() {
        // The last `/` lies inside the path; said here so that the
        // recursion is seen to take a shorter path.
        components(path.take(slash))
    } else {
        Seq::empty()
    };
    if is_component(last) {
        before.push(last)
    } else {
        before
    }
}

/// The components of what stands before the `/` at index `slash`; nothing
/// where `slash` is -1.
pub open spec fn components_before(path: Seq<char>, slash: int) -> Seq<Seq<char>> {
    if slash < 0 {
        Seq::empty()
    } else if slash == 0 {
        seq![Seq::<char>::empty()]
    } else {
        components(path.take(slash))
    }
}

/// The character sequences that `parts` hold.
pub open spec fn part_views(parts: Seq<Vec<char>>) -> Seq<Seq<char>> {
    Seq::new(parts.len(), |i: int| parts[i]@)
}

/// Whether `path` begins at the root.
pub open spec fn is_absolute(path: Seq<char>) -> bool {
    path.len() > 0 && path[0] == '/'
}

/// Where the artifact goes: `output` as given when it or the scanned
/// directory is absolute, else `output` below the current directory.
pub open spec fn resolved_output(directory: Seq<char>, output: Seq<char>) -> Seq<char> {
    if is_absolute(directory) || is_absolute(output) {
        output
    } else {
        seq!['.', '/'] + output
    }
}

/// A path below the current directory has the same components with and
/// without `./` in front of it.
pub proof fn lemma_current_directory_adds_nothing(path: Seq<char>)
    requires
        !is_absolute(path),
    ensures
        components(seq!['.', '/'] + path) == components(path),
    decreases path.len(),
{
    let dot = seq!['.', '/'];
    let joined = dot + path;
    let slash = last_index_of(path, '/');
    lemma_last_index_of(path, '/');
    lemma_last_index_of_joined(dot, path, '/');
    assert(last_index_of(dot, '/') == 1) by {
        assert(dot.last() == '/');
    }
    assert(joined.skip(2) == path);
    if slash < 0 {
        assert(joined.take(1) == seq!['.']);
        assert(components(seq!['.']) == Seq::<Seq<char>>::empty()) by {
            assert(last_index_of(seq!['.'], '/') == -1) by {
                reveal_with_fuel(last_index_of, 2);
            }
            assert(seq!['.'].skip(0) == seq!['.']);
        }
        assert(joined.skip(2) == path.skip(0));
    } else {
        assert(slash > 0);
        assert(joined.skip(slash + 2 + 1) == path.skip(slash + 1));
        assert(joined.take(slash + 2) == dot + path.take(slash));
        lemma_current_directory_adds_nothing(path.take(slash));
    }
}

/// Resolving the path of the artifact does not change which path it names.
pub proof fn lemma_resolved_output_is_output(directory: Seq<char>, output: Seq<char>)
    ensures
        components(resolved_output(directory, output)) == components(output),
{
    if !is_absolute(directory) && !is_absolute(output) {
        lemma_current_directory_adds_nothing(output);
    }
}

/// The file name of `path`.
pub fn file_name_of(path: &Vec<char>) -> (name: Vec<char>)
    ensures
        name@ == file_name(path@),
{
    match find_last(path, '/') {
        Some(slash) => tail_from(path, slash + 1),
        None => tail_from(path, 0),
    }
}

/// The extension of the file name of `path`, if it has one.
pub fn extension_of(path: &Vec<char>) -> (ext: Option<Vec<char>>)
    ensures
        match ext {
            Some(e) => extension(path@) == Some(e@),
            None => extension(path@) is None,
        },
{
    let name = file_name_of(path);
    match find_last(&name, '.') {
        Some(dot) => {
            if dot == 0 {
                None
            } else {
                Some(tail_from(&name, dot + 1))
            }
        },
        None => None,
    }
}

/// Whether `path` begins at the root.
pub fn is_absolute_path(path: &str) -> (r: bool)
    ensures
        r == is_absolute(path@),
{
    let p = chars_of(path);
    p.len() > 0 && char_at(&p, 0) == '/'
}

/// Resolves the path of the artifact against the scanned directory.
pub fn resolve_output_path(directory: &str, output: &str) -> (path: String)
    ensures
        path@ == resolved_output(directory@, output@),
{
    if is_absolute_path(directory) || is_absolute_path(output) {
        String::from_str(output)
    } else {
        let mut path = String::from_str("./");
        proof {
            reveal_strlit("./");
            assert("./"@ == seq!['.', '/']);
        }
        path.append(output);
        path
    }
}

/// The components of `path`.
pub fn components_of(path: &Vec<char>) -> (parts: Vec<Vec<char>>)
    ensures
        part_views(parts@) == components(path@),
{
    let n = path.len();
    let mut parts: Vec<Vec<char>> = Vec::new();
    let mut part: Vec<char> = Vec::new();
    let mut start: usize = 0;
    let mut i: usize = 0;
    assert(part_views(parts@) == Seq::<Seq<char>>::empty());
    while i < n
        invariant
            n == path.len(),
            start <= i <= n,
            last_index_of(path@.take(i as int), '/') == start - 1,
            part@ == path@.subrange(start as int, i as int),
            part_views(parts@) == components_before(path@, start - 1),
        decreases n - i,
    {
        let ghost seen = path@.take(i as int);
        let ghost before = part_views(parts@);
        assert(path@.take(i + 1).drop_last() == seen);
        let c = char_at(path, i);
        if c == '/' {
            proof {
                assert(seen.skip(start as int) == part@);
                if start > 1 {
                    assert(seen.take(start - 1) == path@.take(start - 1));
                }
            }
            if i == 0 {
                parts.push(Vec::new());
                assert(part_views(parts@) == seq![Seq::<char>::empty()]);
            } else if is_component_of(&part) {
                let ghost kept = part@;
                parts.push(part);
                assert(part_views(parts@) == before.push(kept));
            }
            part = Vec::new();
            start = i + 1;
            assert(part@ == path@.subrange(start as int, i + 1));
        } else {
            part.push(c);
            assert(part@ == path@.subrange(start as int, i + 1));
        }
        i += 1;
    }
    proof {
        assert(path@.take(n as int) == path@);
        assert(path@.skip(start as int) == part@);
        if start > 1 {
            assert(path@.take(start - 1).len() < path@.len());
        }
    }
    if is_component_of(&part) {
        let ghost before = part_views(parts@);
        let ghost kept = part@;
        parts.push(part);
        assert(part_views(parts@) == before.push(kept));
    }
    parts
}

/// Whether `part` is a component: neither empty nor `.`.
fn is_component_of(part: &Vec<char>) -> (r: bool)
    ensures
        r == is_component(part@),
{
    if part.len() == 0 {
        false
    } else if part.len() == 1 && char_at(part, 0) == '.' {
        assert(part@ == seq!['.']);
        false
    } else {
        if part.len() == 1 {
            assert(part@[0] != seq!['.'][0]);
        }
        true
    }
}

/// Whether the two paths have the same components.
pub fn same_path(a: &str, b: &str) -> (r: bool)
    ensures
        r == (components(a@) == components(b@)),
{
    let left = components_of(&chars_of(a));
    let right = components_of(&chars_of(b));
    if left.len() != right.len() {
        return false;
    }
    let mut i: usize = 0;
    while i < left.len()
        invariant
            i <= left.len(),
            left.len() == right.len(),
            part_views(left@) == components(a@),
            part_views(right@) == components(b@),
            part_views(left@).take(i as int) == part_views(right@).take(i as int),
        decreases left.len() - i,
    {
        if !chars_equal(&left[i], &right[i]) {
            assert(part_views(left@)[i as int] == left@[i as int]@);
            assert(part_views(right@)[i as int] == right@[i as int]@);
            assert(part_views(left@) != part_views(right@));
            return false;
        }
        assert(part_views(left@).take(i + 1) == part_views(left@).take(i as int).push(
            part_views(left@)[i as int],
        ));
        assert(part_views(right@).take(i + 1) == part_views(right@).take(i as int).push(
            part_views(right@)[i as int],
        ));
        i += 1;
    }
    assert(part_views(left@).take(left@.len() as int) == part_views(left@));
    assert(part_views(right@).take(right@.len() as int) == part_views(right@));
    true
}

} // verus!
