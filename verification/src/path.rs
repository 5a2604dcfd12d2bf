//! Paths as text: the name a path ends in, and the extension of that name.
//!
//! Segments are separated by `/`. Empty segments and segments that are a lone `.`
//! name nothing, so `a/b.aux`, `a/b.aux/` and `a/b.aux/.` all end in the name `b.aux`.

use vstd::prelude::*;
use vstd::string::StrSliceExecFns;
use crate::text::{chars_of, last_index_of, lemma_last_index_of};

verus! {

/// The name `p` ends in: its last segment that is neither empty nor a lone dot.
/// `None` where `p` has no such segment, as for the empty path, `/` and `.`.
pub open spec fn file_name(p: Seq<char>) -> Option<Seq<char>>
    decreases p.len(),
{
    let cut = last_index_of(p, '/');
    let segment = p.skip(cut + 1);
    if segment.len() > 0 && segment != seq!['.'] {
        Some(segment)
    } else if 0 <= cut < p.len() {
        file_name(p.take(cut))
    } else {
        None
    }
}

/// The extension of a file name: what follows its last dot. A name without a dot has
/// none, nor has one whose only dot is its first character, nor one that ends in a dot.
pub open spec fn name_extension(name: Seq<char>) -> Option<Seq<char>> {
    let dot = last_index_of(name, '.');
    if dot <= 0 || dot == name.len() - 1 {
        None
    } else {
        Some(name.skip(dot + 1))
    }
}

/// The extension of the path `p`: that of the name it ends in.
pub open spec fn extension(p: Seq<char>) -> Option<Seq<char>> {
    match file_name(p) {
        None => None,
        Some(name) => name_extension(name),
    }
}

/// A position of `c` with no `c` behind it is the one `last_index_of` finds; so is -1
/// where `s` holds no `c` at all.
proof fn lemma_is_last_index(s: Seq<char>, c: char, i: int)
    requires
        -1 <= i < s.len(),
        i >= 0 ==> s[i] == c,
        forall|j: int| i < j < s.len() ==> s[j] != c,
    ensures
        last_index_of(s, c) == i,
{
    lemma_last_index_of(s, c);
}

/// A file name is never empty, never a lone dot, and holds no separator.
pub proof fn lemma_file_name_shape(p: Seq<char>)
    ensures
        file_name(p) matches Some(name) ==> name.len() > 0 && name != seq!['.']
            && !name.contains('/'),
    decreases p.len(),
{
    let cut = last_index_of(p, '/');
    let segment = p.skip(cut + 1);
    lemma_last_index_of(p, '/');
    if segment.len() > 0 && segment != seq!['.'] {
        assert forall|j: int| 0 <= j < segment.len() implies segment[j] != '/' by {
            assert(segment[j] == p[cut + 1 + j]);
        }
    } else if 0 <= cut < p.len() {
        lemma_file_name_shape(p.take(cut));
    }
}

/// An extension is never empty and holds neither a dot nor a separator.
pub proof fn lemma_extension_shape(p: Seq<char>)
    ensures
        extension(p) matches Some(e) ==> e.len() > 0 && !e.contains('.') && !e.contains('/'),
{
    if let Some(name) = file_name(p) {
        lemma_file_name_shape(p);
        lemma_last_index_of(name, '.');
        let dot = last_index_of(name, '.');
        if let Some(e) = name_extension(name) {
            assert forall|j: int| 0 <= j < e.len() implies e[j] != '.' && e[j] != '/' by {
                assert(e[j] == name[dot + 1 + j]);
                assert(name.contains(name[dot + 1 + j]));
            }
        }
    }
}

/// Where the name that `p` ends in starts and ends.
fn name_bounds(p: &Vec<char>) -> (r: Option<(usize, usize)>)
    ensures
        match r {
            Some((start, end)) => start < end <= p.len() && file_name(p@) == Some(
                p@.subrange(start as int, end as int),
            ),
            None => file_name(p@) is None,
        },
{
    let mut end: usize = p.len();
    assert(p@.take(end as int) =~= p@);
    loop
        invariant
            end <= p.len(),
            file_name(p@) == file_name(p@.take(end as int)),
        decreases end,
    {
        let ghost head = p@.take(end as int);
        let mut start: usize = end;
        while start > 0 && p[start - 1] != '/'
            invariant
                start <= end <= p.len(),
                forall|j: int| start <= j < end ==> p@[j] != '/',
            decreases start,
        {
            start -= 1;
        }
        proof {
            lemma_is_last_index(head, '/', start - 1);
            assert(head.skip(start as int) =~= p@.subrange(start as int, end as int));
        }
        if end - start == 1 && p[start] == '.' {
            assert(head.skip(start as int) =~= seq!['.']);
        } else if end > start {
            assert(head.skip(start as int)[0] == p@[start as int]);
            return Some((start, end));
        }
        if start == 0 {
            return None;
        }
        end = start - 1;
        assert(head.take(end as int) =~= p@.take(end as int));
    }
}

/// Where the extension of the path `p` starts and ends.
pub fn extension_bounds(p: &Vec<char>) -> (r: Option<(usize, usize)>)
    ensures
        match r {
            Some((start, end)) => start < end <= p.len() && extension(p@) == Some(
                p@.subrange(start as int, end as int),
            ),
            None => extension(p@) is None,
        },
{
    let (first, end) = match name_bounds(p) {
        None => { return None; },
        Some(bounds) => bounds,
    };
    let ghost name = p@.subrange(first as int, end as int);
    let mut start: usize = end;
    while start > first && p[start - 1] != '.'
        invariant
            first <= start <= end <= p.len(),
            forall|j: int| start <= j < end ==> p@[j] != '.',
        decreases start,
    {
        start -= 1;
    }
    proof {
        lemma_is_last_index(name, '.', start - 1 - first);
        assert(name.skip(start - first) =~= p@.subrange(start as int, end as int));
    }
    if start <= first + 1 || start == end {
        None
    } else {
        Some((start, end))
    }
}

/// The extension of `path`, if it has one.
pub fn extension_of(path: &str) -> (r: Option<&str>)
    ensures
        match r {
            Some(e) => extension(path@) == Some(e@),
            None => extension(path@) is None,
        },
{
    let chars = chars_of(path);
    match extension_bounds(&chars) {
        None => None,
        Some((start, end)) => Some(path.substring_char(start, end)),
    }
}

} // verus!
