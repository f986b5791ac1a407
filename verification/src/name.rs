//! File names: the parts of a name, and the names that results are given.

use vstd::prelude::*;
use crate::text::{chars_of, last_index, lemma_last_index, lemma_last_index_is, string_of, texts};

verus! {

/// The name of the file in a path: its last part between slashes, parts
/// that are empty or a single dot aside. A path whose last part is `..`
/// names no file, nor does one that holds nothing but slashes and single
/// dots.
pub open spec fn file_name(path: Seq<char>) -> Option<Seq<char>>
    decreases path.len(),
{
    let slash = last_index(path, '/');
    let last = path.subrange(slash + 1, path.len() as int);
    if 0 <= slash < path.len() && (last.len() == 0 || last == seq!['.']) {
        file_name(path.subrange(0, slash))
    } else if last.len() == 0 || last == seq!['.'] || last == seq!['.', '.'] {
        None
    } else {
        Some(last)
    }
}

/// The place of the dot that sets off the extension of a base name, or -1:
/// the last dot, unless it is the first character.
pub open spec fn extension_dot(base: Seq<char>) -> int {
    if last_index(base, '.') > 0 {
        last_index(base, '.')
    } else {
        -1
    }
}

/// The extension of the file that a path names: what follows the last dot
/// of the file name. A name without a dot, and one whose only dot comes
/// first, have none.
pub open spec fn extension(path: Seq<char>) -> Option<Seq<char>> {
    match file_name(path) {
        Some(name) => if extension_dot(name) >= 0 {
            Some(name.subrange(extension_dot(name) + 1, name.len() as int))
        } else {
            None
        },
        None => None,
    }
}

/// The stem of the file that a path names: the file name without its
/// extension and the dot before it.
pub open spec fn stem(path: Seq<char>) -> Option<Seq<char>> {
    match file_name(path) {
        Some(name) => if extension_dot(name) >= 0 {
            Some(name.subrange(0, extension_dot(name)))
        } else {
            Some(name)
        },
        None => None,
    }
}

/// What follows the last dot of a name: the whole name where it has none.
pub open spec fn suffix(name: Seq<char>) -> Seq<char> {
    name.subrange(last_index(name, '.') + 1, name.len() as int)
}

/// Whether a text ends with another.
pub open spec fn ends_with(s: Seq<char>, end: Seq<char>) -> bool {
    s.len() >= end.len() && s.subrange(s.len() - end.len(), s.len() as int) == end
}

/// A text without any repetition of an ending: the ending is taken off as
/// often as the text ends with it.
pub open spec fn without_ending(s: Seq<char>, end: Seq<char>) -> Seq<char>
    decreases s.len(),
{
    if end.len() > 0 && ends_with(s, end) {
        without_ending(s.subrange(0, s.len() - end.len()), end)
    } else {
        s
    }
}

/// The name of the file at a place of a request: `output` where the list of
/// names is too short.
pub open spec fn name_at(names: Seq<Seq<char>>, i: int) -> Seq<char> {
    if 0 <= i < names.len() {
        names[i]
    } else {
        "output"@
    }
}

/// The place of the last occurrence of a character among `v[..to]`.
pub fn find_last(v: &Vec<char>, to: usize, c: char) -> (r: Option<usize>)
    requires
        to <= v.len(),
    ensures
        match r {
            Some(i) => i < to && i == last_index(v@.subrange(0, to as int), c),
            None => last_index(v@.subrange(0, to as int), c) == -1,
        },
{
    let mut i: usize = to;
    while i > 0
        invariant
            i <= to <= v.len(),
            last_index(v@.subrange(0, to as int), c) == last_index(v@.subrange(0, i as int), c),
        decreases i,
    {
        let ghost here = v@.subrange(0, i as int);
        assert(here.drop_last() =~= v@.subrange(0, i - 1));
        if v[i - 1] == c {
            return Some(i - 1);
        }
        i = i - 1;
    }
    None
}

/// The bounds of the file name of a path among its characters, or `None`
/// where the path names no file.
fn name_bounds(v: &Vec<char>) -> (r: Option<(usize, usize)>)
    ensures
        match r {
            Some((from, to)) => from < to <= v.len() && file_name(v@) == Some(
                v@.subrange(from as int, to as int),
            ),
            None => file_name(v@) is None,
        },
{
    let mut to: usize = v.len();
    assert(v@.subrange(0, to as int) =~= v@);
    loop
        invariant
            to <= v.len(),
            file_name(v@) == file_name(v@.subrange(0, to as int)),
        decreases to,
    {
        let ghost path = v@.subrange(0, to as int);
        let slash = find_last(v, to, '/');
        let from: usize = match slash {
            Some(i) => i + 1,
            None => 0,
        };
        let ghost last = path.subrange(from as int, to as int);
        let empty = from == to;
        let dot = to - from == 1 && v[from] == '.';
        let dots = to - from == 2 && v[from] == '.' && v[from + 1] == '.';
        proof {
            if dot {
                assert(last =~= seq!['.']);
            }
            if dots {
                assert(last =~= seq!['.', '.']);
            }
            if last == seq!['.'] {
                assert(last.len() == 1 && last[0] == '.');
            }
        }
        match slash {
            Some(i) => {
                if empty || dot {
                    assert(path.subrange(0, i as int) =~= v@.subrange(0, i as int));
                    to = i;
                    continue;
                }
            },
            None => {},
        }
        if empty || dot || dots {
            return None;
        }
        return Some((from, to));
    }
}

/// The bounds of the file name of a path among its characters, and the
/// place of the dot that sets off its extension, if it has one; `None`
/// where the path names no file.
fn name_parts(v: &Vec<char>) -> (r: Option<(usize, usize, Option<usize>)>)
    ensures
        match r {
            Some((from, to, dot)) => {
                &&& from < to <= v.len()
                &&& file_name(v@) == Some(v@.subrange(from as int, to as int))
                &&& match dot {
                    Some(d) => from < d < to && extension_dot(v@.subrange(from as int, to as int))
                        == d - from,
                    None => extension_dot(v@.subrange(from as int, to as int)) == -1,
                }
            },
            None => file_name(v@) is None,
        },
{
    let (from, to) = match name_bounds(v) {
        Some(bounds) => bounds,
        None => {
            return None;
        },
    };
    let ghost name = v@.subrange(from as int, to as int);
    let mut d: usize = to;
    assert(name.subrange(0, name.len() as int) =~= name);
    while d > from && v[d - 1] != '.'
        invariant
            from <= d <= to <= v.len(),
            name == v@.subrange(from as int, to as int),
            last_index(name, '.') == last_index(name.subrange(0, d - from), '.'),
        decreases d,
    {
        let ghost here = name.subrange(0, d - from);
        assert(here.drop_last() =~= name.subrange(0, d - 1 - from));
        d = d - 1;
    }
    if d > from + 1 {
        Some((from, to, Some((d - 1) as usize)))
    } else {
        Some((from, to, None))
    }
}

/// The extension of the file that a path names.
pub fn ext_of(name: &str) -> (r: Option<String>)
    ensures
        match extension(name@) {
            Some(e) => r is Some && r.unwrap()@ == e,
            None => r is None,
        },
{
    let v = chars_of(name);
    match name_parts(&v) {
        Some((from, to, Some(dot))) => {
            let e = string_of(&v, dot + 1, to);
            Some(e)
        },
        _ => None,
    }
}

/// The stem of the file that a path names.
pub fn stem_of(name: &str) -> (r: Option<String>)
    ensures
        match stem(name@) {
            Some(s) => r is Some && r.unwrap()@ == s,
            None => r is None,
        },
{
    let v = chars_of(name);
    match name_parts(&v) {
        Some((from, to, Some(dot))) => {
            let s = string_of(&v, from, dot);
            Some(s)
        },
        Some((from, to, None)) => Some(string_of(&v, from, to)),
        None => None,
    }
}

/// What follows the last dot of a name.
pub fn suffix_of(name: &str) -> (r: String)
    ensures
        r@ == suffix(name@),
{
    let v = chars_of(name);
    assert(v@.subrange(0, v.len() as int) =~= v@);
    match find_last(&v, v.len(), '.') {
        Some(i) => string_of(&v, i + 1, v.len()),
        None => string_of(&v, 0, v.len()),
    }
}

/// Whether `v[..to]` ends with `end`.
fn ends_at(v: &Vec<char>, to: usize, end: &Vec<char>) -> (r: bool)
    requires
        to <= v.len(),
    ensures
        r == ends_with(v@.subrange(0, to as int), end@),
{
    if end.len() > to {
        return false;
    }
    let start: usize = to - end.len();
    let ghost tail = v@.subrange(0, to as int).subrange(to - end.len(), to as int);
    let mut i: usize = 0;
    while i < end.len()
        invariant
            i <= end.len() <= to <= v.len(),
            start == to - end.len(),
            tail == v@.subrange(0, to as int).subrange(to - end.len(), to as int),
            forall|j: int| 0 <= j < i ==> tail[j] == end@[j],
        decreases end.len() - i,
    {
        if v[start + i] != end[i] {
            return false;
        }
        i = i + 1;
    }
    assert(tail =~= end@);
    true
}

/// A name without any repetition of an ending.
pub fn strip_ending(name: &str, end: &str) -> (r: String)
    ensures
        r@ == without_ending(name@, end@),
{
    let v = chars_of(name);
    let e = chars_of(end);
    let mut to: usize = v.len();
    assert(v@.subrange(0, to as int) =~= v@);
    if e.len() > 0 {
        while ends_at(&v, to, &e)
            invariant
                to <= v.len(),
                e.len() > 0,
                without_ending(v@, e@) == without_ending(v@.subrange(0, to as int), e@),
            decreases to,
        {
            assert(v@.subrange(0, to as int).subrange(0, to - e.len()) =~= v@.subrange(
                0,
                to - e.len(),
            ));
            to = to - e.len();
        }
    }
    string_of(&v, 0, to)
}

/// The name of the file at a place of a request.
pub fn file_name_at(names: &Vec<String>, i: usize) -> (r: String)
    ensures
        r@ == name_at(texts(names@), i as int),
{
    if i < names.len() {
        names[i].clone()
    } else {
        "output".to_owned()
    }
}

/// What follows the last dot of a name holds no dot.
pub proof fn lemma_suffix_has_no_dot(name: Seq<char>)
    ensures
        forall|i: int| 0 <= i < suffix(name).len() ==> suffix(name)[i] != '.',
{
    lemma_last_index(name, '.');
}

/// A name that ends in a dot and a text without dots has that text as
/// its suffix.
pub proof fn lemma_suffix_of_dotted(head: Seq<char>, tail: Seq<char>)
    requires
        forall|i: int| 0 <= i < tail.len() ==> tail[i] != '.',
    ensures
        suffix(head + seq!['.'] + tail) == tail,
{
    let name = head + seq!['.'] + tail;
    let at = head.len() as int;
    lemma_last_index_is(name, '.', at);
}

} // verus!
