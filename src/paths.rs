//! Unix path strings: joining, file names and extensions.

use vstd::prelude::*;

verus! {

/// `base` joined with `rest` as `Path::join` does on Unix: an absolute `rest`
/// replaces `base`; otherwise one separator is placed between them, unless
/// `base` is empty or already ends with one.
pub open spec fn join_spec(base: Seq<char>, rest: Seq<char>) -> Seq<char> {
    if rest.len() > 0 && rest[0] == '/' {
        rest
    } else if base.len() == 0 || base.last() == '/' {
        base + rest
    } else {
        base + seq!['/'] + rest
    }
}

/// Index of the last occurrence of `c` in `s`, or -1 when there is none.
pub open spec fn last_index(s: Seq<char>, c: char) -> int
    decreases s.len(),
{
    if s.len() == 0 {
        -1
    } else if s.last() == c {
        s.len() - 1
    } else {
        last_index(s.drop_last(), c)
    }
}

/// The last component of a path: everything after its final separator.
pub open spec fn file_name_spec(p: Seq<char>) -> Seq<char> {
    p.subrange(last_index(p, '/') + 1, p.len() as int)
}

/// The extension of a path's file name: what follows its final dot. A name
/// with no dot, a name whose only dot is its first character, and the names
/// `.` and `..` have none.
pub open spec fn extension_spec(p: Seq<char>) -> Option<Seq<char>> {
    let name = file_name_spec(p);
    let dot = last_index(name, '.');
    if dot <= 0 || name =~= seq!['.', '.'] {
        None
    } else {
        Some(name.subrange(dot + 1, name.len() as int))
    }
}

/// A file name without its extension.
pub open spec fn stem_spec(name: Seq<char>) -> Seq<char> {
    let dot = last_index(name, '.');
    if dot <= 0 || name =~= seq!['.', '.'] {
        name
    } else {
        name.subrange(0, dot)
    }
}

/// The last index of `c` is a position of `c`, or -1.
proof fn lemma_last_index_bounds(s: Seq<char>, c: char)
    ensures
        -1 <= last_index(s, c) < s.len(),
        last_index(s, c) >= 0 ==> s[last_index(s, c)] == c,
    decreases s.len(),
{
    if s.len() > 0 && s.last() != c {
        lemma_last_index_bounds(s.drop_last(), c);
    }
}

/// Index of the last `c` in `s`.
fn find_last(s: &str, c: char) -> (r: Option<usize>)
    ensures
        match r {
            Some(i) => i == last_index(s@, c),
            None => last_index(s@, c) == -1,
        },
{
    let n = s.unicode_len();
    let mut i: usize = n;
    proof {
        assert(s@.subrange(0, n as int) =~= s@);
    }
    while i > 0
        invariant
            i <= n,
            n == s@.len(),
            last_index(s@, c) == last_index(s@.subrange(0, i as int), c),
        decreases i,
    {
        let ch = s.get_char(i - 1);
        proof {
            assert(s@.subrange(0, i as int).drop_last() =~= s@.subrange(0, i - 1));
        }
        if ch == c {
            return Some(i - 1);
        }
        i = i - 1;
    }
    None
}

/// Joins `rest` onto `base` as a Unix path.
pub fn join(base: &str, rest: &str) -> (r: String)
    ensures
        r@ == join_spec(base@, rest@),
{
    let rest_len = rest.unicode_len();
    if rest_len > 0 && rest.get_char(0) == '/' {
        return String::from_str(rest);
    }
    let base_len = base.unicode_len();
    let mut r = String::from_str(base);
    if base_len > 0 && base.get_char(base_len - 1) != '/' {
        proof {
            reveal_strlit("/");
        }
        r.append("/");
    }
    r.append(rest);
    r
}

/// The last component of `path`.
pub fn file_name(path: &str) -> (r: &str)
    ensures
        r@ == file_name_spec(path@),
{
    proof {
        lemma_last_index_bounds(path@, '/');
    }
    let n = path.unicode_len();
    let start: usize = match find_last(path, '/') {
        Some(i) => i + 1,
        None => 0,
    };
    path.substring_char(start, n)
}

/// The extension of `path`'s file name, if it has one.
pub fn extension(path: &str) -> (r: Option<&str>)
    ensures
        match r {
            Some(e) => extension_spec(path@) == Some(e@),
            None => extension_spec(path@).is_none(),
        },
{
    let name = file_name(path);
    proof {
        lemma_last_index_bounds(name@, '.');
    }
    let n = name.unicode_len();
    match find_last(name, '.') {
        None => None,
        Some(dot) => {
            if dot == 0 || (n == 2 && name.get_char(0) == '.') {
                None
            } else {
                Some(name.substring_char(dot + 1, n))
            }
        },
    }
}

/// `name` without its extension.
pub fn stem(name: &str) -> (r: &str)
    ensures
        r@ == stem_spec(name@),
{
    proof {
        lemma_last_index_bounds(name@, '.');
    }
    let n = name.unicode_len();
    match find_last(name, '.') {
        None => name,
        Some(dot) => {
            if dot == 0 || (n == 2 && name.get_char(0) == '.') {
                name
            } else {
                name.substring_char(0, dot)
            }
        },
    }
}

} // verus!
