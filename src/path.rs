//! File names within a path, with `/` as the separator.
//!
//! The file name is the last component once trailing separators and `.`
//! components are dropped;
//! `.` and `..` name no file. Within it, the extension is what follows the
//! last `.`, unless that `.` is the first character.

use vstd::prelude::*;
use crate::text::slice_string;

verus! {

/// `p` without its trailing separators and trailing `.` components.
pub open spec fn trimmed_end(p: Seq<char>) -> Seq<char>
    decreases p.len(),
{
    if p.len() > 0 && p.last() == '/' {
        trimmed_end(p.drop_last())
    } else if p.len() >= 2 && p.last() == '.' && p[p.len() - 2] == '/' {
        trimmed_end(p.subrange(0, p.len() - 2))
    } else {
        p
    }
}

/// The index of the last `c` in `s`, or -1 where there is none.
pub open spec fn last_index(s: Seq<char>, c: char) -> int
    decreases s.len(),
{
    if s.len() == 0 {
        -1
    } else if s.last() == c {
        s.len() - 1
    } else {
        last_index(s.drop_last(), c)
    }
}

pub open spec fn file_name(p: Seq<char>) -> Option<Seq<char>> {
    let t = trimmed_end(p);
    let n = t.subrange(last_index(t, '/') + 1, t.len() as int);
    if n.len() == 0 || n == seq!['.'] || n == seq!['.', '.'] {
        None
    } else {
        Some(n)
    }
}

pub open spec fn file_stem(p: Seq<char>) -> Option<Seq<char>> {
    match file_name(p) {
        None => None,
        Some(n) => {
            let k = last_index(n, '.');
            if k <= 0 {
                Some(n)
            } else {
                Some(n.subrange(0, k))
            }
        },
    }
}

pub open spec fn extension(p: Seq<char>) -> Option<Seq<char>> {
    match file_name(p) {
        None => None,
        Some(n) => {
            let k = last_index(n, '.');
            if k <= 0 {
                None
            } else {
                Some(n.subrange(k + 1, n.len() as int))
            }
        },
    }
}

/// A Rust source file: its extension is `rs`.
pub open spec fn is_source_file(p: Seq<char>) -> bool {
    extension(p) == Some(seq!['r', 's'])
}

fn trimmed_len(p: &str) -> (r: usize)
    ensures
        r <= p@.len(),
        trimmed_end(p@) == p@.subrange(0, r as int),
{
    let mut i = p.unicode_len();
    assert(p@.subrange(0, i as int) =~= p@);
    while i > 0 && (p.get_char(i - 1) == '/' || (i >= 2 && p.get_char(i - 1) == '.'
        && p.get_char(i - 2) == '/'))
        invariant
            i <= p@.len(),
            trimmed_end(p@.subrange(0, i as int)) == trimmed_end(p@),
        decreases i,
    {
        if p.get_char(i - 1) == '/' {
            assert(p@.subrange(0, i as int).drop_last() =~= p@.subrange(0, i - 1));
            i = i - 1;
        } else {
            assert(p@.subrange(0, i as int).subrange(0, i - 2) =~= p@.subrange(0, i - 2));
            i = i - 2;
        }
    }
    i
}

/// One more than the index of the last `c` among the first `end` characters
/// of `s`, or 0 where there is none.
fn last_index_of(s: &str, end: usize, c: char) -> (r: usize)
    requires
        end <= s@.len(),
    ensures
        r == last_index(s@.subrange(0, end as int), c) + 1,
        r <= end,
{
    let mut i = end;
    while i > 0
        invariant
            i <= end <= s@.len(),
            last_index(s@.subrange(0, i as int), c) == last_index(s@.subrange(0, end as int), c),
        decreases i,
    {
        if s.get_char(i - 1) == c {
            assert(s@.subrange(0, i as int).last() == c);
            return i;
        }
        assert(s@.subrange(0, i as int).drop_last() =~= s@.subrange(0, i - 1));
        i = i - 1;
    }
    0
}

/// The file name of `p`, as the start and end of its characters.
fn file_name_bounds(p: &str) -> (r: Option<(usize, usize)>)
    ensures
        match r {
            None => file_name(p@) is None,
            Some((a, b)) => a <= b <= p@.len() && file_name(p@) == Some(p@.subrange(a as int, b as int)),
        },
{
    let t = trimmed_len(p);
    let k = last_index_of(p, t, '/');
    let start = k;
    proof {
        let tt = trimmed_end(p@);
        assert(tt.subrange(start as int, t as int) =~= p@.subrange(start as int, t as int));
    }
    let n = t - start;
    if n == 0 {
        return None;
    }
    if n == 1 && p.get_char(start) == '.' {
        assert(p@.subrange(start as int, t as int) =~= seq!['.']);
        return None;
    }
    if n == 2 && p.get_char(start) == '.' && p.get_char(start + 1) == '.' {
        assert(p@.subrange(start as int, t as int) =~= seq!['.', '.']);
        return None;
    }
    proof {
        let m = p@.subrange(start as int, t as int);
        if n == 1 {
            assert(m[0] != '.');
            assert(m != seq!['.']);
        }
        if n == 2 {
            assert(m[0] != '.' || m[1] != '.');
            assert(m != seq!['.', '.']);
        }
    }
    Some((start, t))
}

/// The file stem of `p`: its file name without the extension.
pub fn path_file_stem(p: &str) -> (r: Option<String>)
    ensures
        match r {
            None => file_stem(p@) is None,
            Some(s) => file_stem(p@) == Some(s@),
        },
{
    match file_name_bounds(p) {
        None => None,
        Some((a, b)) => {
            let name = slice_string(p, a, b);
            let k = last_index_of(name.as_str(), b - a, '.');
            assert(name@.subrange(0, (b - a) as int) =~= name@);
            if k <= 1 {
                Some(name)
            } else {
                Some(slice_string(name.as_str(), 0, k - 1))
            }
        },
    }
}

/// Whether `p` names a Rust source file.
pub fn is_rust_source(p: &str) -> (r: bool)
    ensures
        r == is_source_file(p@),
{
    match file_name_bounds(p) {
        None => false,
        Some((a, b)) => {
            let name = slice_string(p, a, b);
            let k = last_index_of(name.as_str(), b - a, '.');
            assert(name@.subrange(0, (b - a) as int) =~= name@);
            if k <= 1 {
                false
            } else {
                let m = b - a;
                let ku = k - 1;
                let e = m >= 3 && ku == m - 3 && name.as_str().get_char(ku + 1) == 'r'
                    && name.as_str().get_char(ku + 2) == 's';
                proof {
                    let ext = name@.subrange(k as int, m as int);
                    if m >= 3 && ku == m - 3 {
                        if e {
                            assert(ext =~= seq!['r', 's']);
                        } else {
                            assert(ext[0] != 'r' || ext[1] != 's');
                        }
                    } else {
                        assert(ext.len() != 2);
                    }
                }
                e
            }
        },
    }
}

} // verus!
