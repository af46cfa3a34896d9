//! File names of paths written as text, with `/` separating components.
//!
//! The library models Unix paths, as the program is built for Unix: `/` is the only separator
//! (on Windows `std::path` also splits at `\\`, which is not modelled here).
//!
//! This follows `std::path::Path` on Unix: trailing separators and `.` components are skipped,
//! a final `..` has no file name, and the stem and extension split the file name at its last
//! dot unless that dot starts the name.

use vstd::prelude::*;
use crate::text::subvec;

verus! {

/// Start of the separator-free run of `p` that ends at `end`.
pub open spec fn seg_begin(p: Seq<char>, end: int) -> int
    decreases end,
{
    if end <= 0 {
        0
    } else if p[end - 1] == '/' {
        end
    } else {
        seg_begin(p, end - 1)
    }
}

pub proof fn lemma_seg_begin(p: Seq<char>, end: int)
    requires
        0 <= end <= p.len(),
    ensures
        0 <= seg_begin(p, end) <= end,
        forall|j: int| seg_begin(p, end) <= j < end ==> p[j] != '/',
        seg_begin(p, end) == 0 || p[seg_begin(p, end) - 1] == '/',
    decreases end,
{
    if end > 0 && p[end - 1] != '/' {
        lemma_seg_begin(p, end - 1);
    }
}

/// The file name of the prefix `p[..end]`.
pub open spec fn name_from(p: Seq<char>, end: int) -> Option<Seq<char>>
    decreases end,
{
    if end <= 0 || end > p.len() {
        None
    } else if p[end - 1] == '/' {
        name_from(p, end - 1)
    } else {
        let b = seg_begin(p, end);
        let seg = p.subrange(b, end);
        if seg == seq!['.'] {
            if b == 0 {
                None
            } else {
                proof {
                    lemma_seg_begin(p, end - 1);
                }
                name_from(p, b)
            }
        } else if seg == seq!['.', '.'] {
            None
        } else {
            Some(seg)
        }
    }
}

/// The last component of a path (`Path::file_name`).
pub open spec fn file_name(p: Seq<char>) -> Option<Seq<char>> {
    name_from(p, p.len() as int)
}

/// Position of the last `.` in a name, or -1.
pub open spec fn last_dot(n: Seq<char>) -> int
    decreases n.len(),
{
    if n.len() == 0 {
        -1
    } else if n.last() == '.' {
        n.len() - 1
    } else {
        last_dot(n.drop_last())
    }
}

/// The stem of a file name.
pub open spec fn stem_of(n: Seq<char>) -> Seq<char> {
    let d = last_dot(n);
    if d <= 0 {
        n
    } else {
        n.take(d)
    }
}

/// The extension of a file name.
pub open spec fn ext_of(n: Seq<char>) -> Option<Seq<char>> {
    let d = last_dot(n);
    if d <= 0 {
        None
    } else {
        Some(n.skip(d + 1))
    }
}

/// `Path::file_stem`.
pub open spec fn file_stem(p: Seq<char>) -> Option<Seq<char>> {
    match file_name(p) {
        Some(n) => Some(stem_of(n)),
        None => None,
    }
}

/// `Path::extension`.
pub open spec fn extension(p: Seq<char>) -> Option<Seq<char>> {
    match file_name(p) {
        Some(n) => ext_of(n),
        None => None,
    }
}

pub proof fn lemma_last_dot(n: Seq<char>)
    ensures
        -1 <= last_dot(n) < n.len(),
        last_dot(n) >= 0 ==> n[last_dot(n)] == '.',
        forall|j: int| last_dot(n) < j < n.len() ==> n[j] != '.',
    decreases n.len(),
{
    if n.len() > 0 && n.last() != '.' {
        lemma_last_dot(n.drop_last());
        assert forall|j: int| last_dot(n) < j < n.len() implies n[j] != '.' by {
            if j < n.len() - 1 {
                assert(n.drop_last()[j] == n[j]);
            }
        }
    }
}

/// The file name of the path `p`, as characters.
pub fn file_name_chars(p: &Vec<char>) -> (r: Option<Vec<char>>)
    ensures
        match r {
            Some(n) => file_name(p@) == Some(n@),
            None => file_name(p@) is None,
        },
{
    let mut end: usize = p.len();
    loop
        invariant
            end <= p.len(),
            name_from(p@, end as int) == file_name(p@),
        decreases end,
    {
        if end == 0 {
            return None;
        }
        if p[end - 1] == '/' {
            end = end - 1;
        } else {
            let mut b: usize = end;
            while b > 0 && p[b - 1] != '/'
                invariant
                    b <= end <= p.len(),
                    p@[end - 1] != '/',
                    seg_begin(p@, b as int) == seg_begin(p@, end as int),
                    b < end ==> p@[b as int] != '/',
                decreases b,
            {
                b = b - 1;
            }
            proof {
                lemma_seg_begin(p@, end as int);
            }
            let seg = subvec(p, b, end);
            if seg.len() == 1 && seg[0] == '.' {
                assert(seg@ =~= seq!['.']);
                if b == 0 {
                    return None;
                }
                end = b;
            } else if seg.len() == 2 && seg[0] == '.' && seg[1] == '.' {
                assert(seg@ =~= seq!['.', '.']);
                return None;
            } else {
                assert(seg@ != seq!['.']);
                assert(seg@ != seq!['.', '.']);
                return Some(seg);
            }
        }
    }
}

/// Position of the last `.` in `n`, if it is past the first character.
fn inner_dot(n: &Vec<char>) -> (r: usize)
    ensures
        r == 0 <==> last_dot(n@) <= 0,
        r > 0 ==> r == last_dot(n@),
{
    proof {
        lemma_last_dot(n@);
    }
    let mut i: usize = n.len();
    assert(n@.take(i as int) =~= n@);
    while i > 0 && n[i - 1] != '.'
        invariant
            i <= n.len(),
            last_dot(n@) == last_dot(n@.take(i as int)),
        decreases i,
    {
        assert(n@.take(i as int).drop_last() == n@.take(i - 1));
        i = i - 1;
    }
    if i == 0 {
        assert(n@.take(0).len() == 0);
        0
    } else {
        assert(n@.take(i as int).last() == '.');
        i - 1
    }
}

/// The stem of the file name of `p`.
pub fn file_stem_chars(p: &Vec<char>) -> (r: Option<Vec<char>>)
    ensures
        match r {
            Some(n) => file_stem(p@) == Some(n@),
            None => file_stem(p@) is None,
        },
{
    match file_name_chars(p) {
        None => None,
        Some(n) => {
            let d = inner_dot(&n);
            if d == 0 {
                Some(n)
            } else {
                proof {
                    lemma_last_dot(n@);
                }
                Some(subvec(&n, 0, d))
            }
        },
    }
}

/// The extension of the file name of `p`.
pub fn extension_chars(p: &Vec<char>) -> (r: Option<Vec<char>>)
    ensures
        match r {
            Some(n) => extension(p@) == Some(n@),
            None => extension(p@) is None,
        },
{
    match file_name_chars(p) {
        None => None,
        Some(n) => {
            let d = inner_dot(&n);
            if d == 0 {
                None
            } else {
                proof {
                    lemma_last_dot(n@);
                }
                Some(subvec(&n, d + 1, n.len()))
            }
        },
    }
}

} // verus!
