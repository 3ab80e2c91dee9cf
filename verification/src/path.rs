//! The file name and the extension of a path that is written with `/` between its
//! segments.
//!
//! The file name is the last segment that names something: a `/` at the end of the
//! path and segments that are a single `.` are passed over, and a path that ends
//! in `..` has no file name. The extension is what follows the last dot of the
//! file name, unless that dot is the first character of the name.

use vstd::prelude::*;
use crate::text::{chars_of, string_of};

verus! {

/// Index just past the last segment of `p`, below `k`, that is neither empty nor
/// a single `.`; 0 where there is no such segment.
pub open spec fn name_end(p: Seq<char>, k: int) -> int
    decreases k,
{
    if k <= 0 || k > p.len() {
        0
    } else if p[k - 1] == '/' {
        name_end(p, k - 1)
    } else if p[k - 1] == '.' && (k == 1 || p[k - 2] == '/') {
        name_end(p, k - 1)
    } else {
        k
    }
}

/// Index at which the segment that ends at `e` starts.
pub open spec fn name_start(p: Seq<char>, e: int) -> int
    decreases e,
{
    if e <= 0 || e > p.len() {
        0
    } else if p[e - 1] == '/' {
        e
    } else {
        name_start(p, e - 1)
    }
}

/// Where the file name of `p` ends; 0 for a path without one.
pub open spec fn file_name_end(p: Seq<char>) -> int {
    name_end(p, p.len() as int)
}

/// Where the file name of `p` starts.
pub open spec fn file_name_start(p: Seq<char>) -> int {
    name_start(p, file_name_end(p))
}

/// The path has a file name: a last segment that names something, other than
/// `..`.
pub open spec fn has_file_name(p: Seq<char>) -> bool {
    let s = file_name_start(p);
    let e = file_name_end(p);
    e > 0 && !(e - s == 2 && p[s] == '.' && p[s + 1] == '.')
}

/// Index of the last `.` of `p` below `k` and behind the character at `s`; -1
/// where there is none.
pub open spec fn dot_below(p: Seq<char>, s: int, k: int) -> int
    decreases k,
{
    if k <= 0 || k <= s + 1 || k > p.len() {
        -1
    } else if p[k - 1] == '.' {
        k - 1
    } else {
        dot_below(p, s, k - 1)
    }
}

/// Index of the dot that opens the extension of the file name of `p`; -1 where
/// the file name has no extension.
pub open spec fn extension_dot(p: Seq<char>) -> int {
    dot_below(p, file_name_start(p), file_name_end(p))
}

/// Where the stem of the file name of `p` ends: at the dot of the extension, or
/// with the file name where it has no extension.
pub open spec fn stem_end(p: Seq<char>) -> int {
    if extension_dot(p) >= 0 {
        extension_dot(p)
    } else {
        file_name_end(p)
    }
}

/// The extension of `p`, without its dot; empty for a path without one.
pub open spec fn extension_of(p: Seq<char>) -> Seq<char> {
    if has_file_name(p) && extension_dot(p) >= 0 {
        p.subrange(extension_dot(p) + 1, file_name_end(p))
    } else {
        Seq::empty()
    }
}

/// `p` with the extension `ext`: the path up to the end of the stem of its file
/// name, a dot, and `ext`. A path without a file name stays as it is.
pub open spec fn with_extension(p: Seq<char>, ext: Seq<char>) -> Seq<char> {
    if has_file_name(p) {
        p.subrange(0, stem_end(p)) + seq!['.'] + ext
    } else {
        p
    }
}

/// The file name lies inside the path, and the dot of its extension inside the
/// file name, behind its first character.
pub proof fn lemma_file_name_bounds(p: Seq<char>)
    ensures
        0 <= file_name_start(p) <= file_name_end(p) <= p.len(),
        has_file_name(p) ==> file_name_start(p) < file_name_end(p),
        extension_dot(p) >= 0 ==> file_name_start(p) < extension_dot(p) < file_name_end(p),
        file_name_start(p) <= stem_end(p) <= file_name_end(p),
{
    lemma_name_end_bounds(p, p.len() as int);
    lemma_name_start_bounds(p, file_name_end(p));
    if file_name_end(p) > 0 {
        lemma_name_start_bounds(p, file_name_end(p) - 1);
    }
    lemma_dot_below_bounds(p, file_name_start(p), file_name_end(p));
}

proof fn lemma_name_end_bounds(p: Seq<char>, k: int)
    requires
        0 <= k <= p.len(),
    ensures
        0 <= name_end(p, k) <= k,
        name_end(p, k) > 0 ==> p[name_end(p, k) - 1] != '/',
    decreases k,
{
    if k > 0 {
        lemma_name_end_bounds(p, k - 1);
    }
}

proof fn lemma_name_start_bounds(p: Seq<char>, e: int)
    requires
        0 <= e <= p.len(),
    ensures
        0 <= name_start(p, e) <= e,
    decreases e,
{
    if e > 0 {
        lemma_name_start_bounds(p, e - 1);
    }
}

proof fn lemma_dot_below_bounds(p: Seq<char>, s: int, k: int)
    requires
        0 <= s,
        0 <= k <= p.len(),
    ensures
        dot_below(p, s, k) == -1 || s < dot_below(p, s, k) < k,
    decreases k,
{
    if k > s + 1 {
        lemma_dot_below_bounds(p, s, k - 1);
    }
}

/// What a path was found to hold: where its file name starts and ends, and where
/// the stem of the file name ends.
pub(crate) struct Parts {
    pub named: bool,
    pub stem_end: usize,
    pub dot: bool,
    pub end: usize,
}

/// Finds the file name of a path and the dot of its extension.
pub(crate) fn parts_of(v: &Vec<char>) -> (parts: Parts)
    ensures
        parts.named == has_file_name(v@),
        parts.end == file_name_end(v@),
        parts.dot == (extension_dot(v@) >= 0),
        parts.stem_end == stem_end(v@),
        parts.stem_end <= parts.end <= v.len(),
        parts.dot ==> parts.stem_end < parts.end,
{
    proof {
        lemma_file_name_bounds(v@);
    }
    let mut e: usize = v.len();
    while e > 0 && (v[e - 1] == '/' || (v[e - 1] == '.' && (e == 1 || v[e - 2] == '/')))
        invariant
            e <= v.len(),
            name_end(v@, e as int) == file_name_end(v@),
        decreases e,
    {
        e -= 1;
    }
    let mut s: usize = e;
    while s > 0 && v[s - 1] != '/'
        invariant
            s <= e <= v.len(),
            name_start(v@, s as int) == file_name_start(v@),
        decreases s,
    {
        s -= 1;
    }
    let named = e > 0 && !(e - s == 2 && v[s] == '.' && v[s + 1] == '.');
    let mut k: usize = e;
    while k - s > 1 && v[k - 1] != '.'
        invariant
            s <= k <= e <= v.len(),
            dot_below(v@, s as int, k as int) == extension_dot(v@),
        decreases k,
    {
        k -= 1;
    }
    if k - s > 1 {
        Parts { named, stem_end: k - 1, dot: true, end: e }
    } else {
        Parts { named, stem_end: e, dot: false, end: e }
    }
}

/// Gives the extension of a path, without its dot; the empty text for a path
/// without one.
pub fn extension(path: &str) -> (ext: String)
    ensures
        ext@ == extension_of(path@),
{
    let v = chars_of(path);
    let parts = parts_of(&v);
    if parts.named && parts.dot {
        string_of(&v, parts.stem_end + 1, parts.end)
    } else {
        String::new()
    }
}

/// Two paths with the same file name have the same extension, whatever
/// directories lead to them.
pub proof fn lemma_extension_ignores_directory(dir: Seq<char>, name: Seq<char>)
    requires
        forall|i: int| 0 <= i < name.len() ==> name[i] != '/',
        name.len() > 0,
        dir.len() > 0 ==> dir.last() == '/',
        !(name.len() == 1 && name[0] == '.'),
    ensures
        extension_of(dir + name) == extension_of(name),
{
    let p = dir + name;
    let d = dir.len() as int;
    let n = name.len() as int;
    assert(p.last() == name.last());
    assert(name_end(p, d + n) == d + n) by {
        if name.last() == '.' {
            assert(p[d + n - 2] == name[n - 2]);
        }
    }
    assert(name_end(name, n) == n);
    lemma_name_start_shifts(dir, name, n);
    assert(name_start(name, n) == 0) by {
        lemma_name_start_of_segment(name, n);
    }
    lemma_dot_below_shifts(dir, name, n);
    assert(p.subrange(d, d + n) =~= name);
    if has_file_name(name) && extension_dot(name) >= 0 {
        lemma_dot_below_bounds(name, 0, n);
        assert(p.subrange(d + extension_dot(name) + 1, d + n) =~= name.subrange(
            extension_dot(name) + 1,
            n,
        ));
    }
    assert(p[d] == name[0]);
    if n >= 2 {
        assert(p[d + 1] == name[1]);
    }
}

proof fn lemma_name_start_of_segment(name: Seq<char>, e: int)
    requires
        0 <= e <= name.len(),
        forall|i: int| 0 <= i < name.len() ==> name[i] != '/',
    ensures
        name_start(name, e) == 0,
    decreases e,
{
    if e > 0 {
        lemma_name_start_of_segment(name, e - 1);
    }
}

proof fn lemma_name_start_shifts(dir: Seq<char>, name: Seq<char>, e: int)
    requires
        0 <= e <= name.len(),
        forall|i: int| 0 <= i < name.len() ==> name[i] != '/',
        dir.len() > 0 ==> dir.last() == '/',
    ensures
        name_start(dir + name, dir.len() + e) == dir.len(),
    decreases e,
{
    let p = dir + name;
    if e > 0 {
        assert(p[dir.len() + e - 1] == name[e - 1]);
        lemma_name_start_shifts(dir, name, e - 1);
    } else if dir.len() > 0 {
        assert(p[dir.len() - 1] == dir.last());
    }
}

proof fn lemma_dot_below_shifts(dir: Seq<char>, name: Seq<char>, k: int)
    requires
        0 <= k <= name.len(),
    ensures
        dot_below(dir + name, dir.len() as int, dir.len() + k) == if dot_below(name, 0, k) >= 0 {
            dir.len() + dot_below(name, 0, k)
        } else {
            -1
        },
    decreases k,
{
    let p = dir + name;
    if k > 1 {
        assert(p[dir.len() + k - 1] == name[k - 1]);
        lemma_dot_below_shifts(dir, name, k - 1);
    }
}

} // verus!
