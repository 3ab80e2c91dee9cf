//! Small tools for text: characters that can be indexed, and strings built from
//! them.

use vstd::prelude::*;

verus! {

/// `String::push` appends one character to the end of the string.
pub assume_specification[ String::push ](s: &mut String, c: char)
    ensures
        final(s)@ == old(s)@.push(c),
;

/// The characters of `s`, in order, as a vector that can be indexed in constant time.
pub fn chars_of(s: &str) -> (v: Vec<char>)
    ensures
        v@ == s@,
{
    let mut v: Vec<char> = Vec::new();
    for c in it: s.chars()
        invariant
            it.seq() == s@,
            v@ == it.seq().take(it.index() as int),
    {
        v.push(c);
    }
    assert(v@ == s@);
    v
}

/// The string made of the characters `v[from..to]`.
pub(crate) fn string_of(v: &Vec<char>, from: usize, to: usize) -> (s: String)
    requires
        from <= to <= v.len(),
    ensures
        s@ == v@.subrange(from as int, to as int),
{
    let mut s = String::new();
    let mut i: usize = from;
    while i < to
        invariant
            from <= i <= to <= v.len(),
            s@ == v@.subrange(from as int, i as int),
        decreases to - i,
    {
        s.push(v[i]);
        i += 1;
    }
    s
}


/// Index of the first `c` in `s` at or after `from`; the length of `s` when there is none.
pub open spec fn first_index_of(s: Seq<char>, c: char, from: int) -> int
    decreases s.len() - from,
{
    if from < 0 || from >= s.len() {
        s.len() as int
    } else if s[from] == c {
        from
    } else {
        first_index_of(s, c, from + 1)
    }
}

/// `first_index_of` stays inside the text, stops on a `c` unless it reaches the end,
/// and passes over no `c` on its way.
pub proof fn lemma_first_index_of(s: Seq<char>, c: char, from: int)
    requires
        0 <= from <= s.len(),
    ensures
        from <= first_index_of(s, c, from) <= s.len(),
        first_index_of(s, c, from) < s.len() ==> s[first_index_of(s, c, from)] == c,
        forall|k: int| from <= k < first_index_of(s, c, from) ==> s[k] != c,
    decreases s.len() - from,
{
    if from < s.len() && s[from] != c {
        lemma_first_index_of(s, c, from + 1);
    }
}

/// An index `g` that stops on a `c`, or at the end, with no `c` between `from` and
/// it, is the one that `first_index_of` gives.
pub proof fn lemma_first_index_of_is(s: Seq<char>, c: char, from: int, g: int)
    requires
        0 <= from <= g <= s.len(),
        g < s.len() ==> s[g] == c,
        forall|k: int| from <= k < g ==> s[k] != c,
    ensures
        first_index_of(s, c, from) == g,
    decreases g - from,
{
    if from < g {
        lemma_first_index_of_is(s, c, from + 1, g);
    }
}

/// Finds the first `c` in `v` at or after `from`.
pub(crate) fn find_char(v: &Vec<char>, c: char, from: usize) -> (g: usize)
    requires
        from <= v.len(),
    ensures
        g == first_index_of(v@, c, from as int),
        from <= g <= v.len(),
{
    let mut k: usize = from;
    while k < v.len() && v[k] != c
        invariant
            from <= k <= v.len(),
            first_index_of(v@, c, k as int) == first_index_of(v@, c, from as int),
        decreases v.len() - k,
    {
        k += 1;
    }
    k
}


/// Adds the bytes of `bytes` to the end of `out`.
pub fn push_bytes(out: &mut Vec<u8>, bytes: &[u8])
    ensures
        final(out)@ == old(out)@ + bytes@,
{
    let ghost start = out@;
    let mut i: usize = 0;
    assert(out@ =~= start + bytes@.take(0));
    while i < bytes.len()
        invariant
            i <= bytes.len(),
            out@ == start + bytes@.take(i as int),
        decreases bytes.len() - i,
    {
        out.push(bytes[i]);
        assert(out@ =~= start + bytes@.take(i + 1));
        i += 1;
    }
    assert(bytes@.take(bytes.len() as int) =~= bytes@);
}


/// Adds the characters of `s` to the end of `out`.
pub fn push_text(out: &mut String, s: &str)
    ensures
        final(out)@ == old(out)@ + s@,
{
    let ghost start = out@;
    assert(out@ =~= start + s@.take(0));
    for c in it: s.chars()
        invariant
            it.seq() == s@,
            out@ == start + it.seq().take(it.index() as int),
    {
        out.push(c);
        assert(out@ =~= start + s@.take(it.index() + 1));
    }
    assert(s@.take(s@.len() as int) =~= s@);
}


/// The mathematical form of an optional text.
pub open spec fn text_of(value: Option<String>) -> Option<Seq<char>> {
    match value {
        Some(v) => Some(v@),
        None => None,
    }
}

/// The mathematical form of a text that may have come out as a complaint instead.
pub open spec fn texts_of(value: Result<String, String>) -> Result<Seq<char>, Seq<char>> {
    match value {
        Ok(v) => Ok(v@),
        Err(e) => Err(e@),
    }
}

} // verus!
