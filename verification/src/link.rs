//! The one pattern by which a link is recovered from a fragment of raw HTML.
//!
//! A markdown parser hands raw HTML through as opaque text. An author may still
//! have written an anchor or an image there, so the fragment is searched for the
//! first `<a ` or `<img ` that carries, before its closing `>`, a `src="` or
//! `href="` with a non-empty quoted value. Only that first value is taken.

use vstd::prelude::*;
use crate::text::{chars_of, find_char, first_index_of, string_of, text_of};

verus! {

/// Length of the tag opening that stands at `i`: 3 for `<a `, 5 for `<img `, and 0
/// where neither stands there.
pub open spec fn link_tag_len(s: Seq<char>, i: int) -> int {
    if 0 <= i && i + 3 <= s.len() && s[i] == '<' && s[i + 1] == 'a' && s[i + 2] == ' ' {
        3
    } else if 0 <= i && i + 5 <= s.len() && s[i] == '<' && s[i + 1] == 'i' && s[i + 2] == 'm'
        && s[i + 3] == 'g' && s[i + 4] == ' ' {
        5
    } else {
        0
    }
}

/// Length of the attribute opening that stands at `k`: 5 for `src="`, 6 for
/// `href="`, and 0 where neither stands there.
pub open spec fn link_attr_len(s: Seq<char>, k: int) -> int {
    if 0 <= k && k + 5 <= s.len() && s[k] == 's' && s[k + 1] == 'r' && s[k + 2] == 'c' && s[k + 3]
        == '=' && s[k + 4] == '"' {
        5
    } else if 0 <= k && k + 6 <= s.len() && s[k] == 'h' && s[k + 1] == 'r' && s[k + 2] == 'e'
        && s[k + 3] == 'f' && s[k + 4] == '=' && s[k + 5] == '"' {
        6
    } else {
        0
    }
}

/// The quoted value of the link attribute that opens at `k`: the text up to the
/// next `"`, where an attribute opens there, the value is not empty and the quote
/// is closed.
pub open spec fn attr_value_at(s: Seq<char>, k: int) -> Option<Seq<char>> {
    let a = link_attr_len(s, k);
    let q = first_index_of(s, '"', k + a);
    if a > 0 && k + a < q && q < s.len() {
        Some(s.subrange(k + a, q))
    } else {
        None
    }
}

/// The first link attribute value found from `k` on, before any `>`.
pub open spec fn attr_value_from(s: Seq<char>, k: int) -> Option<Seq<char>>
    decreases s.len() - k,
{
    if k < 0 || k >= s.len() || s[k] == '>' {
        None
    } else if attr_value_at(s, k) is Some {
        attr_value_at(s, k)
    } else {
        attr_value_from(s, k + 1)
    }
}

/// The link of the first tag, from `i` on, that carries one.
pub open spec fn link_from(s: Seq<char>, i: int) -> Option<Seq<char>>
    decreases s.len() - i,
{
    if i < 0 || i >= s.len() {
        None
    } else if link_tag_len(s, i) > 0 && attr_value_from(s, i + link_tag_len(s, i)) is Some {
        attr_value_from(s, i + link_tag_len(s, i))
    } else {
        link_from(s, i + 1)
    }
}

/// The first link that a fragment of raw HTML carries, if it carries one.
pub open spec fn first_link(s: Seq<char>) -> Option<Seq<char>> {
    link_from(s, 0)
}

/// A link that is found is never empty.
pub proof fn lemma_link_not_empty(s: Seq<char>)
    ensures
        first_link(s) matches Some(l) ==> l.len() > 0,
{
    lemma_link_from_not_empty(s, 0);
}

proof fn lemma_link_from_not_empty(s: Seq<char>, i: int)
    ensures
        link_from(s, i) matches Some(l) ==> l.len() > 0,
    decreases s.len() - i,
{
    if 0 <= i < s.len() {
        let t = link_tag_len(s, i);
        if t > 0 && attr_value_from(s, i + t) is Some {
            lemma_attr_value_not_empty(s, i + t);
        } else {
            lemma_link_from_not_empty(s, i + 1);
        }
    }
}

proof fn lemma_attr_value_not_empty(s: Seq<char>, k: int)
    ensures
        attr_value_from(s, k) matches Some(l) ==> l.len() > 0,
    decreases s.len() - k,
{
    if 0 <= k < s.len() && s[k] != '>' {
        if attr_value_at(s, k) is None {
            lemma_attr_value_not_empty(s, k + 1);
        }
    }
}

fn tag_len_at(v: &Vec<char>, i: usize) -> (t: usize)
    requires
        i < v.len(),
    ensures
        t == link_tag_len(v@, i as int),
{
    let room = v.len() - i;
    if room >= 3 && v[i] == '<' && v[i + 1] == 'a' && v[i + 2] == ' ' {
        3
    } else if room >= 5 && v[i] == '<' && v[i + 1] == 'i' && v[i + 2] == 'm' && v[i + 3] == 'g'
        && v[i + 4] == ' ' {
        5
    } else {
        0
    }
}

fn attr_len_at(v: &Vec<char>, k: usize) -> (a: usize)
    requires
        k < v.len(),
    ensures
        a == link_attr_len(v@, k as int),
{
    let room = v.len() - k;
    if room >= 5 && v[k] == 's' && v[k + 1] == 'r' && v[k + 2] == 'c' && v[k + 3] == '=' && v[k
        + 4] == '"' {
        5
    } else if room >= 6 && v[k] == 'h' && v[k + 1] == 'r' && v[k + 2] == 'e' && v[k + 3] == 'f'
        && v[k + 4] == '=' && v[k + 5] == '"' {
        6
    } else {
        0
    }
}

/// The bounds of the value of the link attribute that opens at `k`.
fn value_at(v: &Vec<char>, k: usize) -> (r: Option<(usize, usize)>)
    requires
        k < v.len(),
    ensures
        r is Some <==> attr_value_at(v@, k as int) is Some,
        r matches Some((from, to)) ==> from <= to <= v.len() && attr_value_at(v@, k as int)
            == Some(v@.subrange(from as int, to as int)),
{
    let a = attr_len_at(v, k);
    if a == 0 {
        return None;
    }
    let q = find_char(v, '"', k + a);
    if k + a < q && q < v.len() {
        Some((k + a, q))
    } else {
        None
    }
}

/// The bounds of the first link attribute value from `k` on, before any `>`.
fn value_from(v: &Vec<char>, k: usize) -> (r: Option<(usize, usize)>)
    requires
        k <= v.len(),
    ensures
        r is Some <==> attr_value_from(v@, k as int) is Some,
        r matches Some((from, to)) ==> from <= to <= v.len() && attr_value_from(v@, k as int)
            == Some(v@.subrange(from as int, to as int)),
{
    let mut j: usize = k;
    while j < v.len() && v[j] != '>'
        invariant
            k <= j <= v.len(),
            attr_value_from(v@, j as int) == attr_value_from(v@, k as int),
        decreases v.len() - j,
    {
        let found = value_at(v, j);
        if found.is_some() {
            return found;
        }
        j += 1;
    }
    None
}

/// Recovers the first link from a fragment of raw HTML: the value of the first
/// `src` or `href` attribute, quoted and not empty, of the first `<a ` or `<img `
/// tag that has one before its closing `>`.
pub fn html_link(html: &str) -> (link: Option<String>)
    ensures
        text_of(link) == first_link(html@),
{
    let v = chars_of(html);
    let mut i: usize = 0;
    while i < v.len()
        invariant
            i <= v.len(),
            v@ == html@,
            link_from(v@, i as int) == link_from(v@, 0),
        decreases v.len() - i,
    {
        let t = tag_len_at(&v, i);
        if t > 0 {
            match value_from(&v, i + t) {
                Some((from, to)) => {
                    return Some(string_of(&v, from, to));
                },
                None => {},
            }
        }
        i += 1;
    }
    None
}

} // verus!
