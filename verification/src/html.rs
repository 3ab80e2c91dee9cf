//! Textual fix-ups applied to rendered chapter HTML.
//!
//! The container format wants every image inside a block element. A rendered
//! chapter has a constrained shape, so the fix is a scanner over characters and
//! not an HTML parser: it looks for self-closing image elements and encloses each
//! one in a paragraph, unless the element is already enclosed in one.

use vstd::prelude::*;
use crate::text::{
    chars_of, find_char, first_index_of, lemma_first_index_of, lemma_first_index_of_is,
};

verus! {

/// White space as Unicode defines it (the `White_Space` property).
pub open spec fn is_space(c: char) -> bool {
    let n = c as u32;
    ||| 0x09 <= n <= 0x0d
    ||| n == 0x20
    ||| n == 0x85
    ||| n == 0xa0
    ||| n == 0x1680
    ||| 0x2000 <= n <= 0x200a
    ||| n == 0x2028
    ||| n == 0x2029
    ||| n == 0x202f
    ||| n == 0x205f
    ||| n == 0x3000
}

/// The opening of the enclosing paragraph.
pub open spec fn p_open() -> Seq<char> {
    seq!['<', 'p', '>']
}

/// The closing of the enclosing paragraph.
pub open spec fn p_close() -> Seq<char> {
    seq!['<', '/', 'p', '>']
}

/// Index of the first `>` at or after `from`; the length of `s` when there is none.
pub open spec fn tag_close(s: Seq<char>, from: int) -> int {
    first_index_of(s, '>', from)
}

/// `s` holds the five characters that open an image element at `i`:
/// `<img` and one white space.
pub open spec fn img_opens_at(s: Seq<char>, i: int) -> bool {
    &&& 0 <= i
    &&& i + 5 <= s.len()
    &&& s[i] == '<'
    &&& s[i + 1] == 'i'
    &&& s[i + 2] == 'm'
    &&& s[i + 3] == 'g'
    &&& is_space(s[i + 4])
}

/// A self-closing image element starts at `i`: it opens there, and the first `>`
/// after the opening is preceded by `/`.
pub open spec fn img_at(s: Seq<char>, i: int) -> bool {
    &&& img_opens_at(s, i)
    &&& tag_close(s, i + 5) < s.len()
    &&& s[tag_close(s, i + 5) - 1] == '/'
}

/// The index just past the image element that starts at `i`.
pub open spec fn img_end(s: Seq<char>, i: int) -> int {
    tag_close(s, i + 5) + 1
}

/// The text `s[i..e]` stands directly between `<p>` and `</p>`.
pub open spec fn enclosed(s: Seq<char>, i: int, e: int) -> bool {
    &&& 3 <= i
    &&& s[i - 3] == '<'
    &&& s[i - 2] == 'p'
    &&& s[i - 1] == '>'
    &&& e + 4 <= s.len()
    &&& s[e] == '<'
    &&& s[e + 1] == '/'
    &&& s[e + 2] == 'p'
    &&& s[e + 3] == '>'
}

/// What the fix makes of `s[i..]`, reading `s` from left to right: an image element
/// is copied as it stands where it is already enclosed, and enclosed in `<p>` and
/// `</p>` where it is not; every other character is copied.
pub open spec fn fixed_from(s: Seq<char>, i: int) -> Seq<char>
    decreases s.len() - i,
{
    if i < 0 || i >= s.len() {
        Seq::empty()
    } else if img_at(s, i) {
        proof {
            lemma_first_index_of(s, '>', i + 5);
        }
        let e = img_end(s, i);
        if enclosed(s, i, e) {
            s.subrange(i, e) + fixed_from(s, e)
        } else {
            p_open() + s.subrange(i, e) + p_close() + fixed_from(s, e)
        }
    } else {
        seq![s[i]] + fixed_from(s, i + 1)
    }
}

/// The fixed form of a whole document.
pub open spec fn fixed_html(s: Seq<char>) -> Seq<char> {
    fixed_from(s, 0)
}

/// Tells whether `c` is white space.
pub fn is_space_char(c: char) -> (b: bool)
    ensures
        b == is_space(c),
{
    let n: u32 = c as u32;
    (0x09 <= n && n <= 0x0d) || n == 0x20 || n == 0x85 || n == 0xa0 || n == 0x1680 || (0x2000 <= n
        && n <= 0x200a) || n == 0x2028 || n == 0x2029 || n == 0x202f || n == 0x205f || n == 0x3000
}

/// Looks for an image element that starts at `i`, and gives the index just past it.
fn image_at(v: &Vec<char>, i: usize) -> (r: Option<usize>)
    requires
        i < v.len(),
    ensures
        r is Some <==> img_at(v@, i as int),
        r matches Some(e) ==> e == img_end(v@, i as int) && i + 7 <= e <= v.len(),
{
    if v.len() - i < 5 {
        return None;
    }
    if !(v[i] == '<' && v[i + 1] == 'i' && v[i + 2] == 'm' && v[i + 3] == 'g' && is_space_char(
        v[i + 4],
    )) {
        return None;
    }
    let g = find_char(v, '>', i + 5);
    if g < v.len() && v[g - 1] == '/' {
        Some(g + 1)
    } else {
        None
    }
}

/// Tells whether `v[i..e]` stands directly between `<p>` and `</p>`.
fn is_enclosed(v: &Vec<char>, i: usize, e: usize) -> (b: bool)
    requires
        i <= e <= v.len(),
    ensures
        b == enclosed(v@, i as int, e as int),
{
    i >= 3 && v[i - 3] == '<' && v[i - 2] == 'p' && v[i - 1] == '>' && v.len() - e >= 4 && v[e]
        == '<' && v[e + 1] == '/' && v[e + 2] == 'p' && v[e + 3] == '>'
}

/// Encloses in a paragraph every self-closing image element of `html` that is not
/// enclosed in one already, and leaves the rest of the text as it is.
pub fn fix_img(html: &str) -> (out: String)
    ensures
        out@ == fixed_html(html@),
{
    let v = chars_of(html);
    let mut out = String::new();
    let mut i: usize = 0;
    while i < v.len()
        invariant
            i <= v.len(),
            v@ == html@,
            out@ + fixed_from(v@, i as int) == fixed_from(v@, 0),
        decreases v.len() - i,
    {
        let ghost before = out@;
        match image_at(&v, i) {
            Some(e) => {
                let bare = !is_enclosed(&v, i, e);
                if bare {
                    out.push('<');
                    out.push('p');
                    out.push('>');
                }
                let ghost opened = out@;
                let mut k: usize = i;
                while k < e
                    invariant
                        i <= k <= e <= v.len(),
                        out@ == opened + v@.subrange(i as int, k as int),
                    decreases e - k,
                {
                    out.push(v[k]);
                    k += 1;
                }
                if bare {
                    out.push('<');
                    out.push('/');
                    out.push('p');
                    out.push('>');
                }
                proof {
                    let piece = v@.subrange(i as int, e as int);
                    if bare {
                        assert(opened == before + p_open());
                        assert(out@ == before + (p_open() + piece + p_close()));
                    } else {
                        assert(out@ == before + piece);
                    }
                    assert(out@ + fixed_from(v@, e as int) == before + fixed_from(v@, i as int));
                }
                i = e;
            },
            None => {
                out.push(v[i]);
                proof {
                    assert(out@ + fixed_from(v@, i + 1) == before + fixed_from(v@, i as int));
                }
                i += 1;
            },
        }
    }
    out
}

/// Applies every structural fix that the container format asks of chapter HTML.
pub fn fix_html(html: &str) -> (out: String)
    ensures
        out@ == fixed_html(html@),
{
    fix_img(html)
}

/// An image element is found again wherever its characters stand: if `t` holds at
/// `p` the characters that `s` holds from `i` to the end of the image element at
/// `i`, then an image element of the same length starts at `p` in `t`.
pub proof fn lemma_image_moves(s: Seq<char>, i: int, t: Seq<char>, p: int)
    requires
        img_at(s, i),
        0 <= p,
        p + (img_end(s, i) - i) <= t.len(),
        t.subrange(p, p + (img_end(s, i) - i)) == s.subrange(i, img_end(s, i)),
    ensures
        img_at(t, p),
        img_end(t, p) == p + (img_end(s, i) - i),
{
    let g = tag_close(s, i + 5);
    let e = g + 1;
    let m = s.subrange(i, e);
    lemma_first_index_of(s, '>', i + 5);
    let tm = t.subrange(p, p + (e - i));
    assert(tm == m);
    assert(t[p] == tm[0] && m[0] == s[i]);
    assert(t[p + 1] == tm[1] && m[1] == s[i + 1]);
    assert(t[p + 2] == tm[2] && m[2] == s[i + 2]);
    assert(t[p + 3] == tm[3] && m[3] == s[i + 3]);
    assert(t[p + 4] == tm[4] && m[4] == s[i + 4]);
    assert(t[p + (g - i)] == tm[g - i] && m[g - i] == s[g]);
    assert(t[p + (g - 1 - i)] == tm[g - 1 - i] && m[g - 1 - i] == s[g - 1]);
    assert forall|k: int| p + 5 <= k < p + (g - i) implies t[k] != '>' by {
        assert(t[k] == tm[k - p]);
        assert(m[k - p] == s[i + (k - p)]);
    }
    lemma_first_index_of_is(t, '>', p + 5, p + (g - i));
}

/// What the fix makes of the text from `i` on starts with the character at `i`.
pub proof fn lemma_fixed_head(s: Seq<char>, i: int)
    requires
        0 <= i < s.len(),
    ensures
        fixed_from(s, i).len() > 0,
        fixed_from(s, i)[0] == s[i],
{
    if img_at(s, i) {
        lemma_first_index_of(s, '>', i + 5);
        let e = img_end(s, i);
        if enclosed(s, i, e) {
            assert((s.subrange(i, e) + fixed_from(s, e))[0] == s.subrange(i, e)[0]);
        } else {
            assert((p_open() + s.subrange(i, e) + p_close() + fixed_from(s, e))[0] == p_open()[0]);
        }
    } else {
        assert((seq![s[i]] + fixed_from(s, i + 1))[0] == s[i]);
    }
}

/// What the fix makes of the text from the end on is empty, and only that.
pub proof fn lemma_fixed_empty(s: Seq<char>, i: int)
    requires
        0 <= i,
    ensures
        fixed_from(s, i).len() == 0 <==> i >= s.len(),
{
    if i < s.len() {
        lemma_fixed_head(s, i);
    }
}

/// A stretch of text in which no image element starts is copied as it stands.
pub proof fn lemma_copy_run(s: Seq<char>, a: int, b: int)
    requires
        0 <= a <= b <= s.len(),
        forall|j: int| a <= j < b ==> !img_at(s, j),
    ensures
        fixed_from(s, a) == s.subrange(a, b) + fixed_from(s, b),
    decreases b - a,
{
    if a < b {
        lemma_copy_run(s, a + 1, b);
        assert(!img_at(s, a));
        assert(seq![s[a]] + (s.subrange(a + 1, b) + fixed_from(s, b)) =~= s.subrange(a, b)
            + fixed_from(s, b));
    } else {
        assert(s.subrange(a, b) + fixed_from(s, b) =~= fixed_from(s, b));
    }
}

/// Where an image element opens at `i` but is not closed as one, no image element
/// starts after `i` up to and including the `>` that follows the opening.
pub proof fn lemma_no_image_before_close(s: Seq<char>, i: int)
    requires
        img_opens_at(s, i),
        !img_at(s, i),
    ensures
        forall|j: int| i < j <= tag_close(s, i + 5) && j < s.len() ==> !img_at(s, j),
{
    let g = tag_close(s, i + 5);
    lemma_first_index_of(s, '>', i + 5);
    assert forall|j: int| i < j <= g && j < s.len() implies !img_at(s, j) by {
        if img_at(s, j) {
            assert(s[j] == '<');
            assert(j >= i + 5);
            assert(j < g);
            // the five opening characters at `j` hold no `>`, so `g` lies behind them
            assert(g >= j + 5) by {
                if g < j + 5 {
                    assert(s[g] == '>');
                    assert(g == j + 1 || g == j + 2 || g == j + 3 || g == j + 4);
                }
            }
            lemma_first_index_of_is(s, '>', j + 5, g);
        }
    }
}

/// Where no image element starts at `i`, none starts at the head of what the fix
/// makes of the text from `i` on.
pub proof fn lemma_copy_stays_copy(s: Seq<char>, i: int)
    requires
        0 <= i < s.len(),
        !img_at(s, i),
    ensures
        !img_at(fixed_from(s, i), 0),
{
    let w = fixed_from(s, i);
    if img_opens_at(w, 0) {
        let w1 = fixed_from(s, i + 1);
        assert(w == seq![s[i]] + w1);
        assert(w[0] == s[i]);
        assert(w[1] == w1[0]);
        lemma_fixed_empty(s, i + 1);
        lemma_fixed_head(s, i + 1);
        assert(s[i + 1] == 'i');
        let w2 = fixed_from(s, i + 2);
        assert(w1 == seq![s[i + 1]] + w2);
        assert(w[2] == w2[0]);
        lemma_fixed_empty(s, i + 2);
        lemma_fixed_head(s, i + 2);
        assert(s[i + 2] == 'm');
        let w3 = fixed_from(s, i + 3);
        assert(w2 == seq![s[i + 2]] + w3);
        assert(w[3] == w3[0]);
        lemma_fixed_empty(s, i + 3);
        lemma_fixed_head(s, i + 3);
        assert(s[i + 3] == 'g');
        let w4 = fixed_from(s, i + 4);
        assert(w3 == seq![s[i + 3]] + w4);
        assert(w[4] == w4[0]);
        lemma_fixed_empty(s, i + 4);
        lemma_fixed_head(s, i + 4);
        assert(is_space(s[i + 4]));
        assert(img_opens_at(s, i));
        let g = tag_close(s, i + 5);
        lemma_first_index_of(s, '>', i + 5);
        lemma_no_image_before_close(s, i);
        let b = if g < s.len() {
            g + 1
        } else {
            s.len() as int
        };
        assert forall|j: int| i <= j < b implies !img_at(s, j) by {}
        lemma_copy_run(s, i, b);
        assert(w == s.subrange(i, b) + fixed_from(s, b));
        assert forall|k: int| 0 <= k < b - i implies w[k] == s[i + k] by {
            assert(s.subrange(i, b)[k] == s[i + k]);
        }
        if g < s.len() {
            assert(w[g - i] == s[i + (g - i)]);
            assert forall|k: int| 5 <= k < g - i implies w[k] != '>' by {
                assert(w[k] == s[i + k]);
            }
            lemma_first_index_of_is(w, '>', 5, g - i);
            assert(w[g - i - 1] == s[i + (g - i - 1)]);
        } else {
            lemma_fixed_empty(s, b);
            assert(w =~= s.subrange(i, b));
            assert forall|k: int| 5 <= k < w.len() implies w[k] != '>' by {
                assert(w[k] == s[i + k]);
            }
            lemma_first_index_of_is(w, '>', 5, w.len() as int);
        }
    }
}

/// The end of `pre` shows as much of an opening `<p>` as the text before `i` does:
/// whatever part of `<p>` ends `s[..i]`, the same part ends `pre`.
pub open spec fn tail_agrees(s: Seq<char>, i: int, pre: Seq<char>) -> bool {
    let n = pre.len() as int;
    &&& i >= 1 && s[i - 1] == '<' ==> n >= 1 && pre[n - 1] == '<'
    &&& i >= 2 && s[i - 2] == '<' && s[i - 1] == 'p' ==> n >= 2 && pre[n - 2] == '<' && pre[n - 1]
        == 'p'
    &&& i >= 3 && s[i - 3] == '<' && s[i - 2] == 'p' && s[i - 1] == '>' ==> n >= 3 && pre[n - 3]
        == '<' && pre[n - 2] == 'p' && pre[n - 1] == '>'
}

/// One step of `lemma_fixed_stays`, at a character that is copied.
proof fn lemma_stays_at_copy(s: Seq<char>, i: int, pre: Seq<char>)
    requires
        0 <= i < s.len(),
        !img_at(s, i),
        fixed_from(pre + seq![s[i]] + fixed_from(s, i + 1), pre.len() as int + 1) == fixed_from(
            s,
            i + 1,
        ),
    ensures
        fixed_from(pre + fixed_from(s, i), pre.len() as int) == fixed_from(s, i),
{
    let w = fixed_from(s, i);
    let t = pre + w;
    let p = pre.len() as int;
    let c = s[i];
    let rest = fixed_from(s, i + 1);
    assert(w == seq![c] + rest);
    assert(!img_at(t, p)) by {
        lemma_copy_stays_copy(s, i);
        if img_at(t, p) {
            lemma_first_index_of(t, '>', p + 5);
            let len = img_end(t, p) - p;
            assert(w.subrange(0, len) =~= t.subrange(p, p + len));
            lemma_image_moves(t, p, w, 0);
        }
    }
    assert(t =~= pre + seq![c] + rest);
    assert(t[p] == c);
    assert(fixed_from(t, p) == seq![c] + fixed_from(t, p + 1));
}

/// One step of `lemma_fixed_stays`, at an image element that is enclosed already.
proof fn lemma_stays_at_enclosed(s: Seq<char>, i: int, pre: Seq<char>)
    requires
        img_at(s, i),
        enclosed(s, i, img_end(s, i)),
        tail_agrees(s, i, pre),
        fixed_from(
            pre + s.subrange(i, img_end(s, i)) + fixed_from(s, img_end(s, i)),
            pre.len() as int + (img_end(s, i) - i),
        ) == fixed_from(s, img_end(s, i)),
    ensures
        fixed_from(pre + fixed_from(s, i), pre.len() as int) == fixed_from(s, i),
{
    let w = fixed_from(s, i);
    let t = pre + w;
    let p = pre.len() as int;
    lemma_first_index_of(s, '>', i + 5);
    let e = img_end(s, i);
    let m = s.subrange(i, e);
    let rest = fixed_from(s, e);
    let q = p + (e - i);
    assert(w == m + rest);
    assert(t =~= pre + m + rest);
    assert(t.subrange(p, q) =~= m);
    lemma_image_moves(s, i, t, p);
    assert(rest.len() >= 4 && rest[0] == '<' && rest[1] == '/' && rest[2] == 'p' && rest[3] == '>')
        by {
        assert forall|j: int| e <= j < e + 4 implies !img_at(s, j) by {}
        lemma_copy_run(s, e, e + 4);
        let close = s.subrange(e, e + 4);
        assert(rest == close + fixed_from(s, e + 4));
        assert(rest[0] == close[0] && rest[1] == close[1] && rest[2] == close[2] && rest[3]
            == close[3]);
    }
    assert(t[q] == rest[0] && t[q + 1] == rest[1] && t[q + 2] == rest[2] && t[q + 3] == rest[3]);
    assert(t[p - 3] == pre[p - 3] && t[p - 2] == pre[p - 2] && t[p - 1] == pre[p - 1]);
    assert(enclosed(t, p, q));
    assert(fixed_from(t, p) == t.subrange(p, q) + fixed_from(t, q));
}

/// An image element that stands between `<p>` and `</p>` is copied with both.
proof fn lemma_enclosed_unit(t: Seq<char>, p: int)
    requires
        0 <= p,
        p + 3 <= t.len(),
        t[p] == '<',
        t[p + 1] == 'p',
        t[p + 2] == '>',
        img_at(t, p + 3),
        enclosed(t, p + 3, img_end(t, p + 3)),
    ensures
        fixed_from(t, p) == t.subrange(p, img_end(t, p + 3) + 4) + fixed_from(
            t,
            img_end(t, p + 3) + 4,
        ),
{
    let q = p + 3;
    let r = img_end(t, q);
    lemma_first_index_of(t, '>', q + 5);
    assert(fixed_from(t, p) == t.subrange(p, q) + fixed_from(t, q)) by {
        assert forall|j: int| p <= j < q implies !img_at(t, j) by {}
        lemma_copy_run(t, p, q);
    }
    assert(fixed_from(t, q) == t.subrange(q, r) + fixed_from(t, r));
    assert(fixed_from(t, r) == t.subrange(r, r + 4) + fixed_from(t, r + 4)) by {
        assert forall|j: int| r <= j < r + 4 implies !img_at(t, j) by {}
        lemma_copy_run(t, r, r + 4);
    }
    assert(t.subrange(p, q) + t.subrange(q, r) + t.subrange(r, r + 4) =~= t.subrange(p, r + 4));
}

/// One step of `lemma_fixed_stays`, at an image element that the fix encloses.
proof fn lemma_stays_at_bare(s: Seq<char>, i: int, pre: Seq<char>)
    requires
        img_at(s, i),
        !enclosed(s, i, img_end(s, i)),
        fixed_from(
            pre + p_open() + s.subrange(i, img_end(s, i)) + p_close() + fixed_from(
                s,
                img_end(s, i),
            ),
            pre.len() as int + 3 + (img_end(s, i) - i) + 4,
        ) == fixed_from(s, img_end(s, i)),
    ensures
        fixed_from(pre + fixed_from(s, i), pre.len() as int) == fixed_from(s, i),
{
    let w = fixed_from(s, i);
    let t = pre + w;
    let p = pre.len() as int;
    lemma_first_index_of(s, '>', i + 5);
    let e = img_end(s, i);
    let m = s.subrange(i, e);
    let rest = fixed_from(s, e);
    let q = p + 3;
    let r = q + (e - i);
    let unit = p_open() + m + p_close();
    assert(w == p_open() + m + p_close() + rest);
    assert(w =~= unit + rest);
    assert(unit.len() == 3 + (e - i) + 4);
    assert(t =~= pre + p_open() + m + p_close() + rest);
    assert(t.subrange(p, r + 4) =~= unit);
    assert(t[p] == '<' && t[p + 1] == 'p' && t[p + 2] == '>') by {
        assert(t[p] == unit[0] && t[p + 1] == unit[1] && t[p + 2] == unit[2]);
    }
    assert(t[r] == '<' && t[r + 1] == '/' && t[r + 2] == 'p' && t[r + 3] == '>') by {
        let k = 3 + (e - i);
        assert(t[r] == unit[k] && t[r + 1] == unit[k + 1] && t[r + 2] == unit[k + 2] && t[r + 3]
            == unit[k + 3]);
    }
    assert(t.subrange(q, r) =~= m);
    lemma_image_moves(s, i, t, q);
    assert(enclosed(t, q, r));
    lemma_enclosed_unit(t, p);
}

/// The fix finds nothing to do in its own work: set behind any text `pre` that
/// ends as the text before `i` does, what the fix made of the text from `i` on
/// comes out of the fix unchanged.
pub proof fn lemma_fixed_stays(s: Seq<char>, i: int, pre: Seq<char>)
    requires
        0 <= i <= s.len(),
        tail_agrees(s, i, pre),
    ensures
        fixed_from(pre + fixed_from(s, i), pre.len() as int) == fixed_from(s, i),
    decreases s.len() - i,
{
    if i >= s.len() {
        assert(pre + fixed_from(s, i) =~= pre);
    } else if !img_at(s, i) {
        let pre1 = pre + seq![s[i]];
        assert(tail_agrees(s, i + 1, pre1));
        lemma_fixed_stays(s, i + 1, pre1);
        lemma_stays_at_copy(s, i, pre);
    } else {
        lemma_first_index_of(s, '>', i + 5);
        let e = img_end(s, i);
        let m = s.subrange(i, e);
        if enclosed(s, i, e) {
            let pre1 = pre + m;
            assert(tail_agrees(s, e, pre1));
            lemma_fixed_stays(s, e, pre1);
            lemma_stays_at_enclosed(s, i, pre);
        } else {
            let pre1 = pre + p_open() + m + p_close();
            assert(tail_agrees(s, e, pre1)) by {
                assert(pre1[pre1.len() - 1] == '>');
                assert(pre1[pre1.len() - 2] == 'p');
            }
            lemma_fixed_stays(s, e, pre1);
            lemma_stays_at_bare(s, i, pre);
        }
    }
}

/// Fixing is idempotent: the fix applied to its own result changes nothing, for
/// every text.
pub proof fn lemma_fix_idempotent(s: Seq<char>)
    ensures
        fixed_html(fixed_html(s)) == fixed_html(s),
{
    lemma_fixed_stays(s, 0, Seq::empty());
    assert(Seq::<char>::empty() + fixed_from(s, 0) =~= fixed_from(s, 0));
}

} // verus!
