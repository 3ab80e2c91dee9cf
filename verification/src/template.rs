//! What this library takes from the template engine, and which page templates it
//! hands to it.
//!
//! The engine gets plain templates only. A template is not plain where the engine
//! may fail to return on it:
//! - a closing tag that names a sub-expression makes its parser panic;
//! - a directive or a partial block can make a partial out of the template's own
//!   text, which then includes itself without end;
//! - a partial whose name is computed may come to name the template itself;
//! - a partial that names the template itself is refused by the engine only
//!   where no block came before it, and includes the template without end
//!   elsewhere.
//!
//! Every other call of a partial is plain. The engine knows no partial but the
//! template itself: a call of another name adds nothing to the page, and a call of
//! the template itself before any block is an error that the engine reports.

use vstd::prelude::*;
use crate::text::{chars_of, texts_of};

verus! {

/// The template engine's registry of templates.
#[verifier::external_type_specification]
#[verifier::external_body]
pub struct ExHandlebars(handlebars::Handlebars);

/// White space between the parts of a tag.
pub open spec fn is_blank(c: char) -> bool {
    c == ' ' || c == '\t' || c == '\n' || c == '\r'
}

/// A character that a name may hold.
pub open spec fn is_symbol(c: char) -> bool {
    ||| 'a' <= c <= 'z'
    ||| 'A' <= c <= 'Z'
    ||| '0' <= c <= '9'
    ||| c == '@'
    ||| c == '-'
    ||| c == '_'
    ||| c as u32 >= 0x80
}

/// Index of the first character at or after `k` that is neither white space nor,
/// where `tilde` is set, a `~`.
pub open spec fn blank_end(s: Seq<char>, k: int, tilde: bool) -> int
    decreases s.len() - k,
{
    if 0 <= k < s.len() && (is_blank(s[k]) || (tilde && s[k] == '~')) {
        blank_end(s, k + 1, tilde)
    } else {
        k
    }
}

/// The character at `k` where there is one, and else a character that opens
/// nothing.
pub open spec fn char_at(s: Seq<char>, k: int) -> char {
    if 0 <= k < s.len() {
        s[k]
    } else {
        ' '
    }
}

/// `{{` stands at `i`.
pub open spec fn opens_at(s: Seq<char>, i: int) -> bool {
    0 <= i && i + 2 <= s.len() && s[i] == '{' && s[i + 1] == '{'
}

/// Exactly one backslash stands before `i`: a `{{` there is text and opens no
/// tag.
pub open spec fn escaped_at(s: Seq<char>, i: int) -> bool {
    i >= 1 && char_at(s, i - 1) == '\\' && char_at(s, i - 2) != '\\'
}

/// A block may open at `i`: `{{` with, after white space and `~` in any number, a
/// `#`; or `{{{{`.
pub open spec fn block_opens_at(s: Seq<char>, i: int) -> bool {
    opens_at(s, i) && (char_at(s, blank_end(s, i + 2, true)) == '#' || (char_at(s, i + 2) == '{'
        && char_at(s, i + 3) == '{'))
}

/// A block may open somewhere before `i`.
pub open spec fn block_before(s: Seq<char>, i: int) -> bool {
    exists|j: int| 0 <= j < i && block_opens_at(s, j)
}

/// The name that starts at `k` is, or may be, the name under which the page
/// template is known to the engine: `index`, with no character of a name behind
/// it.
pub open spec fn names_the_template(s: Seq<char>, k: int) -> bool {
    &&& char_at(s, k) == 'i'
    &&& char_at(s, k + 1) == 'n'
    &&& char_at(s, k + 2) == 'd'
    &&& char_at(s, k + 3) == 'e'
    &&& char_at(s, k + 4) == 'x'
    &&& !is_symbol(char_at(s, k + 5))
}

/// A tag that the library does not hand to the engine opens at `i`: `{{` that no
/// backslash turns into text, then white space and `~` in any number, and then
/// - `*`, which calls a directive,
/// - `#` with `>` or `*` after it, which opens a partial block or a directive,
/// - `/` with `(` after it, which closes a block by a sub-expression,
/// - `>` with `(` after it, which calls a partial by a computed name, or
/// - `>` with the template's own name after it, where a block may have opened
///   before.
pub open spec fn refused_tag_at(s: Seq<char>, i: int) -> bool {
    let k = blank_end(s, i + 2, true);
    let a = blank_end(s, k + 1, false);
    &&& opens_at(s, i)
    &&& !escaped_at(s, i)
    &&& {
        ||| char_at(s, k) == '*'
        ||| char_at(s, k) == '#' && (char_at(s, a) == '>' || char_at(s, a) == '*')
        ||| char_at(s, k) == '/' && char_at(s, a) == '('
        ||| char_at(s, k) == '>' && char_at(s, a) == '('
        ||| char_at(s, k) == '>' && names_the_template(s, a) && block_before(s, i)
    }
}

/// The template is plain: no tag that the library refuses opens anywhere in it.
pub open spec fn template_is_plain(s: Seq<char>) -> bool {
    forall|i: int| 0 <= i < s.len() ==> !refused_tag_at(s, i)
}

/// The name under which the page template is known to the engine.
pub open spec fn template_name() -> Seq<char> {
    "index"@
}

/// What is wrong with a page template: `None` for a template that the engine
/// accepts under the given name, and else the engine's complaint.
pub uninterp spec fn template_fault(name: Seq<char>, template: Seq<char>) -> Option<Seq<char>>;

/// The text of the page template that a registry holds.
pub uninterp spec fn registered(registry: handlebars::Handlebars) -> Seq<char>;

/// The page that the engine makes of a page template and of data that hold the
/// one field `key` with the text `value`; the engine's complaint where it makes
/// none.
pub uninterp spec fn page_of_template(
    template: Seq<char>,
    key: Seq<char>,
    value: Seq<char>,
) -> Result<Seq<char>, Seq<char>>;

/// The mathematical form of what the registration of a template came to: `None`
/// for a registry, and else the complaint.
pub open spec fn fault_of(result: Result<handlebars::Handlebars, String>) -> Option<Seq<char>> {
    match result {
        Ok(_) => None,
        Err(e) => Some(e@),
    }
}

/// Registers `template` under `name` in a fresh `handlebars::Handlebars`, by
/// `register_template_string`, and hands back the registry, or the error's text
/// if the engine refuses the template. Parsing a template reads nothing but the
/// template; the contract names the outcome and states of the registry only
/// which text it holds. Only a plain template is admitted: a closing tag that
/// names a sub-expression makes the parser panic where the tag does not match
/// its block.
#[verifier::external_body]
pub(crate) fn register_template(name: &str, template: &str) -> (result: Result<
    handlebars::Handlebars,
    String,
>)
    requires
        name@ == template_name(),
        template_is_plain(template@),
    ensures
        fault_of(result) == template_fault(name@, template@),
        result matches Ok(registry) ==> registered(registry) == template@,
{
    let mut registry = handlebars::Handlebars::new();
    registry.register_template_string(name, template).map(|_| registry).map_err(|e| e.to_string())
}

/// Renders the template `name` of the registry, by `Handlebars::render`, over the
/// JSON object that holds `value` under `key`; an error comes back as its text.
/// With the engine's built-in helpers alone the page depends on the template and
/// on the data only; the contract names the outcome and states nothing else of
/// it. Only a registry with one plain template under `name` is admitted: the
/// rendering of a plain template expands no partial, so that it ends.
#[verifier::external_body]
pub(crate) fn render_page(
    registry: &handlebars::Handlebars,
    name: &str,
    key: &str,
    value: &str,
) -> (page: Result<String, String>)
    requires
        name@ == template_name(),
        template_is_plain(registered(*registry)),
    ensures
        texts_of(page) == page_of_template(registered(*registry), key@, value@),
{
    let mut data = serde_json::Map::new();
    data.insert(key.to_owned(), serde_json::Value::String(value.to_owned()));
    registry.render(name, &serde_json::Value::Object(data)).map_err(|e| e.to_string())
}

fn skip_blanks(v: &Vec<char>, from: usize, tilde: bool) -> (k: usize)
    requires
        from <= v.len(),
    ensures
        k == blank_end(v@, from as int, tilde),
        from <= k <= v.len(),
{
    let mut k: usize = from;
    while k < v.len() && (v[k] == ' ' || v[k] == '\t' || v[k] == '\n' || v[k] == '\r' || (tilde
        && v[k] == '~'))
        invariant
            from <= k <= v.len(),
            blank_end(v@, k as int, tilde) == blank_end(v@, from as int, tilde),
        decreases v.len() - k,
    {
        k += 1;
    }
    k
}

fn get(v: &Vec<char>, k: usize) -> (c: char)
    ensures
        c == char_at(v@, k as int),
{
    if k < v.len() {
        v[k]
    } else {
        ' '
    }
}

fn is_symbol_char(c: char) -> (b: bool)
    ensures
        b == is_symbol(c),
{
    ('a' <= c && c <= 'z') || ('A' <= c && c <= 'Z') || ('0' <= c && c <= '9') || c == '@' || c
        == '-' || c == '_' || c as u32 >= 0x80
}

fn names_template(v: &Vec<char>, k: usize) -> (b: bool)
    requires
        k <= v.len(),
    ensures
        b == names_the_template(v@, k as int),
{
    if v.len() - k < 5 {
        return false;
    }
    v[k] == 'i' && v[k + 1] == 'n' && v[k + 2] == 'd' && v[k + 3] == 'e' && v[k + 4] == 'x'
        && !is_symbol_char(get(v, k + 5))
}

fn block_at(v: &Vec<char>, i: usize) -> (b: bool)
    requires
        i < v.len(),
    ensures
        b == block_opens_at(v@, i as int),
{
    if v.len() - i < 2 || v[i] != '{' || v[i + 1] != '{' {
        return false;
    }
    let k = skip_blanks(v, i + 2, true);
    get(v, k) == '#' || (v.len() - i >= 4 && v[i + 2] == '{' && v[i + 3] == '{')
}

fn refused_at(v: &Vec<char>, i: usize, block_seen: bool) -> (refused: bool)
    requires
        i < v.len(),
        block_seen == block_before(v@, i as int),
    ensures
        refused == refused_tag_at(v@, i as int),
{
    if v.len() - i < 2 || v[i] != '{' || v[i + 1] != '{' {
        return false;
    }
    if i >= 1 && v[i - 1] == '\\' && !(i >= 2 && v[i - 2] == '\\') {
        return false;
    }
    let k = skip_blanks(v, i + 2, true);
    if k >= v.len() {
        return false;
    }
    let a = skip_blanks(v, k + 1, false);
    let after = get(v, a);
    v[k] == '*' || (v[k] == '#' && (after == '>' || after == '*')) || (v[k] == '/' && after == '(')
        || (v[k] == '>' && after == '(') || (v[k] == '>' && block_seen && names_template(v, a))
}

/// Tells whether a page template is plain.
pub fn is_plain_template(template: &str) -> (plain: bool)
    ensures
        plain == template_is_plain(template@),
{
    let v = chars_of(template);
    let mut block_seen = false;
    let mut i: usize = 0;
    while i < v.len()
        invariant
            i <= v.len(),
            v@ == template@,
            block_seen == block_before(v@, i as int),
            forall|j: int| 0 <= j < i ==> !refused_tag_at(v@, j),
        decreases v.len() - i,
    {
        if refused_at(&v, i, block_seen) {
            return false;
        }
        if block_at(&v, i) {
            block_seen = true;
        }
        proof {
            if !block_seen {
                assert forall|j: int| 0 <= j < i + 1 implies !block_opens_at(v@, j) by {
                    if j < i {
                        assert(!block_before(v@, i as int));
                    }
                }
            }
        }
        i += 1;
    }
    true
}

} // verus!
