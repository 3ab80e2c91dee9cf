//! The place of a chapter in the table of contents: its output path, its nesting
//! level and the entries of the chapters directly under it.

use vstd::prelude::*;
use crate::book::{
    direct_chapters, lemma_direct_chapters_concat, BookItem, Chapter, SectionNumber,
};
use crate::path::{has_file_name, lemma_file_name_bounds, parts_of, stem_end, with_extension};
use crate::text::{chars_of, string_of};

verus! {

/// The extension of every content unit.
pub open spec fn html_extension() -> Seq<char> {
    seq!['h', 't', 'm', 'l']
}

/// The output path of a chapter file: the extension of its file name gives way to
/// `html`, and a file name without one gets `.html` added. A path without a file
/// name stays as it is.
pub open spec fn html_path(p: Seq<char>) -> Seq<char> {
    with_extension(p, html_extension())
}

/// Zero-based nesting level of a chapter: one less than the number of components
/// of its number, and 0 for a chapter without a number.
pub open spec fn level_of(number: Option<SectionNumber>) -> int {
    match number {
        Some(n) => n@.len() - 1,
        None => 0,
    }
}

/// One entry of a table of contents.
#[derive(Debug, Clone, PartialEq, Eq)]
pub struct TocEntry {
    /// The output path of the chapter the entry points to.
    pub path: String,
    /// The chapter's title.
    pub title: String,
}

/// The mathematical form of a `TocEntry`.
pub struct TocEntryText {
    pub path: Seq<char>,
    pub title: Seq<char>,
}

impl View for TocEntry {
    type V = TocEntryText;

    open spec fn view(&self) -> TocEntryText {
        TocEntryText { path: self.path@, title: self.title@ }
    }
}

impl DeepView for TocEntry {
    type V = TocEntryText;

    open spec fn deep_view(&self) -> TocEntryText {
        self@
    }
}

/// One chapter as it is handed to the container writer.
#[derive(Debug, Clone, PartialEq, Eq)]
pub struct ContentUnit {
    /// The path of the unit inside the package.
    pub path: String,
    /// The chapter's title.
    pub title: String,
    /// The finished HTML page.
    pub body: String,
    /// The chapter's nesting level, 0 for the outermost.
    pub level: i32,
    /// One entry for each chapter directly under this one, in document order.
    pub children: Vec<TocEntry>,
}

/// The mathematical form of a `ContentUnit`.
pub struct ContentText {
    pub path: Seq<char>,
    pub title: Seq<char>,
    pub body: Seq<char>,
    pub level: int,
    pub children: Seq<TocEntryText>,
}

impl View for ContentUnit {
    type V = ContentText;

    open spec fn view(&self) -> ContentText {
        ContentText {
            path: self.path@,
            title: self.title@,
            body: self.body@,
            level: self.level as int,
            children: self.children.deep_view(),
        }
    }
}

impl DeepView for ContentUnit {
    type V = ContentText;

    open spec fn deep_view(&self) -> ContentText {
        self@
    }
}

/// The entry that points to `ch`.
pub open spec fn toc_entry_of(ch: Chapter) -> TocEntryText {
    TocEntryText { path: html_path(ch.path@), title: ch.title@ }
}

/// The entries of the chapters that stand directly in `items`: one for each, in
/// document order; what is nested deeper and what is no chapter has none.
pub open spec fn toc_of(items: Seq<BookItem>) -> Seq<TocEntryText> {
    direct_chapters(items).map_values(|ch: Chapter| toc_entry_of(ch))
}

/// The content unit of `ch` around the finished page `body`.
pub open spec fn unit_of(ch: Chapter, body: Seq<char>) -> ContentText {
    ContentText {
        path: html_path(ch.path@),
        title: ch.title@,
        body,
        level: level_of(ch.number),
        children: toc_of(ch.sub_items@),
    }
}

/// Replaces the extension of a chapter's path by `html`.
pub fn output_path(path: &str) -> (out: String)
    ensures
        out@ == html_path(path@),
{
    let v = chars_of(path);
    let parts = parts_of(&v);
    if !parts.named {
        return path.to_owned();
    }
    let mut out = string_of(&v, 0, parts.stem_end);
    out.push('.');
    out.push('h');
    out.push('t');
    out.push('m');
    out.push('l');
    assert(out@ =~= html_path(path@));
    out
}

/// The nesting level of a chapter with the given number.
pub fn nesting_level(number: &Option<SectionNumber>) -> (level: i32)
    ensures
        level == level_of(*number),
{
    match number {
        Some(n) => {
            let depth = n.depth();
            if depth == 0 {
                -1
            } else {
                (depth - 1) as i32
            }
        },
        None => 0,
    }
}

/// Builds the table-of-contents entries of a chapter: one for each chapter
/// directly under it, in document order.
pub fn toc_children(ch: &Chapter) -> (children: Vec<TocEntry>)
    ensures
        children.deep_view() == toc_of(ch.sub_items@),
{
    let items = &ch.sub_items;
    let mut children: Vec<TocEntry> = Vec::new();
    let mut i: usize = 0;
    assert(items@.take(0) =~= Seq::empty());
    assert(children.deep_view() =~= toc_of(items@.take(0)));
    while i < items.len()
        invariant
            i <= items.len(),
            children.deep_view() == toc_of(items@.take(i as int)),
        decreases items.len() - i,
    {
        let ghost before = children.deep_view();
        let ghost seen = items@.take(i + 1);
        assert(seen.drop_last() =~= items@.take(i as int));
        assert(seen.last() == items@[i as int]);
        match &items[i] {
            BookItem::Chapter(sub) => {
                let entry = TocEntry { path: output_path(sub.path.as_str()), title: sub.title.clone() };
                children.push(entry);
                assert(children.deep_view() =~= before.push(toc_entry_of(*sub)));
                assert(toc_of(seen) =~= toc_of(seen.drop_last()).push(toc_entry_of(*sub)));
            },
            _ => {},
        }
        i += 1;
    }
    assert(items@.take(items.len() as int) =~= items@);
    children
}

/// Assembles the content unit of a chapter around its finished page.
pub fn content_unit(ch: &Chapter, body: String) -> (unit: ContentUnit)
    ensures
        unit@ == unit_of(*ch, body@),
{
    ContentUnit {
        path: output_path(ch.path.as_str()),
        title: ch.title.clone(),
        body,
        level: nesting_level(&ch.number),
        children: toc_children(ch),
    }
}

/// The table of contents keeps the order of the document: the entries of two runs
/// of items, one after the other, are those of the first run followed by those of
/// the second.
pub proof fn lemma_toc_concat(a: Seq<BookItem>, b: Seq<BookItem>)
    ensures
        toc_of(a + b) == toc_of(a) + toc_of(b),
{
    lemma_direct_chapters_concat(a, b);
    assert(toc_of(a + b) =~= toc_of(a) + toc_of(b));
}

/// Of two chapters that stand directly in `items`, the one that comes first in the
/// document has its entry first. The entry of the chapter at `i` stands at the
/// position that counts the chapters before `i`.
pub proof fn lemma_toc_keeps_order(items: Seq<BookItem>, i: int, j: int)
    requires
        0 <= i < j < items.len(),
        items[i] is Chapter,
        items[j] is Chapter,
    ensures
        toc_of(items.take(i)).len() < toc_of(items.take(j)).len() < toc_of(items).len(),
        toc_of(items)[toc_of(items.take(i)).len() as int] == toc_entry_of(items[i]->Chapter_0),
        toc_of(items)[toc_of(items.take(j)).len() as int] == toc_entry_of(items[j]->Chapter_0),
{
    lemma_toc_at(items, i);
    lemma_toc_at(items, j);
    let upto = items.take(j);
    assert(upto.take(i) =~= items.take(i));
    assert(upto[i] == items[i]);
    lemma_toc_at(upto, i);
}

/// The entry of the chapter at `i` stands behind the entries of the items before
/// `i`.
proof fn lemma_toc_at(items: Seq<BookItem>, i: int)
    requires
        0 <= i < items.len(),
        items[i] is Chapter,
    ensures
        toc_of(items.take(i)).len() < toc_of(items).len(),
        toc_of(items)[toc_of(items.take(i)).len() as int] == toc_entry_of(items[i]->Chapter_0),
{
    let before = items.take(i);
    let one = seq![items[i]];
    let after = items.skip(i + 1);
    assert(items =~= before + one + after);
    lemma_toc_concat(before + one, after);
    lemma_toc_concat(before, one);
    assert(one.drop_last() =~= Seq::<BookItem>::empty());
    assert(direct_chapters(one.drop_last()) =~= Seq::<Chapter>::empty());
    assert(one.last() == items[i]);
    assert(direct_chapters(one) =~= seq![items[i]->Chapter_0]);
    assert(toc_of(one) =~= seq![toc_entry_of(items[i]->Chapter_0)]);
}

/// The output path of a chapter with a file name ends in `.html`.
pub proof fn lemma_html_path_ends_in_html(p: Seq<char>)
    requires
        has_file_name(p),
    ensures
        html_path(p).len() >= 5,
        html_path(p).subrange(html_path(p).len() - 5, html_path(p).len() as int) == seq!['.']
            + html_extension(),
{
    lemma_file_name_bounds(p);
    let stem = p.subrange(0, stem_end(p));
    assert((stem + seq!['.'] + html_extension()).subrange(stem.len() as int, stem.len() as int + 5)
        =~= seq!['.'] + html_extension());
}

} // verus!
