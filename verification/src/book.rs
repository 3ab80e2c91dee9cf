//! The chapter tree that the pipeline reads, and the order in which it is walked.

use vstd::prelude::*;

verus! {

/// A hierarchical chapter number such as `2.1`, one component per level.
///
/// A number holds at most `i32::MAX` components, so that the nesting level it
/// stands for fits the container writer's signed 32-bit level.
#[derive(Debug, PartialEq, Eq)]
pub struct SectionNumber {
    parts: Vec<u32>,
}

impl View for SectionNumber {
    type V = Seq<u32>;

    closed spec fn view(&self) -> Seq<u32> {
        self.parts@
    }
}

impl SectionNumber {
    #[verifier::type_invariant]
    spec fn fits(&self) -> bool {
        self.parts@.len() <= i32::MAX
    }

    /// The number with the given components; `None` where there are more than
    /// `i32::MAX` of them.
    pub fn new(parts: Vec<u32>) -> (number: Option<SectionNumber>)
        ensures
            number is Some <==> parts.len() <= i32::MAX,
            number matches Some(n) ==> n@ == parts@,
    {
        if parts.len() <= 0x7fff_ffff {
            Some(SectionNumber { parts })
        } else {
            None
        }
    }

    /// How many components the number has.
    pub fn depth(&self) -> (depth: usize)
        ensures
            depth == self@.len(),
            depth <= i32::MAX,
    {
        proof {
            use_type_invariant(self);
        }
        self.parts.len()
    }

    /// The components of the number, outermost first.
    pub fn parts(&self) -> (parts: &Vec<u32>)
        ensures
            parts@ == self@,
    {
        &self.parts
    }
}

/// One chapter: a node of the book's tree.
#[derive(Debug, PartialEq, Eq)]
pub struct Chapter {
    /// The chapter's display label, used as its title.
    pub title: String,
    /// The chapter's markdown source.
    pub content: String,
    /// The chapter's number; `None` for an unnumbered chapter.
    pub number: Option<SectionNumber>,
    /// What is nested under the chapter, in document order.
    pub sub_items: Vec<BookItem>,
    /// The chapter's file, relative to the source root, with `/` between segments.
    pub path: String,
}

/// One item of the book's tree.
#[derive(Debug, PartialEq, Eq)]
pub enum BookItem {
    /// A chapter, with what is nested under it.
    Chapter(Chapter),
    /// A separator between sections.
    Separator,
    /// The title of a part.
    PartTitle(String),
}

/// Every chapter at or below `item`, the chapter itself first and then those
/// under it, depth first. An item that is no chapter has none.
pub open spec fn item_chapters(item: BookItem) -> Seq<Chapter>
    decreases item,
{
    match item {
        BookItem::Chapter(ch) => {
            proof {
                broadcast use vstd::std_specs::vec::axiom_vec_decreases_to_view;

            }
            seq![ch] + book_chapters(ch.sub_items@)
        },
        _ => Seq::empty(),
    }
}

/// Every chapter of a run of items, depth first and in document order.
pub open spec fn book_chapters(items: Seq<BookItem>) -> Seq<Chapter>
    decreases items,
{
    if items.len() == 0 {
        Seq::empty()
    } else {
        proof {
            broadcast use vstd::seq::axiom_seq_index_decreases;
            broadcast use vstd::seq::axiom_seq_subrange_decreases;

        }
        book_chapters(items.drop_last()) + item_chapters(items.last())
    }
}

/// The chapters that stand directly in a run of items, in document order.
pub open spec fn direct_chapters(items: Seq<BookItem>) -> Seq<Chapter>
    decreases items.len(),
{
    if items.len() == 0 {
        Seq::empty()
    } else {
        match items.last() {
            BookItem::Chapter(ch) => direct_chapters(items.drop_last()).push(ch),
            _ => direct_chapters(items.drop_last()),
        }
    }
}

/// The chapters that `refs` point to.
pub open spec fn pointed(refs: Seq<&Chapter>) -> Seq<Chapter> {
    refs.map_values(|ch: &Chapter| *ch)
}

/// The chapters of two runs of items, one after the other, are the chapters of
/// the first run followed by those of the second.
pub proof fn lemma_book_chapters_concat(a: Seq<BookItem>, b: Seq<BookItem>)
    ensures
        book_chapters(a + b) == book_chapters(a) + book_chapters(b),
    decreases b.len(),
{
    if b.len() == 0 {
        assert(a + b =~= a);
        assert(book_chapters(a) + book_chapters(b) =~= book_chapters(a));
    } else {
        lemma_book_chapters_concat(a, b.drop_last());
        assert((a + b).drop_last() =~= a + b.drop_last());
        assert((a + b).last() == b.last());
        assert(book_chapters(a + b) =~= book_chapters(a) + book_chapters(b));
    }
}

fn push_chapters<'a>(items: &'a Vec<BookItem>, out: &mut Vec<&'a Chapter>)
    ensures
        pointed(final(out)@) == pointed(old(out)@) + book_chapters(items@),
    decreases items,
{
    let ghost start = pointed(out@);
    let mut i: usize = 0;
    assert(items@.take(0) =~= Seq::empty());
    assert(pointed(out@) =~= start + book_chapters(items@.take(0)));
    while i < items.len()
        invariant
            i <= items.len(),
            pointed(out@) == start + book_chapters(items@.take(i as int)),
        decreases items.len() - i,
    {
        let ghost seen = items@.take(i + 1);
        assert(seen.drop_last() =~= items@.take(i as int));
        assert(seen.last() == items@[i as int]);
        let ghost before = pointed(out@);
        match &items[i] {
            BookItem::Chapter(ch) => {
                out.push(ch);
                assert(pointed(out@) =~= before + seq![*ch]);
                push_chapters(&ch.sub_items, out);
                assert(pointed(out@) =~= before + item_chapters(items@[i as int]));
            },
            _ => {
                assert(item_chapters(items@[i as int]) =~= Seq::empty());
            },
        }
        assert(book_chapters(seen) == book_chapters(seen.drop_last()) + item_chapters(seen.last()));
        assert(pointed(out@) =~= before + item_chapters(items@[i as int]));
        assert(pointed(out@) =~= start + book_chapters(seen));
        i += 1;
    }
    assert(items@.take(items.len() as int) =~= items@);
}

/// Lists every chapter of the book, depth first and in document order: a chapter,
/// then the chapters under it, then the chapter that follows it. Items that are no
/// chapters are passed over.
pub fn chapters<'a>(items: &'a Vec<BookItem>) -> (all: Vec<&'a Chapter>)
    ensures
        pointed(all@) == book_chapters(items@),
{
    let mut all: Vec<&'a Chapter> = Vec::new();
    assert(pointed(all@) =~= Seq::empty());
    push_chapters(items, &mut all);
    assert(Seq::<Chapter>::empty() + book_chapters(items@) =~= book_chapters(items@));
    all
}

/// The chapters that stand directly in two runs of items, one after the other, are
/// those of the first run followed by those of the second.
pub proof fn lemma_direct_chapters_concat(a: Seq<BookItem>, b: Seq<BookItem>)
    ensures
        direct_chapters(a + b) == direct_chapters(a) + direct_chapters(b),
    decreases b.len(),
{
    if b.len() == 0 {
        assert(a + b =~= a);
        assert(direct_chapters(a) + direct_chapters(b) =~= direct_chapters(a));
    } else {
        lemma_direct_chapters_concat(a, b.drop_last());
        assert((a + b).drop_last() =~= a + b.drop_last());
        assert((a + b).last() == b.last());
        assert(direct_chapters(a + b) =~= direct_chapters(a) + direct_chapters(b));
    }
}

} // verus!
