//! The metadata fields of the package.

use vstd::prelude::*;
use crate::text::{push_text, text_of};

verus! {

/// One named metadata field.
#[derive(Debug, Clone, PartialEq, Eq)]
pub struct MetadataEntry {
    /// The name of the field.
    pub key: String,
    /// Its value.
    pub value: String,
}

impl View for MetadataEntry {
    type V = (Seq<char>, Seq<char>);

    open spec fn view(&self) -> (Seq<char>, Seq<char>) {
        (self.key@, self.value@)
    }
}

impl DeepView for MetadataEntry {
    type V = (Seq<char>, Seq<char>);

    open spec fn deep_view(&self) -> (Seq<char>, Seq<char>) {
        self@
    }
}

/// The names joined by a comma and a space.
pub open spec fn joined_names(names: Seq<Seq<char>>) -> Seq<char>
    decreases names.len(),
{
    if names.len() == 0 {
        Seq::empty()
    } else if names.len() == 1 {
        names[0]
    } else {
        joined_names(names.drop_last()) + seq![',', ' '] + names.last()
    }
}

/// The field for an optional text: one entry where the text is there, none where
/// it is not.
pub open spec fn optional_field(key: Seq<char>, value: Option<Seq<char>>) -> Seq<
    (Seq<char>, Seq<char>),
> {
    match value {
        Some(v) => seq![(key, v)],
        None => Seq::empty(),
    }
}

/// The field for the authors: one entry with all the names where there is an
/// author, none where there is not.
pub open spec fn author_field(authors: Seq<Seq<char>>) -> Seq<(Seq<char>, Seq<char>)> {
    if authors.len() > 0 {
        seq![("author"@, joined_names(authors))]
    } else {
        Seq::empty()
    }
}

/// The metadata of a book, in the order in which they are set: the generator's
/// identity, then the title, the description and the authors, each where the book
/// has it.
pub open spec fn metadata_of(
    title: Option<Seq<char>>,
    description: Option<Seq<char>>,
    authors: Seq<Seq<char>>,
) -> Seq<(Seq<char>, Seq<char>)> {
    seq![("generator"@, "mdbook-epub"@)] + optional_field("title"@, title) + optional_field(
        "description"@,
        description,
    ) + author_field(authors)
}

/// Joins the names of the authors by a comma and a space.
pub fn join_names(names: &Vec<String>) -> (joined: String)
    ensures
        joined@ == joined_names(names.deep_view()),
{
    let mut joined = String::new();
    let mut i: usize = 0;
    assert(names.deep_view().take(0) =~= Seq::empty());
    while i < names.len()
        invariant
            i <= names.len(),
            joined@ == joined_names(names.deep_view().take(i as int)),
        decreases names.len() - i,
    {
        let ghost before = joined@;
        let ghost seen = names.deep_view().take(i + 1);
        assert(seen.drop_last() =~= names.deep_view().take(i as int));
        assert(seen.last() == names[i as int]@);
        if i > 0 {
            joined.push(',');
            joined.push(' ');
            assert(joined@ =~= before + seq![',', ' ']);
        } else {
            assert(seen[0] == names[0]@);
            assert(before + names[0]@ =~= names[0]@);
        }
        push_text(&mut joined, names[i].as_str());
        i += 1;
    }
    assert(names.deep_view().take(names.len() as int) =~= names.deep_view());
    joined
}

/// Lists the metadata fields of a book.
pub fn metadata_entries(
    title: &Option<String>,
    description: &Option<String>,
    authors: &Vec<String>,
) -> (entries: Vec<MetadataEntry>)
    ensures
        entries.deep_view() == metadata_of(
            text_of(*title),
            text_of(*description),
            authors.deep_view(),
        ),
{
    let mut entries: Vec<MetadataEntry> = Vec::new();
    entries.push(MetadataEntry { key: "generator".to_owned(), value: "mdbook-epub".to_owned() });
    assert(entries.deep_view() =~= seq![("generator"@, "mdbook-epub"@)]);
    let ghost first = entries.deep_view();
    match title {
        Some(t) => {
            entries.push(MetadataEntry { key: "title".to_owned(), value: t.clone() });
        },
        None => {},
    }
    assert(entries.deep_view() =~= first + optional_field("title"@, text_of(*title)));
    let ghost second = entries.deep_view();
    match description {
        Some(d) => {
            entries.push(MetadataEntry { key: "description".to_owned(), value: d.clone() });
        },
        None => {},
    }
    assert(entries.deep_view() =~= second + optional_field("description"@, text_of(*description)));
    let ghost third = entries.deep_view();
    if authors.len() > 0 {
        entries.push(MetadataEntry { key: "author".to_owned(), value: join_names(authors) });
    }
    assert(entries.deep_view() =~= third + author_field(authors.deep_view()));
    entries
}

} // verus!
