//! What this library takes from the markdown parser and the markdown renderer.

use vstd::prelude::*;
use crate::link::{first_link, html_link};

verus! {

/// One event of a markdown document, reduced to what the search for assets reads.
#[derive(Debug, Clone, PartialEq, Eq)]
pub enum MarkdownEvent {
    /// The start of an image, with its destination as the parser gives it.
    Image(String),
    /// A piece of raw HTML, block or inline.
    Html(String),
    /// Any other event.
    Other,
}

/// The mathematical form of a `MarkdownEvent`.
pub enum EventText {
    Image(Seq<char>),
    Html(Seq<char>),
    Other,
}

impl View for MarkdownEvent {
    type V = EventText;

    open spec fn view(&self) -> EventText {
        match self {
            MarkdownEvent::Image(dest) => EventText::Image(dest@),
            MarkdownEvent::Html(html) => EventText::Html(html@),
            MarkdownEvent::Other => EventText::Other,
        }
    }
}

impl DeepView for MarkdownEvent {
    type V = EventText;

    open spec fn deep_view(&self) -> EventText {
        self@
    }
}

/// The events that the markdown parser yields for `src`, in document order.
pub uninterp spec fn markdown_events(src: Seq<char>) -> Seq<EventText>;

/// The HTML that the markdown renderer makes of `src`.
pub uninterp spec fn rendered_markdown(src: Seq<char>, curly_quotes: bool) -> Seq<char>;

/// Runs `pulldown_cmark::Parser::new(src)` to its end and keeps, of each event, its
/// kind and the text that the search for assets reads. The parser is a function of
/// the source text alone; the contract names its event stream and states nothing
/// else of it.
#[verifier::external_body]
fn parse_markdown(src: &str) -> (events: Vec<MarkdownEvent>)
    ensures
        events.deep_view() == markdown_events(src@),
{
    pulldown_cmark::Parser::new(src).map(
        |event| match event {
            pulldown_cmark::Event::Start(pulldown_cmark::Tag::Image(_, dest, _)) => {
                MarkdownEvent::Image(dest.to_string())
            },
            pulldown_cmark::Event::Html(html) => MarkdownEvent::Html(html.to_string()),
            _ => MarkdownEvent::Other,
        },
    ).collect()
}

/// Calls `mdbook::utils::render_markdown`, which is a function of its two
/// arguments alone; the contract names its result and states nothing else of it.
#[verifier::external_body]
fn render(src: &str, curly_quotes: bool) -> (html: String)
    ensures
        html@ == rendered_markdown(src@, curly_quotes),
{
    mdbook::utils::render_markdown(src, curly_quotes)
}

/// The link that one event contributes: an image gives its destination as it
/// stands, raw HTML gives the first link found in it, anything else gives none.
pub open spec fn event_link(event: EventText) -> Option<Seq<char>> {
    match event {
        EventText::Image(dest) => Some(dest),
        EventText::Html(html) => first_link(html),
        EventText::Other => None,
    }
}

/// The links of a run of events: one per event that has one, in the order of the
/// events, with nothing merged or dropped.
pub open spec fn links_of_events(events: Seq<EventText>) -> Seq<Seq<char>>
    decreases events.len(),
{
    if events.len() == 0 {
        Seq::empty()
    } else {
        match event_link(events.last()) {
            Some(link) => links_of_events(events.drop_last()).push(link),
            None => links_of_events(events.drop_last()),
        }
    }
}

/// The links of a markdown document.
pub open spec fn links_of_markdown(src: Seq<char>) -> Seq<Seq<char>> {
    links_of_events(markdown_events(src))
}

/// The HTML of a chapter as the renderer gives it, with curly quotes left off.
pub open spec fn chapter_html(src: Seq<char>) -> Seq<char> {
    rendered_markdown(src, false)
}

/// Collects the links of a run of events, in order and with duplicates kept.
pub fn links_in_events(events: &Vec<MarkdownEvent>) -> (links: Vec<String>)
    ensures
        links.deep_view() == links_of_events(events.deep_view()),
{
    let mut links: Vec<String> = Vec::new();
    let mut i: usize = 0;
    assert(events.deep_view().take(0) =~= Seq::empty());
    while i < events.len()
        invariant
            i <= events.len(),
            links.deep_view() == links_of_events(events.deep_view().take(i as int)),
        decreases events.len() - i,
    {
        let ghost before = links.deep_view();
        let ghost seen = events.deep_view().take(i + 1);
        assert(seen.drop_last() =~= events.deep_view().take(i as int));
        assert(seen.last() == events[i as int]@);
        match &events[i] {
            MarkdownEvent::Image(dest) => {
                links.push(dest.clone());
                assert(links.deep_view() =~= before.push(dest@));
            },
            MarkdownEvent::Html(html) => {
                match html_link(html.as_str()) {
                    Some(link) => {
                        links.push(link);
                        assert(links.deep_view() =~= before.push(link@));
                    },
                    None => {},
                }
            },
            MarkdownEvent::Other => {},
        }
        i += 1;
    }
    assert(events.deep_view().take(events.len() as int) =~= events.deep_view());
    links
}

/// Finds the links of a markdown document: the destination of every image, and
/// the first link of every piece of raw HTML, in document order.
pub fn links_in_markdown(src: &str) -> (links: Vec<String>)
    ensures
        links.deep_view() == links_of_markdown(src@),
{
    let events = parse_markdown(src);
    links_in_events(&events)
}

/// Renders the markdown of a chapter to HTML, with curly quotes left off.
pub fn render_markdown(src: &str) -> (html: String)
    ensures
        html@ == chapter_html(src@),
{
    render(src, false)
}

} // verus!
