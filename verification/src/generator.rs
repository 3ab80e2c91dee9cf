//! The generator: everything that goes into the package, assembled from a book.
//!
//! The generator reads nothing from disk and writes nothing. The caller hands it
//! the book and what it read of the files that the book names; the generator hands
//! back the package, ready for the container writer, or the first error.

use vstd::prelude::*;
use crate::book::{book_chapters, chapters, pointed, BookItem, Chapter};
use crate::error::{outcome_of, Error, ErrorText};
use crate::html::{fix_html, fixed_html};
use crate::markdown::{chapter_html, render_markdown};
use crate::metadata::{metadata_entries, metadata_of, MetadataEntry};
use crate::resources::{
    asset_links, book_links, broken_link, find, first_broken, found_assets, is_broken,
    lemma_broken_link_fails, resources, resources_of, Asset, AssetLink, AssetLinkText, AssetText,
    Outcome, Resource, ResolvedLink, ResolvedLinkText,
};
use crate::stylesheet::{generate_stylesheet, stylesheet_of};
use crate::template::{
    is_plain_template, page_of_template, register_template, registered, render_page,
    template_fault, template_is_plain, template_name,
};
use crate::text::text_of;
use crate::toc::{content_unit, unit_of, ContentText, ContentUnit};

verus! {

/// What the generator is told about how to build the stylesheet.
#[derive(Debug, Clone, PartialEq, Eq)]
pub struct Config {
    /// Whether the built-in stylesheet opens the package's stylesheet.
    pub use_default_css: bool,
    /// The additional stylesheet files, in the order in which they are added.
    pub additional_css: Vec<String>,
}

/// The book and what is known about it.
#[derive(Debug, PartialEq, Eq)]
pub struct RenderContext {
    /// The canonical path of the directory that holds the book's sources.
    pub source_root: String,
    /// The items of the book, in document order.
    pub book: Vec<BookItem>,
    /// The book's title.
    pub title: Option<String>,
    /// The book's description.
    pub description: Option<String>,
    /// The book's authors.
    pub authors: Vec<String>,
}

/// What the caller found on disk for one asset reference.
#[derive(Debug, Clone, PartialEq, Eq)]
pub struct Found {
    /// The canonical path of what was found; for a path that leads to nothing, the
    /// path that was tried.
    pub path: String,
    /// What was found.
    pub outcome: Outcome,
}

/// Everything that goes into the package, in the order in which the container
/// writer is to receive it.
#[derive(Debug, Clone, PartialEq, Eq)]
pub struct Package {
    /// The metadata fields.
    pub metadata: Vec<MetadataEntry>,
    /// One content unit for each chapter, depth first.
    pub contents: Vec<ContentUnit>,
    /// The stylesheet.
    pub stylesheet: Vec<u8>,
    /// One asset for each reference of each chapter.
    pub assets: Vec<Asset>,
}

/// The mathematical form of a `Package`.
pub struct PackageText {
    pub metadata: Seq<(Seq<char>, Seq<char>)>,
    pub contents: Seq<ContentText>,
    pub stylesheet: Seq<u8>,
    pub assets: Seq<AssetText>,
}

impl View for Package {
    type V = PackageText;

    open spec fn view(&self) -> PackageText {
        PackageText {
            metadata: self.metadata.deep_view(),
            contents: self.contents.deep_view(),
            stylesheet: self.stylesheet@,
            assets: self.assets.deep_view(),
        }
    }
}

impl Package {
    /// Lists the files to embed in the package: every asset under its archive
    /// name, and an archive name that several assets share once only.
    pub fn resources(&self) -> (out: Vec<Resource>)
        ensures
            out.deep_view() == resources_of(self@.assets),
    {
        resources(&self.assets)
    }
}

impl DeepView for Package {
    type V = PackageText;

    open spec fn deep_view(&self) -> PackageText {
        self@
    }
}

/// What is said of a page template that is not plain.
pub open spec fn not_plain_message() -> Seq<char> {
    "the template uses a directive, a partial block, a partial that may include the template itself, or a closing tag with a sub-expression"@
}

/// What is wrong with a page template: `None` for a plain template that the
/// template engine accepts.
pub open spec fn template_verdict(template: Seq<char>) -> Option<Seq<char>> {
    if template_is_plain(template) {
        template_fault(template_name(), template)
    } else {
        Some(not_plain_message())
    }
}

/// The failure of a page template that is refused.
pub open spec fn template_failure(fault: Seq<char>) -> ErrorText {
    ErrorText::RenderFailure { chapter: template_name(), message: fault }
}

/// The name of the template's field that takes the chapter's HTML.
pub open spec fn content_key() -> Seq<char> {
    "content"@
}

/// The finished page of a chapter: its markdown rendered, the HTML fixed, and the
/// result set into the page template. The template engine's complaint where it
/// makes no page.
pub open spec fn page_of(template: Seq<char>, content: Seq<char>) -> Result<Seq<char>, Seq<char>> {
    page_of_template(template, content_key(), fixed_html(chapter_html(content)))
}

/// The content unit of a chapter around a page that the engine made, or the
/// failure to render the chapter with the engine's complaint.
pub open spec fn unit_around(ch: Chapter, page: Result<Seq<char>, Seq<char>>) -> Result<
    ContentText,
    ErrorText,
> {
    match page {
        Ok(body) => Ok(unit_of(ch, body)),
        Err(message) => Err(ErrorText::RenderFailure { chapter: ch.title@, message }),
    }
}

/// The content unit of a chapter, or the failure to render it.
pub open spec fn unit_result(template: Seq<char>, ch: Chapter) -> Result<ContentText, ErrorText> {
    unit_around(ch, page_of(template, ch.content@))
}

/// The content units of a run of chapters, one for each in order; the failure of
/// the first chapter that does not render, where there is one.
pub open spec fn units_of(template: Seq<char>, chapters: Seq<Chapter>) -> Result<
    Seq<ContentText>,
    ErrorText,
>
    decreases chapters.len(),
{
    if chapters.len() == 0 {
        Ok(Seq::empty())
    } else {
        match units_of(template, chapters.drop_last()) {
            Err(e) => Err(e),
            Ok(units) => match unit_result(template, chapters.last()) {
                Ok(unit) => Ok(units.push(unit)),
                Err(e) => Err(e),
            },
        }
    }
}

/// The `i`-th reference with what was found for it; a reference for which
/// nothing was handed in counts as leading to nothing.
pub open spec fn resolved_at(links: Seq<AssetLinkText>, found: Seq<Found>, i: int)
    -> ResolvedLinkText {
    if i < found.len() {
        ResolvedLinkText { link: links[i].link, path: found[i].path@, outcome: found[i].outcome }
    } else {
        ResolvedLinkText { link: links[i].link, path: Seq::empty(), outcome: Outcome::Missing }
    }
}

/// Every reference with what was found for it, in the order of the references.
pub open spec fn resolved_of(links: Seq<AssetLinkText>, found: Seq<Found>) -> Seq<
    ResolvedLinkText,
> {
    Seq::new(links.len(), |i: int| resolved_at(links, found, i))
}

/// The package of a book. The chapters are rendered first, then the stylesheet is
/// built, then the assets are collected; the first of these steps that fails gives
/// the error, and no part of a package comes out.
pub open spec fn package_of(
    template: Seq<char>,
    ctx: RenderContext,
    config: Config,
    stylesheets: Seq<Option<Vec<u8>>>,
    found: Seq<Found>,
) -> Result<PackageText, ErrorText> {
    let chapters = book_chapters(ctx.book@);
    match units_of(template, chapters) {
        Err(e) => Err(e),
        Ok(contents) => match stylesheet_of(
            config.use_default_css,
            config.additional_css@,
            stylesheets,
        ) {
            Err(e) => Err(e),
            Ok(stylesheet) => match found_assets(
                ctx.source_root@,
                resolved_of(book_links(chapters), found),
            ) {
                Err(e) => Err(e),
                Ok(assets) => Ok(
                    PackageText {
                        metadata: metadata_of(
                            text_of(ctx.title),
                            text_of(ctx.description),
                            ctx.authors.deep_view(),
                        ),
                        contents,
                        stylesheet,
                        assets,
                    },
                ),
            },
        },
    }
}

/// Pairs every reference with what was found for it.
pub fn resolve(links: &Vec<AssetLink>, found: &Vec<Found>) -> (resolved: Vec<ResolvedLink>)
    ensures
        resolved.deep_view() == resolved_of(links.deep_view(), found@),
{
    let mut resolved: Vec<ResolvedLink> = Vec::new();
    let mut i: usize = 0;
    while i < links.len()
        invariant
            i <= links.len(),
            resolved.deep_view() == resolved_of(links.deep_view(), found@).take(i as int),
        decreases links.len() - i,
    {
        let ghost before = resolved.deep_view();
        assert(links.deep_view()[i as int] == links[i as int]@);
        let entry = if i < found.len() {
            ResolvedLink {
                link: links[i].link.clone(),
                path: found[i].path.clone(),
                outcome: found[i].outcome,
            }
        } else {
            ResolvedLink {
                link: links[i].link.clone(),
                path: String::new(),
                outcome: Outcome::Missing,
            }
        };
        assert(entry@ == resolved_at(links.deep_view(), found@, i as int));
        resolved.push(entry);
        assert(resolved.deep_view() =~= before.push(entry@));
        assert(resolved.deep_view() =~= resolved_of(links.deep_view(), found@).take(i + 1));
        i += 1;
    }
    assert(resolved_of(links.deep_view(), found@).take(links.len() as int) =~= resolved_of(
        links.deep_view(),
        found@,
    ));
    resolved
}

/// Assembles the content unit of a chapter around what the template engine made
/// of its page.
pub fn unit_from_page(ch: &Chapter, page: Result<String, String>) -> (result: Result<
    ContentUnit,
    Error,
>)
    ensures
        outcome_of(result) == unit_around(*ch, crate::text::texts_of(page)),
{
    match page {
        Ok(body) => Ok(content_unit(ch, body)),
        Err(message) => Err(Error::RenderFailure { chapter: ch.title.clone(), message }),
    }
}

/// The failure to render that a refused page template gives, with what is wrong
/// with the template.
pub fn template_refused(message: String) -> (error: Error)
    ensures
        error@ == template_failure(message@),
{
    Error::RenderFailure { chapter: "index".to_owned(), message }
}

/// The generator of one book.
#[derive(Debug)]
pub struct Generator<'a> {
    ctx: &'a RenderContext,
    config: Config,
    registry: handlebars::Handlebars,
}

impl<'a> Generator<'a> {
    /// The book that the generator works on.
    pub closed spec fn context(&self) -> RenderContext {
        *self.ctx
    }

    /// The generator's configuration.
    pub closed spec fn configuration(&self) -> Config {
        self.config
    }

    /// The page template.
    pub closed spec fn page_template(&self) -> Seq<char> {
        registered(self.registry)
    }

    #[verifier::type_invariant]
    spec fn holds_plain_template(&self) -> bool {
        template_is_plain(registered(self.registry))
    }

    /// A generator for the book of `ctx`, with the given configuration and page
    /// template. The template is registered with the template engine under the
    /// name `index`. A template that is not plain, or that the engine refuses, is
    /// a failure to render under that name.
    pub fn new(ctx: &'a RenderContext, config: Config, index_template: String) -> (result: Result<
        Generator<'a>,
        Error,
    >)
        ensures
            result is Ok <==> template_verdict(index_template@) is None,
            result matches Ok(g) ==> g.context() == *ctx && g.configuration() == config
                && g.page_template() == index_template@,
            result matches Err(e) ==> template_verdict(index_template@) matches Some(f) && e@
                == template_failure(f),
    {
        if !is_plain_template(index_template.as_str()) {
            return Err(
                template_refused(
                    "the template uses a directive, a partial block, a partial that may include the template itself, or a closing tag with a sub-expression".to_owned(),
                ),
            );
        }
        match register_template("index", index_template.as_str()) {
            Ok(registry) => Ok(Generator { ctx, config, registry }),
            Err(message) => Err(template_refused(message)),
        }
    }

    /// Lists the metadata fields of the book: the generator's identity, then the
    /// title, the description and the authors, each where the book has it.
    pub fn populate_metadata(&self) -> (entries: Vec<MetadataEntry>)
        ensures
            entries.deep_view() == metadata_of(
                text_of(self.context().title),
                text_of(self.context().description),
                self.context().authors.deep_view(),
            ),
    {
        metadata_entries(&self.ctx.title, &self.ctx.description, &self.ctx.authors)
    }

    /// Makes the content unit of one chapter: renders its markdown, fixes the HTML,
    /// sets it into the page template, and adds the chapter's place in the table of
    /// contents.
    pub fn add_chapter(&self, ch: &Chapter) -> (result: Result<ContentUnit, Error>)
        ensures
            outcome_of(result) == unit_result(self.page_template(), *ch),
    {
        proof {
            use_type_invariant(self);
        }
        let html = render_markdown(ch.content.as_str());
        let html = fix_html(html.as_str());
        let page = render_page(&self.registry, "index", "content", html.as_str());
        unit_from_page(ch, page)
    }

    /// Makes the content units of the book: one for every chapter, depth first and
    /// in document order. Stops at the first chapter that does not render.
    pub fn generate_chapters(&self) -> (result: Result<Vec<ContentUnit>, Error>)
        ensures
            outcome_of(result) == units_of(self.page_template(), book_chapters(self.context().book@)),
    {
        let all = chapters(&self.ctx.book);
        let mut units: Vec<ContentUnit> = Vec::new();
        let mut i: usize = 0;
        assert(pointed(all@).take(0) =~= Seq::empty());
        assert(units.deep_view() =~= Seq::empty());
        while i < all.len()
            invariant
                i <= all.len(),
                pointed(all@) == book_chapters(self.context().book@),
                units_of(self.page_template(), pointed(all@).take(i as int)) == Ok::<
                    Seq<ContentText>,
                    ErrorText,
                >(units.deep_view()),
            decreases all.len() - i,
        {
            let ghost before = units.deep_view();
            let ghost seen = pointed(all@).take(i + 1);
            assert(seen.drop_last() =~= pointed(all@).take(i as int));
            assert(seen.last() == *all@[i as int]);
            match self.add_chapter(all[i]) {
                Ok(unit) => {
                    units.push(unit);
                    assert(units.deep_view() =~= before.push(unit@));
                },
                Err(e) => {
                    proof {
                        lemma_units_fail(self.page_template(), pointed(all@), i + 1);
                    }
                    return Err(e);
                },
            }
            i += 1;
        }
        assert(pointed(all@).take(all.len() as int) =~= pointed(all@));
        Ok(units)
    }

    /// Builds the stylesheet of the package from what was read of the additional
    /// stylesheet files, in configured order.
    pub fn generate_stylesheet(&self, stylesheets: &Vec<Option<Vec<u8>>>) -> (result: Result<
        Vec<u8>,
        Error,
    >)
        ensures
            outcome_of(result) == stylesheet_of(
                self.configuration().use_default_css,
                self.configuration().additional_css@,
                stylesheets@,
            ),
    {
        generate_stylesheet(self.config.use_default_css, &self.config.additional_css, stylesheets)
    }

    /// The paths of the additional stylesheet files, in configured order.
    pub fn stylesheet_paths(&self) -> (paths: &Vec<String>)
        ensures
            paths@ == self.configuration().additional_css@,
    {
        &self.config.additional_css
    }

    /// Lists the asset references of the book, for the caller to look up on disk.
    pub fn asset_links(&self) -> (links: Vec<AssetLink>)
        ensures
            links.deep_view() == book_links(book_chapters(self.context().book@)),
    {
        asset_links(&self.ctx.book)
    }

    /// Collects the assets of the book from what was found for each reference.
    pub fn additional_assets(&self, found: &Vec<Found>) -> (result: Result<Vec<Asset>, Error>)
        ensures
            outcome_of(result) == found_assets(
                self.context().source_root@,
                resolved_of(book_links(book_chapters(self.context().book@)), found@),
            ),
    {
        let links = self.asset_links();
        let resolved = resolve(&links, found);
        find(self.ctx.source_root.as_str(), &resolved)
    }

    /// Assembles the package: the metadata, the content unit of every chapter, the
    /// stylesheet and the assets. `stylesheets` holds what was read of each
    /// additional stylesheet file, and `found` what was found for each asset
    /// reference, both in the order in which the generator lists them. The first
    /// failure ends the generation.
    pub fn generate(&self, stylesheets: &Vec<Option<Vec<u8>>>, found: &Vec<Found>) -> (result:
        Result<Package, Error>)
        ensures
            outcome_of(result) == package_of(
                self.page_template(),
                self.context(),
                self.configuration(),
                stylesheets@,
                found@,
            ),
    {
        let metadata = self.populate_metadata();
        let contents = match self.generate_chapters() {
            Ok(contents) => contents,
            Err(e) => {
                return Err(e);
            },
        };
        let stylesheet = match self.generate_stylesheet(stylesheets) {
            Ok(stylesheet) => stylesheet,
            Err(e) => {
                return Err(e);
            },
        };
        assert(stylesheet.deep_view() =~= stylesheet@);
        let assets = match self.additional_assets(found) {
            Ok(assets) => assets,
            Err(e) => {
                return Err(e);
            },
        };
        Ok(Package { metadata, contents, stylesheet, assets })
    }
}

/// A chapter that does not render within the first `n` fails every longer run
/// with the same error.
proof fn lemma_units_fail(template: Seq<char>, chapters: Seq<Chapter>, n: int)
    requires
        0 <= n <= chapters.len(),
        units_of(template, chapters.take(n)) is Err,
    ensures
        units_of(template, chapters) == units_of(template, chapters.take(n)),
    decreases chapters.len() - n,
{
    if n < chapters.len() {
        assert(chapters.take(n + 1).drop_last() =~= chapters.take(n));
        lemma_units_fail(template, chapters, n + 1);
    } else {
        assert(chapters.take(n) =~= chapters);
    }
}

/// One reference that leads to no regular file fails the generation of a book
/// whose chapters render and whose stylesheet builds: the result is the error of
/// the first such reference, and no package comes out.
pub proof fn lemma_broken_link_fails_generation(
    template: Seq<char>,
    ctx: RenderContext,
    config: Config,
    stylesheets: Seq<Option<Vec<u8>>>,
    found: Seq<Found>,
    k: int,
)
    requires
        units_of(template, book_chapters(ctx.book@)) is Ok,
        stylesheet_of(config.use_default_css, config.additional_css@, stylesheets) is Ok,
        0 <= k < book_links(book_chapters(ctx.book@)).len(),
        k < found.len() ==> found[k].outcome != Outcome::File,
    ensures
        package_of(template, ctx, config, stylesheets, found) == Err::<PackageText, ErrorText>(
            broken_link(
                resolved_of(book_links(book_chapters(ctx.book@)), found)[first_broken(
                    resolved_of(book_links(book_chapters(ctx.book@)), found),
                )],
            ),
        ),
{
    let rs = resolved_of(book_links(book_chapters(ctx.book@)), found);
    assert(is_broken(rs[k]));
    lemma_broken_link_fails(ctx.source_root@, rs, k);
}

} // verus!
