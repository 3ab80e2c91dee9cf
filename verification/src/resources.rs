//! The assets of a book: the files that its chapters refer to.
//!
//! Finding them takes three steps. The library lists every reference of every
//! chapter. The caller looks each one up on disk, joining the source root, the
//! directory of the chapter and the segments of the link, and reports for each what
//! it found. The library then turns the reports into assets, or into the error of
//! the first reference that leads nowhere.

use vstd::prelude::*;
use crate::book::{book_chapters, chapters, pointed, BookItem, Chapter};
use crate::error::{outcome_of, Error, ErrorText};
use crate::markdown::{links_in_markdown, links_of_markdown};
use crate::path::{extension, extension_of};
use crate::text::{
    chars_of, find_char, first_index_of, lemma_first_index_of, string_of, text_of,
};

verus! {

/// A file on disk that a chapter refers to.
#[derive(Debug, Clone, PartialEq, Eq)]
pub struct Asset {
    /// The asset's absolute, canonical location on disk.
    pub location_on_disk: String,
    /// The asset's path relative to the source root, which names it in the package.
    pub filename: String,
    /// The asset's media type.
    pub mimetype: String,
}

/// The mathematical form of an `Asset`.
pub struct AssetText {
    pub location_on_disk: Seq<char>,
    pub filename: Seq<char>,
    pub mimetype: Seq<char>,
}

impl View for Asset {
    type V = AssetText;

    open spec fn view(&self) -> AssetText {
        AssetText {
            location_on_disk: self.location_on_disk@,
            filename: self.filename@,
            mimetype: self.mimetype@,
        }
    }
}

impl DeepView for Asset {
    type V = AssetText;

    open spec fn deep_view(&self) -> AssetText {
        self@
    }
}

/// The media type that the table of media types gives for a file extension.
pub uninterp spec fn media_type_of(extension: Seq<char>) -> Seq<char>;

/// The generic binary type, for a file of which nothing more is known.
pub open spec fn generic_binary_type() -> Seq<char> {
    "application/octet-stream"@
}

/// The media type that goes with a file extension: the generic binary type where
/// there is no extension, and else what the table gives.
pub open spec fn media_type(extension: Seq<char>) -> Seq<char> {
    if extension.len() == 0 {
        generic_binary_type()
    } else {
        media_type_of(extension)
    }
}

/// Calls `mime_guess::from_ext(extension).first_or_octet_stream()` and writes the
/// media type out as text. The guess looks the extension up in a fixed table; the
/// contract names its result, and states of it only that an empty extension, for
/// which the guess is empty, gets the generic binary type.
#[verifier::external_body]
fn guess_media_type(extension: &str) -> (mimetype: String)
    ensures
        mimetype@ == media_type_of(extension@),
        extension@.len() == 0 ==> mimetype@ == "application/octet-stream"@,
{
    mime_guess::from_ext(extension).first_or_octet_stream().to_string()
}

impl Asset {
    /// The asset at `location_on_disk`, named `filename` in the package, with the
    /// media type that goes with the extension of its location.
    pub fn new(filename: String, location_on_disk: String) -> (asset: Asset)
        ensures
            asset@ == (AssetText {
                location_on_disk: location_on_disk@,
                filename: filename@,
                mimetype: media_type(extension_of(location_on_disk@)),
            }),
    {
        let ext = extension(location_on_disk.as_str());
        let mimetype = guess_media_type(ext.as_str());
        Asset { location_on_disk, filename, mimetype }
    }

    /// The name of the asset's entry in the package: its file name with every
    /// backslash turned into a forward slash.
    pub fn archive_name(&self) -> (name: String)
        ensures
            name@ == with_forward_slashes(self.filename@),
    {
        forward_slashes(self.filename.as_str())
    }
}

/// `s` with every backslash turned into a forward slash.
pub open spec fn with_forward_slashes(s: Seq<char>) -> Seq<char> {
    s.map_values(
        |c: char|
            if c == '\\' {
                '/'
            } else {
                c
            },
    )
}

/// Turns every backslash of `s` into a forward slash.
pub fn forward_slashes(s: &str) -> (out: String)
    ensures
        out@ == with_forward_slashes(s@),
{
    let v = chars_of(s);
    let mut out = String::new();
    let mut i: usize = 0;
    while i < v.len()
        invariant
            i <= v.len(),
            v@ == s@,
            out@ == with_forward_slashes(v@.take(i as int)),
        decreases v.len() - i,
    {
        let c = if v[i] == '\\' {
            '/'
        } else {
            v[i]
        };
        out.push(c);
        assert(out@ =~= with_forward_slashes(v@.take(i + 1)));
        i += 1;
    }
    assert(v@.take(v.len() as int) =~= v@);
    out
}

/// The segments of `s` from `from` on: the pieces between its `/` characters. A
/// text without `/` is one segment, and an empty piece is a segment too.
pub open spec fn segments_from(s: Seq<char>, from: int) -> Seq<Seq<char>>
    decreases s.len() - from,
{
    let k = first_index_of(s, '/', from);
    if from < 0 || from > s.len() {
        Seq::empty()
    } else if k >= s.len() {
        seq![s.subrange(from, s.len() as int)]
    } else {
        proof {
            lemma_first_index_of(s, '/', from);
        }
        seq![s.subrange(from, k)] + segments_from(s, k + 1)
    }
}

/// The segments of a path or a link.
pub open spec fn segments_of(s: Seq<char>) -> Seq<Seq<char>> {
    segments_from(s, 0)
}

/// Splits a path or a link at every `/`.
pub fn segments(s: &str) -> (parts: Vec<String>)
    ensures
        parts.deep_view() == segments_of(s@),
{
    let v = chars_of(s);
    let mut parts: Vec<String> = Vec::new();
    let mut from: usize = 0;
    loop
        invariant_except_break
            from <= v.len(),
            v@ == s@,
            parts.deep_view() + segments_from(v@, from as int) == segments_of(v@),
        ensures
            parts.deep_view() == segments_of(s@),
        decreases v.len() - from,
    {
        let ghost before = parts.deep_view();
        let k = find_char(&v, '/', from);
        parts.push(string_of(&v, from, k));
        assert(parts.deep_view() =~= before.push(v@.subrange(from as int, k as int)));
        if k >= v.len() {
            assert(parts.deep_view() =~= before + segments_from(v@, from as int));
            break;
        }
        assert(parts.deep_view() + segments_from(v@, k + 1) =~= before + segments_from(
            v@,
            from as int,
        ));
        from = k + 1;
    }
    parts
}

/// The root is written with backslashes between its segments, as on hosts that
/// name a drive first: it holds a `\` and does not start with `/`.
pub open spec fn written_with_backslashes(root: Seq<char>) -> bool {
    root.len() > 0 && root[0] != '/' && root.contains('\\')
}

/// A character that parts the segments of a path under `root`: `/`, and `\` too
/// where the root itself is written with it.
pub open spec fn is_separator(root: Seq<char>, c: char) -> bool {
    c == '/' || (c == '\\' && written_with_backslashes(root))
}

/// `root` without the separator that may end it.
pub open spec fn trimmed_root(root: Seq<char>) -> Seq<char> {
    if root.len() > 0 && is_separator(root, root.last()) {
        root.drop_last()
    } else {
        root
    }
}

/// The path of `location` relative to `root`: what follows the root and one
/// separator, where `location` starts so and something follows.
pub open spec fn relative_to(root: Seq<char>, location: Seq<char>) -> Option<Seq<char>> {
    let r = trimmed_root(root);
    if r.len() + 1 < location.len() && location.subrange(0, r.len() as int) == r && is_separator(
        root,
        location[r.len() as int],
    ) {
        Some(location.subrange(r.len() as int + 1, location.len() as int))
    } else {
        None
    }
}

fn holds_backslash(v: &Vec<char>) -> (b: bool)
    ensures
        b == v@.contains('\\'),
{
    let mut i: usize = 0;
    while i < v.len()
        invariant
            i <= v.len(),
            forall|j: int| 0 <= j < i ==> v@[j] != '\\',
        decreases v.len() - i,
    {
        if v[i] == '\\' {
            return true;
        }
        i += 1;
    }
    false
}

/// Strips the source root from a location under it.
pub fn strip_root(root: &str, location: &str) -> (relative: Option<String>)
    ensures
        text_of(relative) == relative_to(root@, location@),
{
    let r = chars_of(root);
    let l = chars_of(location);
    let backslashes = r.len() > 0 && r[0] != '/' && holds_backslash(&r);
    let n = if r.len() > 0 && (r[r.len() - 1] == '/' || (r[r.len() - 1] == '\\' && backslashes)) {
        r.len() - 1
    } else {
        r.len()
    };
    assert(trimmed_root(root@) =~= r@.subrange(0, n as int));
    if l.len() <= n || l.len() - n < 2 {
        return None;
    }
    let mut i: usize = 0;
    while i < n
        invariant
            i <= n <= r.len(),
            n < l.len(),
            l@ == location@,
            r@ == root@,
            backslashes == written_with_backslashes(root@),
            trimmed_root(root@) == r@.subrange(0, n as int),
            l@.subrange(0, i as int) == r@.subrange(0, i as int),
        decreases n - i,
    {
        if l[i] != r[i] {
            assert(l@.subrange(0, n as int)[i as int] != r@.subrange(0, n as int)[i as int]);
            return None;
        }
        assert(l@.subrange(0, i + 1) =~= l@.subrange(0, i as int).push(l@[i as int]));
        assert(r@.subrange(0, i + 1) =~= r@.subrange(0, i as int).push(r@[i as int]));
        i += 1;
    }
    if l[n] != '/' && !(l[n] == '\\' && backslashes) {
        return None;
    }
    Some(string_of(&l, n + 1, l.len()))
}

/// One reference to an asset: a link, and the chapter that holds it.
#[derive(Debug, Clone, PartialEq, Eq)]
pub struct AssetLink {
    /// The path of the chapter's file, relative to the source root. The link is
    /// relative to the directory of this file.
    pub chapter_path: String,
    /// The link as the chapter wrote it.
    pub link: String,
}

/// The mathematical form of an `AssetLink`.
pub struct AssetLinkText {
    pub chapter_path: Seq<char>,
    pub link: Seq<char>,
}

impl View for AssetLink {
    type V = AssetLinkText;

    open spec fn view(&self) -> AssetLinkText {
        AssetLinkText { chapter_path: self.chapter_path@, link: self.link@ }
    }
}

impl DeepView for AssetLink {
    type V = AssetLinkText;

    open spec fn deep_view(&self) -> AssetLinkText {
        self@
    }
}

/// The references of one chapter: one for each link of its markdown, in document
/// order, duplicates kept.
pub open spec fn chapter_links(chapter_path: Seq<char>, content: Seq<char>) -> Seq<AssetLinkText> {
    links_of_markdown(content).map_values(|link: Seq<char>| AssetLinkText { chapter_path, link })
}

/// The references of a run of chapters: those of the first chapter, then those of
/// the second, and so on.
pub open spec fn book_links(chapters: Seq<Chapter>) -> Seq<AssetLinkText>
    decreases chapters.len(),
{
    if chapters.len() == 0 {
        Seq::empty()
    } else {
        book_links(chapters.drop_last()) + chapter_links(
            chapters.last().path@,
            chapters.last().content@,
        )
    }
}

/// Lists the asset references of one chapter's markdown: the destination of every
/// image, and the first link of every piece of raw HTML, in document order.
pub fn assets_in_markdown(src: &str, chapter_path: &str) -> (links: Vec<AssetLink>)
    ensures
        links.deep_view() == chapter_links(chapter_path@, src@),
{
    let found = links_in_markdown(src);
    let mut links: Vec<AssetLink> = Vec::new();
    let mut i: usize = 0;
    while i < found.len()
        invariant
            i <= found.len(),
            found.deep_view() == links_of_markdown(src@),
            links.deep_view() == chapter_links(chapter_path@, src@).take(i as int),
        decreases found.len() - i,
    {
        let ghost before = links.deep_view();
        assert(found.deep_view()[i as int] == found[i as int]@);
        links.push(AssetLink { chapter_path: chapter_path.to_owned(), link: found[i].clone() });
        assert(links.deep_view() =~= before.push(chapter_links(chapter_path@, src@)[i as int]));
        assert(links.deep_view() =~= chapter_links(chapter_path@, src@).take(i + 1));
        i += 1;
    }
    assert(chapter_links(chapter_path@, src@).take(found.len() as int) =~= chapter_links(
        chapter_path@,
        src@,
    ));
    links
}

/// Lists the asset references of a whole book, chapter by chapter, depth first.
pub fn asset_links(items: &Vec<BookItem>) -> (links: Vec<AssetLink>)
    ensures
        links.deep_view() == book_links(book_chapters(items@)),
{
    let all = chapters(items);
    let mut links: Vec<AssetLink> = Vec::new();
    let mut i: usize = 0;
    assert(pointed(all@).take(0) =~= Seq::empty());
    while i < all.len()
        invariant
            i <= all.len(),
            pointed(all@) == book_chapters(items@),
            links.deep_view() == book_links(pointed(all@).take(i as int)),
        decreases all.len() - i,
    {
        let ghost before = links.deep_view();
        let ghost seen = pointed(all@).take(i + 1);
        assert(seen.drop_last() =~= pointed(all@).take(i as int));
        assert(seen.last() == *all@[i as int]);
        let ch = all[i];
        let mut found = assets_in_markdown(ch.content.as_str(), ch.path.as_str());
        let ghost added = found.deep_view();
        links.append(&mut found);
        assert(links.deep_view() =~= before + added);
        i += 1;
    }
    assert(pointed(all@).take(all.len() as int) =~= pointed(all@));
    links
}

/// What the caller found on disk for a reference.
#[derive(Debug, Clone, Copy, PartialEq, Eq, Structural)]
pub enum Outcome {
    /// Nothing is there: the path could not be made canonical.
    Missing,
    /// Something is there that is no regular file.
    NotAFile,
    /// A regular file is there.
    File,
}

/// A reference and what the caller found for it.
#[derive(Debug, Clone, PartialEq, Eq)]
pub struct ResolvedLink {
    /// The link as the chapter wrote it.
    pub link: String,
    /// The canonical path of what was found; for a path that leads to nothing, the
    /// path that was tried.
    pub path: String,
    /// What was found.
    pub outcome: Outcome,
}

/// The mathematical form of a `ResolvedLink`.
pub struct ResolvedLinkText {
    pub link: Seq<char>,
    pub path: Seq<char>,
    pub outcome: Outcome,
}

impl View for ResolvedLink {
    type V = ResolvedLinkText;

    open spec fn view(&self) -> ResolvedLinkText {
        ResolvedLinkText { link: self.link@, path: self.path@, outcome: self.outcome }
    }
}

impl DeepView for ResolvedLink {
    type V = ResolvedLinkText;

    open spec fn deep_view(&self) -> ResolvedLinkText {
        self@
    }
}

/// The reference leads to no regular file.
pub open spec fn is_broken(r: ResolvedLinkText) -> bool {
    r.outcome != Outcome::File
}

/// The reference leads to a file that does not lie under `root`.
pub open spec fn is_outside(root: Seq<char>, r: ResolvedLinkText) -> bool {
    relative_to(root, r.path) is None
}

/// Index of the first reference of `rs` that leads to no regular file; the length
/// of `rs` where every one leads to a file.
pub open spec fn first_broken(rs: Seq<ResolvedLinkText>) -> int
    decreases rs.len(),
{
    if rs.len() == 0 {
        0
    } else if first_broken(rs.drop_last()) < rs.len() - 1 {
        first_broken(rs.drop_last())
    } else if is_broken(rs.last()) {
        rs.len() - 1
    } else {
        rs.len() as int
    }
}

/// Index of the first reference of `rs` whose path does not lie under `root`; the
/// length of `rs` where every path does.
pub open spec fn first_outside(root: Seq<char>, rs: Seq<ResolvedLinkText>) -> int
    decreases rs.len(),
{
    if rs.len() == 0 {
        0
    } else if first_outside(root, rs.drop_last()) < rs.len() - 1 {
        first_outside(root, rs.drop_last())
    } else if is_outside(root, rs.last()) {
        rs.len() - 1
    } else {
        rs.len() as int
    }
}

/// The asset that a reference to a regular file under `root` gives.
pub open spec fn asset_of(root: Seq<char>, r: ResolvedLinkText) -> AssetText {
    AssetText {
        location_on_disk: r.path,
        filename: relative_to(root, r.path).unwrap(),
        mimetype: media_type(extension_of(r.path)),
    }
}

/// The error that a reference gives which leads nowhere.
pub open spec fn broken_link(r: ResolvedLinkText) -> ErrorText {
    ErrorText::BrokenLink { link: r.link, path: r.path }
}

/// The error that a reference gives which leads to a file outside the source
/// root.
pub open spec fn outside_root(r: ResolvedLinkText) -> ErrorText {
    ErrorText::OutsideRoot { link: r.link, path: r.path }
}

/// What the collection of assets comes to. One reference that leads to no regular
/// file fails the whole of it, as a broken link, with the first such reference.
/// Where every reference leads to a file, one file outside the source root fails
/// it, as such, with the first such reference. Otherwise every reference gives one
/// asset, in order, and none is merged with another.
pub open spec fn found_assets(root: Seq<char>, rs: Seq<ResolvedLinkText>) -> Result<
    Seq<AssetText>,
    ErrorText,
> {
    if first_broken(rs) < rs.len() {
        Err(broken_link(rs[first_broken(rs)]))
    } else if first_outside(root, rs) < rs.len() {
        Err(outside_root(rs[first_outside(root, rs)]))
    } else {
        Ok(rs.map_values(|r: ResolvedLinkText| asset_of(root, r)))
    }
}

/// Before its result, `first_broken` passes over files only, and it stops on a
/// reference that leads to none.
pub proof fn lemma_first_broken(rs: Seq<ResolvedLinkText>)
    ensures
        0 <= first_broken(rs) <= rs.len(),
        first_broken(rs) < rs.len() ==> is_broken(rs[first_broken(rs)]),
        forall|k: int| 0 <= k < first_broken(rs) ==> !is_broken(#[trigger] rs[k]),
    decreases rs.len(),
{
    if rs.len() > 0 {
        lemma_first_broken(rs.drop_last());
        assert forall|k: int| 0 <= k < first_broken(rs) implies !is_broken(#[trigger] rs[k]) by {
            if k < rs.len() - 1 {
                assert(rs.drop_last()[k] == rs[k]);
            }
        }
        if first_broken(rs.drop_last()) < rs.len() - 1 {
            assert(rs.drop_last()[first_broken(rs.drop_last())] == rs[first_broken(rs)]);
        }
    }
}

/// Before its result, `first_outside` passes over paths under the root only, and
/// it stops on a path that is not under it.
pub proof fn lemma_first_outside(root: Seq<char>, rs: Seq<ResolvedLinkText>)
    ensures
        0 <= first_outside(root, rs) <= rs.len(),
        first_outside(root, rs) < rs.len() ==> is_outside(root, rs[first_outside(root, rs)]),
        forall|k: int| 0 <= k < first_outside(root, rs) ==> !is_outside(root, #[trigger] rs[k]),
    decreases rs.len(),
{
    if rs.len() > 0 {
        lemma_first_outside(root, rs.drop_last());
        assert forall|k: int| 0 <= k < first_outside(root, rs) implies !is_outside(
            root,
            #[trigger] rs[k],
        ) by {
            if k < rs.len() - 1 {
                assert(rs.drop_last()[k] == rs[k]);
            }
        }
        if first_outside(root, rs.drop_last()) < rs.len() - 1 {
            assert(rs.drop_last()[first_outside(root, rs.drop_last())] == rs[first_outside(
                root,
                rs,
            )]);
        }
    }
}

/// What the lookup of the references comes to, by itself: the canonical path of
/// every reference, in order, where each leads to a regular file; else the broken
/// link of the first reference that leads to none.
pub open spec fn resolved_paths_of(rs: Seq<ResolvedLinkText>) -> Result<Seq<Seq<char>>, ErrorText> {
    if first_broken(rs) < rs.len() {
        Err(broken_link(rs[first_broken(rs)]))
    } else {
        Ok(rs.map_values(|r: ResolvedLinkText| r.path))
    }
}

/// Gives the canonical path of every reference, in order; fails with a broken
/// link on the first reference that leads to no regular file, and on nothing
/// else.
pub fn resolved_paths(resolved: &Vec<ResolvedLink>) -> (result: Result<Vec<String>, Error>)
    ensures
        outcome_of(result) == resolved_paths_of(resolved.deep_view()),
{
    let ghost rs = resolved.deep_view();
    let mut paths: Vec<String> = Vec::new();
    let mut i: usize = 0;
    assert(rs.take(0) =~= Seq::empty());
    while i < resolved.len()
        invariant
            i <= resolved.len(),
            rs == resolved.deep_view(),
            first_broken(rs.take(i as int)) == i,
            paths.deep_view() == rs.take(i as int).map_values(|r: ResolvedLinkText| r.path),
        decreases resolved.len() - i,
    {
        let ghost before = paths.deep_view();
        assert(rs.take(i + 1).drop_last() =~= rs.take(i as int));
        assert(rs.take(i + 1).last() == resolved[i as int]@);
        match resolved[i].outcome {
            Outcome::File => {
                paths.push(resolved[i].path.clone());
                assert(paths.deep_view() =~= before.push(rs[i as int].path));
                assert(paths.deep_view() =~= rs.take(i + 1).map_values(
                    |r: ResolvedLinkText| r.path,
                ));
            },
            _ => {
                proof {
                    lemma_first_broken_prefix(rs, i + 1);
                }
                return Err(
                    Error::BrokenLink {
                        link: resolved[i].link.clone(),
                        path: resolved[i].path.clone(),
                    },
                );
            },
        }
        i += 1;
    }
    assert(rs.take(resolved.len() as int) =~= rs);
    Ok(paths)
}

/// The lookup fails exactly where some reference leads to no regular file.
pub proof fn lemma_lookup_fails_iff_broken(rs: Seq<ResolvedLinkText>)
    ensures
        resolved_paths_of(rs) is Err <==> exists|k: int| 0 <= k < rs.len() && is_broken(#[trigger] rs[k]),
{
    lemma_first_broken(rs);
    if first_broken(rs) < rs.len() {
        assert(is_broken(rs[first_broken(rs)]));
    }
}

/// Turns the references of a book, each with what was found for it, into the
/// book's assets. Fails with a broken link on the first reference that leads to no
/// regular file; where there is none, fails on the first file that does not lie
/// under the source root.
pub fn find(root: &str, resolved: &Vec<ResolvedLink>) -> (result: Result<Vec<Asset>, Error>)
    ensures
        outcome_of(result) == found_assets(root@, resolved.deep_view()),
{
    let ghost rs = resolved.deep_view();
    match resolved_paths(resolved) {
        Err(e) => {
            return Err(e);
        },
        Ok(_) => {},
    }
    let mut assets: Vec<Asset> = Vec::new();
    let mut j: usize = 0;
    while j < resolved.len()
        invariant
            j <= resolved.len(),
            rs == resolved.deep_view(),
            first_broken(rs) == rs.len(),
            first_outside(root@, rs.take(j as int)) == j,
            assets.deep_view() == rs.take(j as int).map_values(
                |r: ResolvedLinkText| asset_of(root@, r),
            ),
        decreases resolved.len() - j,
    {
        let ghost before = assets.deep_view();
        assert(rs.take(j + 1).drop_last() =~= rs.take(j as int));
        assert(rs.take(j + 1).last() == resolved[j as int]@);
        match strip_root(root, resolved[j].path.as_str()) {
            Some(filename) => {
                assets.push(Asset::new(filename, resolved[j].path.clone()));
                assert(assets.deep_view() =~= before.push(asset_of(root@, rs[j as int])));
                assert(assets.deep_view() =~= rs.take(j + 1).map_values(
                    |r: ResolvedLinkText| asset_of(root@, r),
                ));
            },
            None => {
                proof {
                    lemma_first_outside_prefix(root@, rs, j + 1);
                }
                return Err(
                    Error::OutsideRoot {
                        link: resolved[j].link.clone(),
                        path: resolved[j].path.clone(),
                    },
                );
            },
        }
        j += 1;
    }
    assert(rs.take(resolved.len() as int) =~= rs);
    Ok(assets)
}

/// A reference that leads to no file within the first `n` is the first such of the
/// whole run.
proof fn lemma_first_broken_prefix(rs: Seq<ResolvedLinkText>, n: int)
    requires
        0 <= n <= rs.len(),
        first_broken(rs.take(n)) < n,
    ensures
        first_broken(rs) == first_broken(rs.take(n)),
    decreases rs.len() - n,
{
    if n < rs.len() {
        assert(rs.take(n + 1).drop_last() =~= rs.take(n));
        lemma_first_broken_prefix(rs, n + 1);
    } else {
        assert(rs.take(n) =~= rs);
    }
}

/// A path outside the root within the first `n` is the first such of the whole run.
proof fn lemma_first_outside_prefix(root: Seq<char>, rs: Seq<ResolvedLinkText>, n: int)
    requires
        0 <= n <= rs.len(),
        first_outside(root, rs.take(n)) < n,
    ensures
        first_outside(root, rs) == first_outside(root, rs.take(n)),
    decreases rs.len() - n,
{
    if n < rs.len() {
        assert(rs.take(n + 1).drop_last() =~= rs.take(n));
        lemma_first_outside_prefix(root, rs, n + 1);
    } else {
        assert(rs.take(n) =~= rs);
    }
}

/// One reference that leads to no regular file fails the whole collection: the
/// result is the broken link of the first such reference, and no asset comes out
/// for any chapter.
pub proof fn lemma_broken_link_fails(root: Seq<char>, rs: Seq<ResolvedLinkText>, k: int)
    requires
        0 <= k < rs.len(),
        is_broken(rs[k]),
    ensures
        first_broken(rs) <= k,
        found_assets(root, rs) == Err::<Seq<AssetText>, ErrorText>(
            broken_link(rs[first_broken(rs)]),
        ),
{
    lemma_first_broken(rs);
}

/// The collection fails with a broken link only for a reference that leads to no
/// regular file: where every reference leads to one, the result is no broken link.
pub proof fn lemma_broken_link_only_if_broken(root: Seq<char>, rs: Seq<ResolvedLinkText>)
    requires
        found_assets(root, rs) is Err,
        found_assets(root, rs)->Err_0 is BrokenLink,
    ensures
        first_broken(rs) < rs.len(),
        is_broken(rs[first_broken(rs)]),
{
    lemma_first_broken(rs);
}

/// Where every reference leads to a regular file under the source root, the
/// collection succeeds with one asset for each reference, in order: none is
/// dropped and none is merged with another.
pub proof fn lemma_every_link_gives_an_asset(root: Seq<char>, rs: Seq<ResolvedLinkText>)
    requires
        forall|k: int| 0 <= k < rs.len() ==> !is_broken(#[trigger] rs[k]) && !is_outside(root, rs[k]),
    ensures
        found_assets(root, rs) is Ok,
        found_assets(root, rs)->Ok_0.len() == rs.len(),
        forall|k: int|
            0 <= k < rs.len() ==> (#[trigger] found_assets(root, rs)->Ok_0[k]) == asset_of(
                root,
                rs[k],
            ),
{
    lemma_first_broken(rs);
    lemma_first_outside(root, rs);
}

/// A markdown image whose destination leads to a regular file under the source
/// root gives exactly one asset, and the asset's location is the canonical path of
/// that file.
pub proof fn lemma_one_image_one_asset(root: Seq<char>, dest: Seq<char>, path: Seq<char>)
    requires
        relative_to(root, path) is Some,
    ensures
        crate::markdown::links_of_events(seq![crate::markdown::EventText::Image(dest)]) == seq![
            dest,
        ],
        found_assets(
            root,
            seq![(ResolvedLinkText { link: dest, path, outcome: Outcome::File })],
        ) == Ok::<Seq<AssetText>, ErrorText>(
            seq![
                (AssetText {
                    location_on_disk: path,
                    filename: relative_to(root, path).unwrap(),
                    mimetype: media_type(extension_of(path)),
                }),
            ],
        ),
{
    let events = seq![crate::markdown::EventText::Image(dest)];
    assert(events.drop_last() =~= Seq::empty());
    assert(crate::markdown::links_of_events(events.drop_last()) =~= Seq::empty());
    assert(crate::markdown::links_of_events(events) =~= seq![dest]);
    let r = ResolvedLinkText { link: dest, path, outcome: Outcome::File };
    let rs = seq![r];
    assert(rs.drop_last() =~= Seq::empty());
    assert(first_broken(rs.drop_last()) == 0);
    assert(first_outside(root, rs.drop_last()) == 0);
    assert(first_broken(rs) == 1);
    assert(first_outside(root, rs) == 1);
    assert(rs.map_values(|r: ResolvedLinkText| asset_of(root, r)) =~= seq![asset_of(root, r)]);
}

/// An asset's location is the source root, one separator, and the asset's file
/// name.
pub proof fn lemma_location_is_root_and_filename(root: Seq<char>, location: Seq<char>)
    requires
        relative_to(root, location) is Some,
    ensures
        location == trimmed_root(root) + seq![location[trimmed_root(root).len() as int]]
            + relative_to(root, location).unwrap(),
        is_separator(root, location[trimmed_root(root).len() as int]),
        relative_to(root, location).unwrap().len() > 0,
{
    let r = trimmed_root(root);
    assert(location =~= location.subrange(0, r.len() as int) + seq![location[r.len() as int]]
        + location.subrange(
        r.len() as int + 1,
        location.len() as int,
    ));
}

/// The segments that lead from the source root to what a link points at: those
/// of the chapter's path without the last, which is the chapter's file, and then
/// those of the link.
pub open spec fn lookup_segments_of(chapter_path: Seq<char>, link: Seq<char>) -> Seq<Seq<char>> {
    segments_of(chapter_path).drop_last() + segments_of(link)
}

/// A text has at least one segment.
pub proof fn lemma_segments_not_empty(s: Seq<char>, from: int)
    requires
        0 <= from <= s.len(),
    ensures
        segments_from(s, from).len() >= 1,
{
}

impl AssetLink {
    /// The segments to join to the source root, one after the other, to reach
    /// what the link points at: the directory of the chapter, then the link.
    pub fn lookup_segments(&self) -> (parts: Vec<String>)
        ensures
            parts.deep_view() == lookup_segments_of(self.chapter_path@, self.link@),
    {
        let mut parts = segments(self.chapter_path.as_str());
        let ghost whole = parts.deep_view();
        proof {
            lemma_segments_not_empty(self.chapter_path@, 0);
        }
        parts.pop();
        assert(parts.deep_view() =~= whole.drop_last());
        let ghost directory = parts.deep_view();
        let mut of_link = segments(self.link.as_str());
        let ghost tail = of_link.deep_view();
        parts.append(&mut of_link);
        assert(parts.deep_view() =~= directory + tail);
        parts
    }
}

/// One file to embed in the package.
#[derive(Debug, Clone, PartialEq, Eq)]
pub struct Resource {
    /// The name of the entry in the package, with `/` between its segments.
    pub archive_name: String,
    /// The file on disk that holds the content.
    pub location_on_disk: String,
    /// The media type of the content.
    pub mimetype: String,
}

/// The mathematical form of a `Resource`.
pub struct ResourceText {
    pub archive_name: Seq<char>,
    pub location_on_disk: Seq<char>,
    pub mimetype: Seq<char>,
}

impl View for Resource {
    type V = ResourceText;

    open spec fn view(&self) -> ResourceText {
        ResourceText {
            archive_name: self.archive_name@,
            location_on_disk: self.location_on_disk@,
            mimetype: self.mimetype@,
        }
    }
}

impl DeepView for Resource {
    type V = ResourceText;

    open spec fn deep_view(&self) -> ResourceText {
        self@
    }
}

/// The resource that embeds an asset.
pub open spec fn resource_of(asset: AssetText) -> ResourceText {
    ResourceText {
        archive_name: with_forward_slashes(asset.filename),
        location_on_disk: asset.location_on_disk,
        mimetype: asset.mimetype,
    }
}

/// One of `resources` has the archive name `name`.
pub open spec fn is_named(resources: Seq<ResourceText>, name: Seq<char>) -> bool {
    exists|k: int| 0 <= k < resources.len() && (#[trigger] resources[k]).archive_name == name
}

/// The resources to embed for a run of assets: one for each archive name, that of
/// the first asset with the name, in the order of those first assets.
pub open spec fn resources_of(assets: Seq<AssetText>) -> Seq<ResourceText>
    decreases assets.len(),
{
    if assets.len() == 0 {
        Seq::empty()
    } else {
        let before = resources_of(assets.drop_last());
        let next = resource_of(assets.last());
        if is_named(before, next.archive_name) {
            before
        } else {
            before.push(next)
        }
    }
}

/// Lists the resources to embed: every asset under its archive name, and an
/// archive name that several assets share once only, for the first of them.
pub fn resources(assets: &Vec<Asset>) -> (out: Vec<Resource>)
    ensures
        out.deep_view() == resources_of(assets.deep_view()),
{
    let mut out: Vec<Resource> = Vec::new();
    let mut i: usize = 0;
    assert(assets.deep_view().take(0) =~= Seq::empty());
    while i < assets.len()
        invariant
            i <= assets.len(),
            out.deep_view() == resources_of(assets.deep_view().take(i as int)),
        decreases assets.len() - i,
    {
        let ghost before = out.deep_view();
        let ghost seen = assets.deep_view().take(i + 1);
        assert(seen.drop_last() =~= assets.deep_view().take(i as int));
        assert(seen.last() == assets[i as int]@);
        let name = assets[i].archive_name();
        let mut known = false;
        let mut k: usize = 0;
        while k < out.len() && !known
            invariant
                k <= out.len(),
                out.deep_view() == before,
                known ==> is_named(before, name@),
                !known ==> forall|j: int| 0 <= j < k ==> (#[trigger] before[j]).archive_name != name@,
            decreases out.len() - k + (if known { 0int } else { 1int }),
        {
            assert(before[k as int] == out[k as int]@);
            if out[k].archive_name == name {
                known = true;
            } else {
                k += 1;
            }
        }
        if !known {
            let next = Resource {
                archive_name: name,
                location_on_disk: assets[i].location_on_disk.clone(),
                mimetype: assets[i].mimetype.clone(),
            };
            assert(next@ == resource_of(assets[i as int]@));
            out.push(next);
            assert(out.deep_view() =~= before.push(next@));
        }
        i += 1;
    }
    assert(assets.deep_view().take(assets.len() as int) =~= assets.deep_view());
    out
}

/// Every asset is embedded: its archive name is that of one of the resources.
pub proof fn lemma_every_asset_is_embedded(assets: Seq<AssetText>, k: int)
    requires
        0 <= k < assets.len(),
    ensures
        is_named(resources_of(assets), with_forward_slashes(assets[k].filename)),
    decreases assets.len(),
{
    let before = resources_of(assets.drop_last());
    let next = resource_of(assets.last());
    let all = resources_of(assets);
    if k == assets.len() - 1 {
        if !is_named(before, next.archive_name) {
            assert(all[all.len() - 1].archive_name == next.archive_name);
        }
    } else {
        lemma_every_asset_is_embedded(assets.drop_last(), k);
        let name = with_forward_slashes(assets[k].filename);
        let j = choose|j: int| 0 <= j < before.len() && (#[trigger] before[j]).archive_name == name;
        assert(all[j].archive_name == name);
    }
}

/// No archive name is embedded twice.
pub proof fn lemma_resources_are_distinct(assets: Seq<AssetText>, i: int, j: int)
    requires
        0 <= i < j < resources_of(assets).len(),
    ensures
        resources_of(assets)[i].archive_name != resources_of(assets)[j].archive_name,
    decreases assets.len(),
{
    let before = resources_of(assets.drop_last());
    let next = resource_of(assets.last());
    if is_named(before, next.archive_name) || j < before.len() {
        lemma_resources_are_distinct(assets.drop_last(), i, j);
    }
}

/// Every asset of a collection that succeeds lies under the source root: its
/// location is the root, one separator, and its file name.
pub proof fn lemma_assets_lie_under_root(root: Seq<char>, rs: Seq<ResolvedLinkText>, k: int)
    requires
        found_assets(root, rs) is Ok,
        0 <= k < rs.len(),
    ensures
        relative_to(root, found_assets(root, rs)->Ok_0[k].location_on_disk) == Some(
            found_assets(root, rs)->Ok_0[k].filename,
        ),
{
    lemma_first_outside(root, rs);
}

/// The media type of an asset depends on the extension of its location alone.
pub proof fn lemma_media_type_by_extension(root: Seq<char>, a: ResolvedLinkText, b: ResolvedLinkText)
    requires
        extension_of(a.path) == extension_of(b.path),
    ensures
        asset_of(root, a).mimetype == asset_of(root, b).mimetype,
{
}

/// An asset whose location has no extension gets the generic binary type.
pub proof fn lemma_no_extension_generic_type(root: Seq<char>, r: ResolvedLinkText)
    requires
        extension_of(r.path).len() == 0,
    ensures
        asset_of(root, r).mimetype == generic_binary_type(),
{
}

} // verus!
