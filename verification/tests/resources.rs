use mdbook_epub::book::{BookItem, Chapter};
use mdbook_epub::error::Error;
use mdbook_epub::resources::{
    asset_links, assets_in_markdown, find, forward_slashes, resolved_paths, resources, segments,
    strip_root,
    Asset, AssetLink, Outcome, ResolvedLink,
};

fn chapter(path: &str, content: &str, sub_items: Vec<BookItem>) -> BookItem {
    BookItem::Chapter(Chapter {
        title: path.to_string(),
        content: content.to_string(),
        number: None,
        sub_items,
        path: path.to_string(),
    })
}

fn resolved(link: &str, path: &str, outcome: Outcome) -> ResolvedLink {
    ResolvedLink { link: link.to_string(), path: path.to_string(), outcome }
}

fn link(chapter_path: &str, link: &str) -> AssetLink {
    AssetLink { chapter_path: chapter_path.to_string(), link: link.to_string() }
}

#[test]
fn path_is_split_at_every_slash() {
    assert_eq!(segments("a/b/c.png"), vec!["a", "b", "c.png"]);
    assert_eq!(segments("./logo.png"), vec![".", "logo.png"]);
    assert_eq!(segments("logo.png"), vec!["logo.png"]);
    assert_eq!(segments(""), vec![""]);
    assert_eq!(segments("/a//b/"), vec!["", "a", "", "b", ""]);
}

#[test]
fn segments_agree_with_the_standard_split() {
    for s in ["", "/", "a", "a/", "/a", "a//b", "../x/./y.svg", "é/ü.png"] {
        let expected: Vec<&str> = s.split("/").collect();
        assert_eq!(segments(s), expected);
    }
}

#[test]
fn backslashes_become_forward_slashes() {
    assert_eq!(forward_slashes("img\\deep\\logo.png"), "img/deep/logo.png");
    assert_eq!(forward_slashes("img/logo.png"), "img/logo.png");
    assert_eq!(forward_slashes(""), "");
    let asset = Asset::new("img\\logo.png".to_string(), "C:\\book\\src\\img\\logo.png".to_string());
    assert_eq!(asset.archive_name(), "img/logo.png");
}

#[test]
fn root_is_stripped_from_a_location_under_it() {
    assert_eq!(strip_root("/book/src", "/book/src/img/logo.png"), Some("img/logo.png".to_string()));
    assert_eq!(strip_root("/book/src/", "/book/src/logo.png"), Some("logo.png".to_string()));
    assert_eq!(strip_root("/", "/logo.png"), Some("logo.png".to_string()));
}

#[test]
fn location_outside_the_root_has_no_relative_path() {
    assert_eq!(strip_root("/book/src", "/book/other/logo.png"), None);
    assert_eq!(strip_root("/book/src", "/book/srcs/logo.png"), None);
    assert_eq!(strip_root("/book/src", "/book/src"), None);
    assert_eq!(strip_root("/book/src", "/book/src/"), None);
    assert_eq!(strip_root("/book/src", "/book"), None);
}

#[test]
fn asset_gets_the_media_type_of_its_extension() {
    let asset = Asset::new("logo.png".to_string(), "/book/src/logo.png".to_string());
    assert_eq!(asset.location_on_disk, "/book/src/logo.png");
    assert_eq!(asset.filename, "logo.png");
    assert_eq!(asset.mimetype, "image/png");
    assert_eq!(Asset::new("d.svg".to_string(), "/b/d.svg".to_string()).mimetype, "image/svg+xml");
    assert_eq!(Asset::new("s.css".to_string(), "/b/s.css".to_string()).mimetype, "text/css");
    assert_eq!(Asset::new("L.PNG".to_string(), "/b.d/L.PNG".to_string()).mimetype, "image/png");
    assert_eq!(Asset::new("x".to_string(), "/b.png/x".to_string()).mimetype, "application/octet-stream");
}

#[test]
fn unknown_extension_gets_the_generic_binary_type() {
    let unknown = Asset::new("data.zzzzz".to_string(), "/b/data.zzzzz".to_string());
    assert_eq!(unknown.mimetype, "application/octet-stream");
    let none = Asset::new("Makefile".to_string(), "/b/Makefile".to_string());
    assert_eq!(none.mimetype, "application/octet-stream");
}

#[test]
fn links_of_a_chapter_carry_its_path() {
    let src = "![Image 1](./rust-logo.png)\n[a link](to/nowhere) ![Image 2][2]\n\n[2]: reddit.svg\n";
    assert_eq!(
        assets_in_markdown(src, "intro/index.md"),
        vec![link("intro/index.md", "./rust-logo.png"), link("intro/index.md", "reddit.svg")]
    );
}

#[test]
fn duplicate_links_are_kept() {
    let src = "![a](x.png) ![b](x.png)\n";
    assert_eq!(assets_in_markdown(src, "c.md"), vec![link("c.md", "x.png"), link("c.md", "x.png")]);
}

#[test]
fn links_of_a_book_follow_the_chapters_depth_first() {
    let book = vec![
        chapter(
            "one.md",
            "![a](a.png)\n",
            vec![chapter("one/sub.md", "<img src=\"b.png\">\n", Vec::new()), BookItem::Separator],
        ),
        chapter("two.md", "no assets here\n", Vec::new()),
        chapter("three.md", "![c](c.png) ![a](a.png)\n", Vec::new()),
    ];
    assert_eq!(
        asset_links(&book),
        vec![
            link("one.md", "a.png"),
            link("one/sub.md", "b.png"),
            link("three.md", "c.png"),
            link("three.md", "a.png"),
        ]
    );
}

#[test]
fn every_file_under_the_root_becomes_an_asset() {
    let found = vec![
        resolved("./logo.png", "/book/src/logo.png", Outcome::File),
        resolved("../img/d.svg", "/book/src/img/d.svg", Outcome::File),
        resolved("./logo.png", "/book/src/logo.png", Outcome::File),
    ];
    let assets = find("/book/src", &found).unwrap();
    assert_eq!(assets.len(), 3);
    assert_eq!(assets[0].location_on_disk, "/book/src/logo.png");
    assert_eq!(assets[0].filename, "logo.png");
    assert_eq!(assets[0].mimetype, "image/png");
    assert_eq!(assets[1].filename, "img/d.svg");
    assert_eq!(assets[1].mimetype, "image/svg+xml");
    assert_eq!(assets[2], assets[0]);
}

#[test]
fn no_references_no_assets() {
    assert_eq!(find("/book/src", &Vec::new()), Ok(Vec::new()));
}

#[test]
fn missing_file_is_a_broken_link() {
    let found = vec![
        resolved("a.png", "/book/src/a.png", Outcome::File),
        resolved("to/nowhere.png", "/book/src/to/nowhere.png", Outcome::Missing),
        resolved("b.png", "/book/src/b.png", Outcome::File),
    ];
    assert_eq!(
        find("/book/src", &found),
        Err(Error::BrokenLink {
            link: "to/nowhere.png".to_string(),
            path: "/book/src/to/nowhere.png".to_string(),
        })
    );
}

#[test]
fn directory_is_a_broken_link() {
    let found = vec![resolved("img", "/book/src/img", Outcome::NotAFile)];
    assert_eq!(
        find("/book/src", &found),
        Err(Error::BrokenLink { link: "img".to_string(), path: "/book/src/img".to_string() })
    );
}

#[test]
fn first_broken_link_is_reported() {
    let found = vec![
        resolved("a.png", "/book/src/a.png", Outcome::File),
        resolved("one", "/book/src/one", Outcome::NotAFile),
        resolved("two", "/book/src/two", Outcome::Missing),
    ];
    assert_eq!(
        find("/book/src", &found),
        Err(Error::BrokenLink { link: "one".to_string(), path: "/book/src/one".to_string() })
    );
}

#[test]
fn file_outside_the_root_is_reported_as_such() {
    let found = vec![
        resolved("a.png", "/book/src/a.png", Outcome::File),
        resolved("../../etc/passwd", "/etc/passwd", Outcome::File),
    ];
    assert_eq!(
        find("/book/src", &found),
        Err(Error::OutsideRoot {
            link: "../../etc/passwd".to_string(),
            path: "/etc/passwd".to_string(),
        })
    );
}

#[test]
fn root_written_with_backslashes_is_stripped_too() {
    assert_eq!(
        strip_root("C:\\book\\src", "C:\\book\\src\\img\\logo.png"),
        Some("img\\logo.png".to_string())
    );
    assert_eq!(strip_root("C:\\book\\src\\", "C:\\book\\src\\a.png"), Some("a.png".to_string()));
    let found = vec![resolved("img/logo.png", "C:\\book\\src\\img\\logo.png", Outcome::File)];
    let assets = find("C:\\book\\src", &found).unwrap();
    assert_eq!(assets[0].filename, "img\\logo.png");
    assert_eq!(assets[0].archive_name(), "img/logo.png");
    assert_eq!(assets[0].mimetype, "image/png");
}

#[test]
fn missing_file_is_reported_before_a_file_outside_the_root() {
    let found = vec![
        resolved("../x.png", "/book/x.png", Outcome::File),
        resolved("gone.png", "/book/src/gone.png", Outcome::Missing),
    ];
    assert_eq!(
        find("/book/src", &found),
        Err(Error::BrokenLink {
            link: "gone.png".to_string(),
            path: "/book/src/gone.png".to_string(),
        })
    );
}

#[test]
fn one_image_that_resolves_gives_one_asset() {
    let links = assets_in_markdown("Some text, and ![alt](img/pic.jpeg) in it.\n", "ch/one.md");
    assert_eq!(links, vec![link("ch/one.md", "img/pic.jpeg")]);
    let found = vec![resolved(&links[0].link, "/srv/book/src/ch/img/pic.jpeg", Outcome::File)];
    let assets = find("/srv/book/src", &found).unwrap();
    assert_eq!(assets.len(), 1);
    assert_eq!(assets[0].location_on_disk, "/srv/book/src/ch/img/pic.jpeg");
    assert_eq!(assets[0].filename, "ch/img/pic.jpeg");
    assert_eq!(assets[0].mimetype, "image/jpeg");
}

#[test]
fn lookup_goes_through_the_directory_of_the_chapter() {
    assert_eq!(link("intro.md", "./logo.png").lookup_segments(), vec![".", "logo.png"]);
    assert_eq!(
        link("part/one/ch.md", "../img/a.png").lookup_segments(),
        vec!["part", "one", "..", "img", "a.png"]
    );
    assert_eq!(link("a/b.md", "c").lookup_segments(), vec!["a", "c"]);
    assert_eq!(link("", "x/y").lookup_segments(), vec!["x", "y"]);
}

fn asset(filename: &str, location: &str, mimetype: &str) -> Asset {
    Asset {
        location_on_disk: location.to_string(),
        filename: filename.to_string(),
        mimetype: mimetype.to_string(),
    }
}

#[test]
fn every_asset_is_embedded_under_its_archive_name() {
    let assets = vec![
        asset("img\\a.png", "/s/img/a.png", "image/png"),
        asset("b.svg", "/s/b.svg", "image/svg+xml"),
    ];
    let out = resources(&assets);
    assert_eq!(out.len(), 2);
    assert_eq!(out[0].archive_name, "img/a.png");
    assert_eq!(out[0].location_on_disk, "/s/img/a.png");
    assert_eq!(out[0].mimetype, "image/png");
    assert_eq!(out[1].archive_name, "b.svg");
}

#[test]
fn shared_archive_name_is_embedded_once() {
    let assets = vec![
        asset("a.png", "/s/a.png", "image/png"),
        asset("b.png", "/s/b.png", "image/png"),
        asset("a.png", "/s/a.png", "image/png"),
        asset("img/c.png", "/s/img/c.png", "image/png"),
        asset("img\\c.png", "/elsewhere/c.png", "image/png"),
        asset("b.png", "/s/b.png", "image/png"),
    ];
    let names: Vec<String> = resources(&assets).into_iter().map(|r| r.archive_name).collect();
    assert_eq!(names, vec!["a.png", "b.png", "img/c.png"]);
    assert!(resources(&Vec::new()).is_empty());
}

#[test]
fn find_images() {
    let parent_dir = "/project/tests/dummy/src";
    let src =
        "![Image 1](./rust-logo.png)\n[a link](to/nowhere) ![Image 2][2]\n\n[2]: reddit.svg\n";
    let should_be = vec![
        format!("{}/rust-logo.png", parent_dir),
        format!("{}/reddit.svg", parent_dir),
    ];

    let links = assets_in_markdown(src, "index.md");
    assert_eq!(links, vec![link("index.md", "./rust-logo.png"), link("index.md", "reddit.svg")]);
    let found: Vec<ResolvedLink> = links
        .iter()
        .zip(&should_be)
        .map(|(l, path)| resolved(&l.link, path, Outcome::File))
        .collect();
    let got: Vec<String> =
        find(parent_dir, &found).unwrap().into_iter().map(|a| a.location_on_disk).collect();

    assert_eq!(got, should_be);
}

#[test]
fn lookup_alone_fails_for_nothing_but_a_broken_link() {
    let outside = vec![
        resolved("a.png", "/book/src/a.png", Outcome::File),
        resolved("../x.png", "/book/x.png", Outcome::File),
    ];
    assert_eq!(
        resolved_paths(&outside),
        Ok(vec!["/book/src/a.png".to_string(), "/book/x.png".to_string()])
    );
    let broken = vec![
        resolved("a.png", "/book/src/a.png", Outcome::File),
        resolved("dir", "/book/src/dir", Outcome::NotAFile),
    ];
    assert_eq!(
        resolved_paths(&broken),
        Err(Error::BrokenLink { link: "dir".to_string(), path: "/book/src/dir".to_string() })
    );
    assert_eq!(resolved_paths(&Vec::new()), Ok(Vec::new()));
}

#[test]
fn backslash_is_no_separator_under_a_root_written_with_slashes() {
    assert_eq!(strip_root("/book/src", "/book/src\\x.png"), None);
    assert_eq!(strip_root("/book/src\\", "/book/src\\x.png"), None);
    let found = vec![resolved("../src\\x.png", "/book/src\\x.png", Outcome::File)];
    assert_eq!(
        find("/book/src", &found),
        Err(Error::OutsideRoot {
            link: "../src\\x.png".to_string(),
            path: "/book/src\\x.png".to_string(),
        })
    );
    assert_eq!(strip_root("/bo\\ok", "/bo\\ok/x.png"), Some("x.png".to_string()));
    assert_eq!(strip_root("C:\\book", "C:\\book/x.png"), Some("x.png".to_string()));
}

#[test]
fn location_without_extension_gets_the_generic_binary_type() {
    for location in ["/b/Makefile", "/b.png/x", "/b/.hidden", "/b/x.", "/b/.."] {
        let asset = Asset::new("x".to_string(), location.to_string());
        assert_eq!(asset.mimetype, "application/octet-stream", "on {:?}", location);
    }
}
