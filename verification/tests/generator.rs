use mdbook_epub::book::{BookItem, Chapter, SectionNumber};
use mdbook_epub::error::Error;
use mdbook_epub::generator::{
    resolve, template_refused, unit_from_page, Config, Found, Generator, RenderContext,
};
use mdbook_epub::markdown::render_markdown;
use mdbook_epub::resources::{AssetLink, Outcome};
use mdbook_epub::stylesheet::DEFAULT_CSS;
use mdbook_epub::template::is_plain_template;

const TEMPLATE: &str = "<html><body>{{{content}}}</body></html>";

fn chapter(title: &str, path: &str, content: &str, number: Option<Vec<u32>>, sub_items: Vec<BookItem>) -> BookItem {
    BookItem::Chapter(Chapter {
        title: title.to_string(),
        content: content.to_string(),
        number: number.map(|n| SectionNumber::new(n).unwrap()),
        sub_items,
        path: path.to_string(),
    })
}

fn context(book: Vec<BookItem>) -> RenderContext {
    RenderContext {
        source_root: "/book/src".to_string(),
        book,
        title: Some("The Book".to_string()),
        description: None,
        authors: vec!["Ann".to_string(), "Bob".to_string()],
    }
}

fn config(use_default_css: bool, additional_css: &[&str]) -> Config {
    Config { use_default_css, additional_css: additional_css.iter().map(|p| p.to_string()).collect() }
}

fn file(path: &str) -> Found {
    Found { path: path.to_string(), outcome: Outcome::File }
}

#[test]
fn markdown_is_rendered_to_html() {
    assert_eq!(render_markdown("Hello *world*\n"), "<p>Hello <em>world</em></p>\n");
    assert_eq!(render_markdown("\"quoted\"\n"), "<p>\"quoted\"</p>\n");
}

#[test]
fn template_that_does_not_parse_is_refused() {
    let ctx = context(Vec::new());
    let result = Generator::new(&ctx, config(true, &[]), "{{#if}".to_string());
    match result {
        Err(Error::RenderFailure { chapter, message }) => {
            assert_eq!(chapter, "index");
            assert!(!message.is_empty());
        }
        other => panic!("expected a failure to render, got {:?}", other),
    }
}

#[test]
fn chapter_page_is_rendered_fixed_and_set_into_the_template() {
    let ctx = context(Vec::new());
    let generator = Generator::new(&ctx, config(true, &[]), TEMPLATE.to_string()).unwrap();
    let ch = Chapter {
        title: "1. Intro".to_string(),
        content: "text\n\n<img src=\"a.png\" />\n".to_string(),
        number: SectionNumber::new(vec![1]),
        sub_items: Vec::new(),
        path: "intro.md".to_string(),
    };
    let unit = generator.add_chapter(&ch).unwrap();
    assert_eq!(unit.path, "intro.html");
    assert_eq!(unit.title, "1. Intro");
    assert_eq!(unit.level, 0);
    assert!(unit.children.is_empty());
    assert_eq!(unit.body, "<html><body><p>text</p>\n<p><img src=\"a.png\" /></p>\n</body></html>");
}

#[test]
fn page_that_does_not_render_is_a_failure_of_its_chapter() {
    let ctx = context(vec![
        chapter("Good", "good.md", "fine\n", None, Vec::new()),
    ]);
    let generator =
        Generator::new(&ctx, config(true, &[]), "{{unknown_helper content}}".to_string()).unwrap();
    match generator.generate_chapters() {
        Err(Error::RenderFailure { chapter, message }) => {
            assert_eq!(chapter, "Good");
            assert!(!message.is_empty());
        }
        other => panic!("expected a failure to render, got {:?}", other),
    }
}

#[test]
fn unit_is_built_around_a_page_or_fails_with_its_complaint() {
    let ch = Chapter {
        title: "T".to_string(),
        content: String::new(),
        number: None,
        sub_items: Vec::new(),
        path: "t.md".to_string(),
    };
    let unit = unit_from_page(&ch, Ok("<p>page</p>".to_string())).unwrap();
    assert_eq!(unit.body, "<p>page</p>");
    assert_eq!(unit.path, "t.html");
    assert_eq!(
        unit_from_page(&ch, Err("no such helper".to_string())),
        Err(Error::RenderFailure { chapter: "T".to_string(), message: "no such helper".to_string() })
    );
}

#[test]
fn references_are_paired_with_what_was_found() {
    let links = vec![
        AssetLink { chapter_path: "a.md".to_string(), link: "x.png".to_string() },
        AssetLink { chapter_path: "a.md".to_string(), link: "y.png".to_string() },
    ];
    let resolved = resolve(&links, &vec![file("/book/src/x.png")]);
    assert_eq!(resolved.len(), 2);
    assert_eq!(resolved[0].link, "x.png");
    assert_eq!(resolved[0].path, "/book/src/x.png");
    assert_eq!(resolved[0].outcome, Outcome::File);
    assert_eq!(resolved[1].link, "y.png");
    assert_eq!(resolved[1].path, "");
    assert_eq!(resolved[1].outcome, Outcome::Missing);
}

#[test]
fn book_with_one_chapter_and_one_image() {
    let ctx = context(vec![chapter("Intro", "intro.md", "![Logo](./logo.png)\n", None, Vec::new())]);
    let generator = Generator::new(&ctx, config(true, &[]), TEMPLATE.to_string()).unwrap();
    let links = generator.asset_links();
    assert_eq!(links, vec![AssetLink { chapter_path: "intro.md".to_string(), link: "./logo.png".to_string() }]);
    let package = generator.generate(&Vec::new(), &vec![file("/book/src/logo.png")]).unwrap();
    assert_eq!(package.contents.len(), 1);
    assert_eq!(package.contents[0].title, "Intro");
    assert_eq!(package.contents[0].path, "intro.html");
    assert_eq!(package.contents[0].level, 0);
    assert_eq!(
        package.contents[0].body,
        "<html><body><p><img src=\"./logo.png\" alt=\"Logo\" /></p>\n</body></html>"
    );
    assert_eq!(package.assets.len(), 1);
    assert_eq!(package.assets[0].filename, "logo.png");
    assert_eq!(package.assets[0].location_on_disk, "/book/src/logo.png");
    assert!(package.assets[0].mimetype.starts_with("image/"));
    assert_eq!(package.stylesheet, DEFAULT_CSS.as_bytes());
    let keys: Vec<&str> = package.metadata.iter().map(|e| e.key.as_str()).collect();
    assert_eq!(keys, vec!["generator", "title", "author"]);
    assert_eq!(package.metadata[2].value, "Ann, Bob");
}

#[test]
fn raw_html_image_is_an_asset_too() {
    let ctx = context(vec![chapter("Pictures", "pictures.md", "<img src=\"diagram.svg\">\n", None, Vec::new())]);
    let generator = Generator::new(&ctx, config(false, &[]), TEMPLATE.to_string()).unwrap();
    let links = generator.asset_links();
    assert_eq!(links.len(), 1);
    assert_eq!(links[0].link, "diagram.svg");
    let assets = generator.additional_assets(&vec![file("/book/src/diagram.svg")]).unwrap();
    assert_eq!(assets.len(), 1);
    assert_eq!(assets[0].filename, "diagram.svg");
    assert_eq!(assets[0].mimetype, "image/svg+xml");
}

#[test]
fn no_stylesheets_give_an_empty_stylesheet() {
    let ctx = context(vec![chapter("Intro", "intro.md", "text\n", None, Vec::new())]);
    let generator = Generator::new(&ctx, config(false, &[]), TEMPLATE.to_string()).unwrap();
    assert_eq!(generator.generate_stylesheet(&Vec::new()), Ok(Vec::new()));
    let package = generator.generate(&Vec::new(), &Vec::new()).unwrap();
    assert!(package.stylesheet.is_empty());
    assert!(package.assets.is_empty());
}

#[test]
fn every_chapter_of_the_tree_gets_a_unit() {
    let ctx = context(vec![
        chapter(
            "1. One",
            "one.md",
            "one\n",
            Some(vec![1]),
            vec![
                chapter("1.1. Sub", "one/sub.md", "sub\n", Some(vec![1, 1]), Vec::new()),
                chapter("1.2. Sub", "one/sub2.md", "sub2\n", Some(vec![1, 2]), Vec::new()),
            ],
        ),
        BookItem::Separator,
        chapter("Appendix", "appendix.md", "app\n", None, Vec::new()),
    ]);
    let generator = Generator::new(&ctx, config(true, &[]), TEMPLATE.to_string()).unwrap();
    let units = generator.generate_chapters().unwrap();
    let paths: Vec<&str> = units.iter().map(|u| u.path.as_str()).collect();
    assert_eq!(paths, vec!["one.html", "one/sub.html", "one/sub2.html", "appendix.html"]);
    let levels: Vec<i32> = units.iter().map(|u| u.level).collect();
    assert_eq!(levels, vec![0, 1, 1, 0]);
    let children: Vec<&str> = units[0].children.iter().map(|c| c.path.as_str()).collect();
    assert_eq!(children, vec!["one/sub.html", "one/sub2.html"]);
    assert!(units[1].children.is_empty());
}

#[test]
fn broken_link_fails_the_whole_book() {
    let ctx = context(vec![
        chapter("One", "one.md", "![a](a.png)\n", None, Vec::new()),
        chapter("Two", "two.md", "![gone](gone.png)\n", None, Vec::new()),
    ]);
    let generator = Generator::new(&ctx, config(true, &[]), TEMPLATE.to_string()).unwrap();
    let found = vec![
        file("/book/src/a.png"),
        Found { path: "/book/src/gone.png".to_string(), outcome: Outcome::Missing },
    ];
    assert_eq!(
        generator.generate(&Vec::new(), &found),
        Err(Error::BrokenLink { link: "gone.png".to_string(), path: "/book/src/gone.png".to_string() })
    );
}

#[test]
fn reference_without_a_report_is_a_broken_link() {
    let ctx = context(vec![chapter("One", "one.md", "![a](a.png)\n", None, Vec::new())]);
    let generator = Generator::new(&ctx, config(true, &[]), TEMPLATE.to_string()).unwrap();
    assert_eq!(
        generator.generate(&Vec::new(), &Vec::new()),
        Err(Error::BrokenLink { link: "a.png".to_string(), path: String::new() })
    );
}

#[test]
fn unreadable_stylesheet_is_reported_before_a_broken_link() {
    let ctx = context(vec![chapter("One", "one.md", "![a](a.png)\n", None, Vec::new())]);
    let generator = Generator::new(&ctx, config(true, &["extra.css"]), TEMPLATE.to_string()).unwrap();
    assert_eq!(generator.stylesheet_paths(), &vec!["extra.css".to_string()]);
    assert_eq!(
        generator.generate(&vec![None], &Vec::new()),
        Err(Error::IoFailure { path: "extra.css".to_string() })
    );
}

#[test]
fn metadata_of_the_book_is_listed() {
    let ctx = context(Vec::new());
    let generator = Generator::new(&ctx, config(true, &[]), TEMPLATE.to_string()).unwrap();
    let entries = generator.populate_metadata();
    assert_eq!(entries.len(), 3);
    assert_eq!(entries[0].key, "generator");
    assert_eq!(entries[0].value, "mdbook-epub");
    assert_eq!(entries[1].key, "title");
    assert_eq!(entries[1].value, "The Book");
}

const NOT_PLAIN: &str = "the template uses a directive, a partial block, a partial that may include the template itself, or a closing tag with a sub-expression";

fn intro() -> Chapter {
    Chapter {
        title: "Intro".to_string(),
        content: "text\n".to_string(),
        number: None,
        sub_items: Vec::new(),
        path: "intro.md".to_string(),
    }
}

fn page(template: &str) -> Result<String, Error> {
    assert!(is_plain_template(template), "{:?} counts as not plain", template);
    let ctx = context(Vec::new());
    let generator = Generator::new(&ctx, config(true, &[]), template.to_string()).unwrap();
    generator.add_chapter(&intro()).map(|unit| unit.body)
}

fn refused(template: &str) {
    assert!(!is_plain_template(template), "{:?} counts as plain", template);
    let ctx = context(Vec::new());
    match Generator::new(&ctx, config(true, &[]), template.to_string()) {
        Err(error) => assert_eq!(
            error,
            Error::RenderFailure { chapter: "index".to_string(), message: NOT_PLAIN.to_string() }
        ),
        Ok(_) => panic!("{:?} gave a generator", template),
    }
}

#[test]
fn refused_template_is_a_failure_to_render_the_index() {
    assert_eq!(
        template_refused("line 1: bad".to_string()),
        Error::RenderFailure { chapter: "index".to_string(), message: "line 1: bad".to_string() }
    );
}

#[test]
fn closing_tag_with_a_sub_expression_is_refused() {
    refused("{{#if a}}x{{/(b)}}");
    refused("{{#if a}}x{{~ / (b) ~}}");
    refused("{{{{raw}}}}x{{{{/(raw)}}}}");
}

#[test]
fn partial_blocks_and_directives_are_refused() {
    refused("{{#*inline \"a\"}}{{> a}}{{/inline}}{{> a}}");
    refused("{{#> x}}{{> @partial-block}}{{/x}}");
    refused("{{ # > a}}b{{/a}}");
    refused("{{#*inline \"a\"}}b{{/inline}}");
    refused("{{* decorate}}");
    refused("{{~#\n*inline \"a\"}}b{{/inline}}");
}

#[test]
fn partial_with_a_computed_name_is_refused() {
    refused("{{> (lookup this \"content\")}}");
    refused("{{~> ( a )}}");
}

#[test]
fn partial_that_names_the_template_behind_a_block_is_refused() {
    refused("{{#if content}}{{> index}}{{/if}}");
    refused("{{#if content}}x{{/if}}{{> index}}");
    refused("{{{{raw}}}}x{{{{/raw}}}}{{>index}}");
    refused("{{#if content}}x{{/if}}{{> index.html}}");
}

#[test]
fn partial_that_is_not_known_adds_nothing_to_the_page() {
    assert_eq!(
        page("{{> header}}<body>{{{content}}}</body>"),
        Ok("<body><p>text</p>\n</body>".to_string())
    );
    assert_eq!(page("{{#if content}}{{> footer a=1}}{{/if}}|"), Ok("|".to_string()));
    assert_eq!(page("{{#if content}}x{{/if}}{{> index2}}{{> indexes}}"), Ok("x".to_string()));
}

#[test]
fn template_that_includes_itself_fails_to_render() {
    match page("<p>{{> index}}</p>") {
        Err(Error::RenderFailure { chapter, message }) => {
            assert_eq!(chapter, "Intro");
            assert!(message.contains("Cannot include self"), "{}", message);
        }
        other => panic!("expected a failure to render, got {:?}", other),
    }
}

#[test]
fn tag_behind_one_backslash_is_text() {
    assert_eq!(page("\\{{#> a}}"), Ok("{{#> a}}".to_string()));
    refused("\\\\{{#> a}}b{{/a}}");
}

#[test]
fn ordinary_templates_are_plain() {
    for template in [
        "",
        TEMPLATE,
        "<title>{{ title }}</title>{{#if content}}{{{ content }}}{{else}}-{{/if}}",
        "{{! a comment }}{{#each items as |item|}}{{item}}{{/each}}",
        "a > b {{lookup this \"content\"}} 2 * 3 {{#unless x}}/({{/unless}}",
        "{ {> not a tag }} {{ content }}",
        "{{> header}}{{{content}}}{{> footer}}",
    ] {
        assert!(is_plain_template(template), "{:?} counts as not plain", template);
        let ctx = context(Vec::new());
        assert!(Generator::new(&ctx, config(true, &[]), template.to_string()).is_ok());
    }
}
