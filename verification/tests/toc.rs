use mdbook_epub::book::{chapters, BookItem, Chapter, SectionNumber};
use mdbook_epub::path::extension;
use mdbook_epub::toc::{content_unit, nesting_level, output_path, toc_children, TocEntry};

fn chapter(title: &str, path: &str, number: Option<Vec<u32>>, sub_items: Vec<BookItem>) -> Chapter {
    Chapter {
        title: title.to_string(),
        content: String::new(),
        number: number.map(|n| SectionNumber::new(n).unwrap()),
        sub_items,
        path: path.to_string(),
    }
}

fn leaf(title: &str, path: &str) -> BookItem {
    BookItem::Chapter(chapter(title, path, None, Vec::new()))
}

#[test]
fn extension_is_replaced() {
    assert_eq!(output_path("intro.md"), "intro.html");
    assert_eq!(output_path("part/one/chapter_1.md"), "part/one/chapter_1.html");
    assert_eq!(output_path("archive.tar.gz"), "archive.tar.html");
    assert_eq!(output_path("notes."), "notes.html");
}

#[test]
fn missing_extension_is_added() {
    assert_eq!(output_path("README"), "README.html");
    assert_eq!(output_path("v1.2/README"), "v1.2/README.html");
    assert_eq!(output_path(".hidden"), ".hidden.html");
    assert_eq!(output_path("dir/.hidden"), "dir/.hidden.html");
}

#[test]
fn file_name_is_found_behind_slashes_and_dots() {
    assert_eq!(output_path("dir/"), "dir.html");
    assert_eq!(output_path("a/."), "a.html");
    assert_eq!(output_path("a.md/./"), "a.html");
    assert_eq!(output_path("a//b.md//"), "a//b.html");
    assert_eq!(output_path("..."), "...html");
    assert_eq!(output_path("..a"), "..html");
}

#[test]
fn path_without_a_file_name_is_left_alone() {
    assert_eq!(output_path(""), "");
    assert_eq!(output_path("/"), "/");
    assert_eq!(output_path("."), ".");
    assert_eq!(output_path("./"), "./");
    assert_eq!(output_path(".."), "..");
    assert_eq!(output_path("a/.."), "a/..");
    assert_eq!(output_path("a/../."), "a/../.");
}

struct Dice(u64);

impl Dice {
    fn roll(&mut self, sides: usize) -> usize {
        self.0 = self.0.wrapping_mul(6364136223846793005).wrapping_add(1442695040888963407);
        ((self.0 >> 33) as usize) % sides
    }

    fn path(&mut self) -> String {
        let alphabet = ['/', '.', 'a', 'b', '.', '/'];
        (0..self.roll(9)).map(|_| alphabet[self.roll(alphabet.len())]).collect()
    }
}

#[test]
fn output_path_agrees_with_the_standard_library_on_many_paths() {
    let mut dice = Dice(7);
    for _ in 0..50000 {
        let path = dice.path();
        // Of a file name such as `..a` the standard library keeps `..` only.
        let name = path.rsplit('/').next().unwrap();
        if name.len() > 2 && name.starts_with("..") && !name[2..].contains('.') {
            continue;
        }
        let expected = std::path::Path::new(&path).with_extension("html");
        assert_eq!(output_path(&path), expected.to_str().unwrap(), "on {:?}", path);
    }
}

#[test]
fn extension_agrees_with_the_standard_library_on_many_paths() {
    let mut dice = Dice(8);
    for _ in 0..50000 {
        let path = dice.path();
        let expected = std::path::Path::new(&path)
            .extension()
            .map(|e| e.to_str().unwrap().to_string())
            .unwrap_or_default();
        assert_eq!(extension(&path), expected, "on {:?}", path);
    }
    assert_eq!(extension("logo.PNG"), "PNG");
    assert_eq!(extension("a.tar.gz"), "gz");
    assert_eq!(extension("a.b/c"), "");
}

#[test]
fn output_path_agrees_with_the_standard_library() {
    for path in [
        "intro.md", "a/b/c.markdown", "archive.tar.gz", "README", ".hidden", "x/.y.z", "", "dir/",
        ".", "..", "a/.", "/",
    ] {
        let expected = std::path::Path::new(path).with_extension("html");
        assert_eq!(output_path(path), expected.to_str().unwrap());
    }
}

#[test]
fn level_is_depth_less_one() {
    assert_eq!(nesting_level(&SectionNumber::new(vec![3, 2, 1])), 2);
    assert_eq!(nesting_level(&SectionNumber::new(vec![1])), 0);
    assert_eq!(nesting_level(&SectionNumber::new(vec![2, 1])), 1);
}

#[test]
fn unnumbered_chapter_has_level_zero() {
    assert_eq!(nesting_level(&None), 0);
}

#[test]
fn number_without_components_has_level_minus_one() {
    assert_eq!(nesting_level(&SectionNumber::new(Vec::new())), -1);
}

#[test]
fn section_number_keeps_its_parts() {
    let number = SectionNumber::new(vec![3, 2, 1]).unwrap();
    assert_eq!(number.depth(), 3);
    assert_eq!(number.parts(), &vec![3, 2, 1]);
}

#[test]
fn children_keep_document_order() {
    let parent = chapter(
        "Parent",
        "parent.md",
        Some(vec![1]),
        vec![leaf("A", "a.md"), leaf("B", "b.md"), leaf("C", "c.md")],
    );
    let entries = toc_children(&parent);
    assert_eq!(
        entries,
        vec![
            TocEntry { path: "a.html".to_string(), title: "A".to_string() },
            TocEntry { path: "b.html".to_string(), title: "B".to_string() },
            TocEntry { path: "c.html".to_string(), title: "C".to_string() },
        ]
    );
}

#[test]
fn only_direct_chapters_get_an_entry() {
    let nested = BookItem::Chapter(chapter("B", "b.md", None, vec![leaf("B1", "b/one.md")]));
    let parent = chapter(
        "Parent",
        "parent.md",
        None,
        vec![
            BookItem::Separator,
            leaf("A", "a.md"),
            BookItem::PartTitle("Part".to_string()),
            nested,
        ],
    );
    let entries = toc_children(&parent);
    assert_eq!(entries.len(), 2);
    assert_eq!(entries[0].title, "A");
    assert_eq!(entries[1].title, "B");
    assert_eq!(entries[1].path, "b.html");
}

#[test]
fn chapter_without_children_has_no_entries() {
    assert_eq!(toc_children(&chapter("Solo", "solo.md", None, Vec::new())), Vec::new());
}

#[test]
fn content_unit_holds_the_chapter() {
    let ch = chapter("3.2.1. Deep", "deep/down.md", Some(vec![3, 2, 1]), vec![leaf("X", "deep/x.md")]);
    let unit = content_unit(&ch, "<html>body</html>".to_string());
    assert_eq!(unit.path, "deep/down.html");
    assert_eq!(unit.title, "3.2.1. Deep");
    assert_eq!(unit.body, "<html>body</html>");
    assert_eq!(unit.level, 2);
    assert_eq!(unit.children, vec![TocEntry { path: "deep/x.html".to_string(), title: "X".to_string() }]);
}

#[test]
fn chapters_are_listed_depth_first() {
    let book = vec![
        BookItem::Chapter(chapter(
            "1",
            "1.md",
            None,
            vec![
                BookItem::Chapter(chapter("1.1", "1/1.md", None, vec![leaf("1.1.1", "1/1/1.md")])),
                BookItem::Separator,
                leaf("1.2", "1/2.md"),
            ],
        )),
        BookItem::PartTitle("Two".to_string()),
        leaf("2", "2.md"),
    ];
    let titles: Vec<&str> = chapters(&book).iter().map(|ch| ch.title.as_str()).collect();
    assert_eq!(titles, vec!["1", "1.1", "1.1.1", "1.2", "2"]);
}

#[test]
fn book_without_chapters_lists_none() {
    assert!(chapters(&vec![BookItem::Separator]).is_empty());
    assert!(chapters(&Vec::new()).is_empty());
}
