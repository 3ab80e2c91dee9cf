use mdbook_epub::error::Error;
use mdbook_epub::metadata::{join_names, metadata_entries, MetadataEntry};
use mdbook_epub::stylesheet::{generate_stylesheet, DEFAULT_CSS};

fn paths(names: &[&str]) -> Vec<String> {
    names.iter().map(|n| n.to_string()).collect()
}

fn entry(key: &str, value: &str) -> MetadataEntry {
    MetadataEntry { key: key.to_string(), value: value.to_string() }
}

#[test]
fn no_default_and_no_additional_sheets_give_an_empty_stylesheet() {
    assert_eq!(generate_stylesheet(false, &Vec::new(), &Vec::new()), Ok(Vec::new()));
}

#[test]
fn default_sheet_alone() {
    assert!(!DEFAULT_CSS.is_empty());
    assert_eq!(generate_stylesheet(true, &Vec::new(), &Vec::new()), Ok(DEFAULT_CSS.as_bytes().to_vec()));
}

#[test]
fn additional_sheets_come_in_configured_order() {
    let contents = vec![Some(b"a { }\n".to_vec()), Some(Vec::new()), Some(b"b { }\n".to_vec())];
    let sheet = generate_stylesheet(false, &paths(&["a.css", "empty.css", "b.css"]), &contents);
    assert_eq!(sheet, Ok(b"a { }\nb { }\n".to_vec()));
}

#[test]
fn default_sheet_precedes_the_additional_sheets() {
    let contents = vec![Some(b"a { }\n".to_vec()), Some(b"b { }\n".to_vec())];
    let sheet = generate_stylesheet(true, &paths(&["a.css", "b.css"]), &contents).unwrap();
    let mut expected = DEFAULT_CSS.as_bytes().to_vec();
    expected.extend_from_slice(b"a { }\nb { }\n");
    assert_eq!(sheet, expected);
}

#[test]
fn sheet_that_could_not_be_read_is_an_io_failure() {
    let contents = vec![Some(b"a { }\n".to_vec()), None, None];
    assert_eq!(
        generate_stylesheet(true, &paths(&["a.css", "gone.css", "also-gone.css"]), &contents),
        Err(Error::IoFailure { path: "gone.css".to_string() })
    );
}

#[test]
fn sheet_that_was_not_handed_in_counts_as_not_read() {
    let contents = vec![Some(b"a { }\n".to_vec())];
    assert_eq!(
        generate_stylesheet(false, &paths(&["a.css", "b.css"]), &contents),
        Err(Error::IoFailure { path: "b.css".to_string() })
    );
}

#[test]
fn contents_beyond_the_configured_sheets_are_ignored() {
    let contents = vec![Some(b"a".to_vec()), Some(b"b".to_vec())];
    assert_eq!(generate_stylesheet(false, &paths(&["a.css"]), &contents), Ok(b"a".to_vec()));
}

#[test]
fn names_are_joined_by_comma_and_space() {
    assert_eq!(join_names(&paths(&["Ann", "Bob", "Cy"])), "Ann, Bob, Cy");
    assert_eq!(join_names(&paths(&["Ann"])), "Ann");
    assert_eq!(join_names(&Vec::new()), "");
}

#[test]
fn full_metadata_comes_in_order() {
    let entries = metadata_entries(
        &Some("The Book".to_string()),
        &Some("About things".to_string()),
        &paths(&["Ann", "Bob"]),
    );
    assert_eq!(
        entries,
        vec![
            entry("generator", "mdbook-epub"),
            entry("title", "The Book"),
            entry("description", "About things"),
            entry("author", "Ann, Bob"),
        ]
    );
}

#[test]
fn missing_metadata_is_left_out() {
    assert_eq!(metadata_entries(&None, &None, &Vec::new()), vec![entry("generator", "mdbook-epub")]);
    assert_eq!(
        metadata_entries(&None, &Some("d".to_string()), &Vec::new()),
        vec![entry("generator", "mdbook-epub"), entry("description", "d")]
    );
}

#[test]
fn errors_describe_what_failed() {
    let broken = Error::BrokenLink { link: "a.png".to_string(), path: "/b/a.png".to_string() };
    assert_eq!(broken.describe(), "Unable to fetch the asset a.png at /b/a.png");
    let outside = Error::OutsideRoot { link: "../x".to_string(), path: "/x".to_string() };
    assert_eq!(outside.describe(), "The asset ../x lies outside the source directory, at /x");
    let io = Error::IoFailure { path: "extra.css".to_string() };
    assert_eq!(io.describe(), "Unable to open extra.css");
    let render = Error::RenderFailure { chapter: "Intro".to_string(), message: "no helper".to_string() };
    assert_eq!(render.describe(), "Unable to render Intro: no helper");
}
