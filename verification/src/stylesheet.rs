//! The one stylesheet of the package: the built-in sheet, where it is wanted, and
//! then every additional sheet in the order of the configuration.

use vstd::prelude::*;
use vstd::string::StringSliceAdditionalSpecFns;
use crate::error::{outcome_of, Error, ErrorText};
use crate::text::push_bytes;

verus! {

/// The built-in stylesheet.
pub const DEFAULT_CSS: &'static str =
    "body {\n  margin: 5%;\n  font-family: serif;\n  line-height: 1.5;\n  text-align: justify;\n}\n\nh1, h2, h3, h4, h5, h6 {\n  font-family: sans-serif;\n  line-height: 1.2;\n  text-align: left;\n  page-break-after: avoid;\n}\n\np {\n  margin: 0.6em 0;\n}\n\nimg {\n  max-width: 100%;\n}\n\npre, code {\n  font-family: monospace;\n  font-size: 0.9em;\n}\n\npre {\n  padding: 0.5em;\n  white-space: pre-wrap;\n  border: 1px solid #cccccc;\n}\n\nblockquote {\n  margin: 1em 0 1em 1em;\n  padding-left: 1em;\n  border-left: 3px solid #cccccc;\n}\n\ntable {\n  border-collapse: collapse;\n}\n\ntd, th {\n  padding: 0.2em 0.6em;\n  border: 1px solid #cccccc;\n}\n";

/// The bytes of the built-in stylesheet.
pub open spec fn default_css_bytes() -> Seq<u8> {
    DEFAULT_CSS.spec_bytes()
}

/// What was read of the `i`-th additional stylesheet: its bytes, or `None` where
/// the file could not be read or nothing was handed in for it.
pub open spec fn sheet_at(contents: Seq<Option<Vec<u8>>>, i: int) -> Option<Seq<u8>> {
    if 0 <= i < contents.len() {
        match contents[i] {
            Some(bytes) => Some(bytes@),
            None => None,
        }
    } else {
        None
    }
}

/// Index of the first of the `n` additional stylesheets that could not be read;
/// `n` where all of them could.
pub open spec fn first_unread(contents: Seq<Option<Vec<u8>>>, n: int) -> int
    decreases n,
{
    if n <= 0 {
        0
    } else if first_unread(contents, n - 1) < n - 1 {
        first_unread(contents, n - 1)
    } else if sheet_at(contents, n - 1) is None {
        n - 1
    } else {
        n
    }
}

/// The first `n` additional stylesheets, one after the other.
pub open spec fn sheets_joined(contents: Seq<Option<Vec<u8>>>, n: int) -> Seq<u8>
    decreases n,
{
    if n <= 0 {
        Seq::empty()
    } else {
        sheets_joined(contents, n - 1) + match sheet_at(contents, n - 1) {
            Some(bytes) => bytes,
            None => Seq::empty(),
        }
    }
}

/// What the built-in stylesheet contributes: its bytes where it is wanted, nothing
/// where it is not.
pub open spec fn default_part(use_default_css: bool) -> Seq<u8> {
    if use_default_css {
        default_css_bytes()
    } else {
        Seq::empty()
    }
}

/// The stylesheet of the package. One additional stylesheet that could not be read
/// fails it, with the path of the first such file. Otherwise it is the built-in
/// sheet, where wanted, followed by every additional sheet in configured order.
pub open spec fn stylesheet_of(
    use_default_css: bool,
    paths: Seq<String>,
    contents: Seq<Option<Vec<u8>>>,
) -> Result<Seq<u8>, ErrorText> {
    let n = paths.len() as int;
    if first_unread(contents, n) < n {
        Err(ErrorText::IoFailure { path: paths[first_unread(contents, n)]@ })
    } else {
        Ok(default_part(use_default_css) + sheets_joined(contents, n))
    }
}

/// Before its result, `first_unread` passes over sheets that were read, and it
/// stops on one that was not.
pub proof fn lemma_first_unread(contents: Seq<Option<Vec<u8>>>, n: int)
    requires
        0 <= n,
    ensures
        0 <= first_unread(contents, n) <= n,
        first_unread(contents, n) < n ==> sheet_at(contents, first_unread(contents, n)) is None,
        forall|k: int| 0 <= k < first_unread(contents, n) ==> sheet_at(contents, k) is Some,
    decreases n,
{
    if n > 0 {
        lemma_first_unread(contents, n - 1);
    }
}

/// A sheet that could not be read among the first `m` is the first such among any
/// longer run.
proof fn lemma_first_unread_stays(contents: Seq<Option<Vec<u8>>>, m: int, n: int)
    requires
        0 <= m <= n,
        first_unread(contents, m) < m,
    ensures
        first_unread(contents, n) == first_unread(contents, m),
    decreases n - m,
{
    if m < n {
        lemma_first_unread_stays(contents, m + 1, n);
    }
}

/// Concatenates the stylesheets of a book: the built-in one, if `use_default_css`
/// is set, and then the additional ones in the order of `paths`. `contents` holds
/// what was read of each additional file, `None` for a file that could not be read;
/// a file for which `contents` holds nothing counts as not read.
pub fn generate_stylesheet(
    use_default_css: bool,
    paths: &Vec<String>,
    contents: &Vec<Option<Vec<u8>>>,
) -> (result: Result<Vec<u8>, Error>)
    ensures
        outcome_of(result) == stylesheet_of(use_default_css, paths@, contents@),
{
    let mut stylesheet: Vec<u8> = Vec::new();
    if use_default_css {
        push_bytes(&mut stylesheet, DEFAULT_CSS.as_bytes());
    }
    assert(stylesheet@ =~= default_part(use_default_css) + sheets_joined(contents@, 0));
    let mut i: usize = 0;
    while i < paths.len()
        invariant
            i <= paths.len(),
            first_unread(contents@, i as int) == i,
            stylesheet@ == default_part(use_default_css) + sheets_joined(contents@, i as int),
        decreases paths.len() - i,
    {
        let ghost before = stylesheet@;
        if i < contents.len() {
            match &contents[i] {
                Some(bytes) => {
                    push_bytes(&mut stylesheet, bytes.as_slice());
                    assert(sheet_at(contents@, i as int) == Some(bytes@));
                    assert(stylesheet@ =~= default_part(use_default_css) + sheets_joined(
                        contents@,
                        i + 1,
                    ));
                },
                None => {
                    proof {
                        lemma_first_unread_stays(contents@, i + 1, paths.len() as int);
                    }
                    return Err(Error::IoFailure { path: paths[i].clone() });
                },
            }
        } else {
            proof {
                lemma_first_unread_stays(contents@, i + 1, paths.len() as int);
            }
            return Err(Error::IoFailure { path: paths[i].clone() });
        }
        i += 1;
    }
    assert(stylesheet.deep_view() =~= stylesheet@);
    Ok(stylesheet)
}

/// The built-in stylesheet comes first: with it, the stylesheet is the built-in
/// sheet followed by what the stylesheet is without it.
pub proof fn lemma_default_comes_first(paths: Seq<String>, contents: Seq<Option<Vec<u8>>>)
    requires
        stylesheet_of(false, paths, contents) is Ok,
    ensures
        stylesheet_of(true, paths, contents) == Ok::<Seq<u8>, ErrorText>(
            default_css_bytes() + stylesheet_of(false, paths, contents)->Ok_0,
        ),
{
    let n = paths.len() as int;
    assert(default_part(false) + sheets_joined(contents, n) =~= sheets_joined(contents, n));
}

/// The additional stylesheets come in configured order: one more file, read and
/// configured last, adds its bytes at the end and changes nothing before them.
pub proof fn lemma_sheets_are_appended(
    use_default_css: bool,
    paths: Seq<String>,
    contents: Seq<Option<Vec<u8>>>,
    path: String,
    bytes: Vec<u8>,
)
    requires
        contents.len() == paths.len(),
        stylesheet_of(use_default_css, paths, contents) is Ok,
    ensures
        stylesheet_of(use_default_css, paths.push(path), contents.push(Some(bytes))) == Ok::<
            Seq<u8>,
            ErrorText,
        >(stylesheet_of(use_default_css, paths, contents)->Ok_0 + bytes@),
{
    let n = paths.len() as int;
    let more = contents.push(Some(bytes));
    lemma_sheets_ignore_later(contents, more, n);
    assert(sheet_at(more, n) == Some(bytes@));
    assert(default_part(use_default_css) + (sheets_joined(more, n) + bytes@) =~= default_part(
        use_default_css,
    ) + sheets_joined(contents, n) + bytes@);
}

/// What is said of the first `n` stylesheets depends on the first `n` only.
proof fn lemma_sheets_ignore_later(a: Seq<Option<Vec<u8>>>, b: Seq<Option<Vec<u8>>>, n: int)
    requires
        0 <= n <= a.len() <= b.len(),
        forall|k: int| 0 <= k < n ==> a[k] == b[k],
    ensures
        first_unread(a, n) == first_unread(b, n),
        sheets_joined(a, n) == sheets_joined(b, n),
    decreases n,
{
    if n > 0 {
        lemma_sheets_ignore_later(a, b, n - 1);
        assert(sheet_at(a, n - 1) == sheet_at(b, n - 1));
    }
}

/// Without the built-in stylesheet and without additional ones, the stylesheet is
/// empty.
pub proof fn lemma_no_sheets_no_bytes(contents: Seq<Option<Vec<u8>>>)
    ensures
        stylesheet_of(false, Seq::empty(), contents) == Ok::<Seq<u8>, ErrorText>(Seq::empty()),
{
    assert(default_part(false) + sheets_joined(contents, 0) =~= Seq::<u8>::empty());
}

/// One additional stylesheet that could not be read fails the stylesheet, with the
/// path of the first such file.
pub proof fn lemma_unread_sheet_fails(
    use_default_css: bool,
    paths: Seq<String>,
    contents: Seq<Option<Vec<u8>>>,
    k: int,
)
    requires
        0 <= k < paths.len(),
        sheet_at(contents, k) is None,
    ensures
        first_unread(contents, paths.len() as int) <= k,
        stylesheet_of(use_default_css, paths, contents) == Err::<Seq<u8>, ErrorText>(
            ErrorText::IoFailure { path: paths[first_unread(contents, paths.len() as int)]@ },
        ),
{
    lemma_first_unread(contents, paths.len() as int);
}

} // verus!
