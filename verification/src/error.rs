//! The ways in which generation fails. Every one of them is fatal.

use vstd::prelude::*;
use crate::text::push_text;

verus! {

/// Why a book could not be assembled.
#[derive(Debug, Clone, PartialEq, Eq)]
pub enum Error {
    /// An asset reference does not lead to a regular file.
    BrokenLink {
        /// The reference as the chapter wrote it.
        link: String,
        /// The path that was tried for it.
        path: String,
    },
    /// An asset reference leads to a regular file that does not lie under the
    /// source root, so that the file has no name in the package.
    OutsideRoot {
        /// The reference as the chapter wrote it.
        link: String,
        /// The canonical path of the file.
        path: String,
    },
    /// A stylesheet could not be read.
    IoFailure {
        /// The path of the file.
        path: String,
    },
    /// A chapter's page could not be rendered.
    RenderFailure {
        /// The title of the chapter.
        chapter: String,
        /// What the renderer reported.
        message: String,
    },
}

/// The mathematical form of an `Error`.
pub enum ErrorText {
    BrokenLink { link: Seq<char>, path: Seq<char> },
    OutsideRoot { link: Seq<char>, path: Seq<char> },
    IoFailure { path: Seq<char> },
    RenderFailure { chapter: Seq<char>, message: Seq<char> },
}

impl View for Error {
    type V = ErrorText;

    open spec fn view(&self) -> ErrorText {
        match self {
            Error::BrokenLink { link, path } => ErrorText::BrokenLink { link: link@, path: path@ },
            Error::OutsideRoot { link, path } => ErrorText::OutsideRoot { link: link@, path: path@ },
            Error::IoFailure { path } => ErrorText::IoFailure { path: path@ },
            Error::RenderFailure { chapter, message } => ErrorText::RenderFailure {
                chapter: chapter@,
                message: message@,
            },
        }
    }
}

/// The mathematical form of what a fallible step of the pipeline came to.
pub open spec fn outcome_of<T: DeepView>(result: Result<T, Error>) -> Result<T::V, ErrorText> {
    match result {
        Ok(value) => Ok(value.deep_view()),
        Err(e) => Err(e@),
    }
}

/// What to tell the user about an error: what failed, and on which file, link or
/// chapter.
pub open spec fn description_of(e: ErrorText) -> Seq<char> {
    match e {
        ErrorText::BrokenLink { link, path } => "Unable to fetch the asset "@ + link + " at "@
            + path,
        ErrorText::OutsideRoot { link, path } => "The asset "@ + link
            + " lies outside the source directory, at "@ + path,
        ErrorText::IoFailure { path } => "Unable to open "@ + path,
        ErrorText::RenderFailure { chapter, message } => "Unable to render "@ + chapter + ": "@
            + message,
    }
}

impl Error {
    /// Describes the error for the user.
    pub fn describe(&self) -> (text: String)
        ensures
            text@ == description_of(self@),
    {
        let mut text = String::new();
        match self {
            Error::BrokenLink { link, path } => {
                push_text(&mut text, "Unable to fetch the asset ");
                push_text(&mut text, link.as_str());
                push_text(&mut text, " at ");
                push_text(&mut text, path.as_str());
                assert(text@ =~= description_of(self@));
            },
            Error::OutsideRoot { link, path } => {
                push_text(&mut text, "The asset ");
                push_text(&mut text, link.as_str());
                push_text(&mut text, " lies outside the source directory, at ");
                push_text(&mut text, path.as_str());
                assert(text@ =~= description_of(self@));
            },
            Error::IoFailure { path } => {
                push_text(&mut text, "Unable to open ");
                push_text(&mut text, path.as_str());
                assert(text@ =~= description_of(self@));
            },
            Error::RenderFailure { chapter, message } => {
                push_text(&mut text, "Unable to render ");
                push_text(&mut text, chapter.as_str());
                push_text(&mut text, ": ");
                push_text(&mut text, message.as_str());
                assert(text@ =~= description_of(self@));
            },
        }
        text
    }
}

} // verus!
