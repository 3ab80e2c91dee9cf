//! Assembles an EPUB package from a book of markdown chapters.
//!
//! The library finds every asset that the chapters refer to, renders each chapter
//! to a page, places the chapters in a table of contents, joins the stylesheets and
//! lists the metadata. It touches neither disk nor network: the caller reads the
//! files and hands their contents in, and writes the package that comes out.

pub mod book;
pub mod error;
pub mod generator;
pub mod html;
pub mod link;
pub mod markdown;
pub mod metadata;
pub mod path;
pub mod resources;
pub mod stylesheet;
pub mod template;
pub mod text;
pub mod toc;

pub use crate::error::Error;
pub use crate::generator::{Config, Found, Generator, Package, RenderContext};
pub use crate::resources::{Asset, AssetLink, Outcome, Resource};
