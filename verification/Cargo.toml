[package]
name = "mdbook_epub"
version = "0.1.0"
edition = "2021"
publish = false

[dependencies]
epub-builder = "=0.4.10"
failure = "=0.1.8"
handlebars = "=2.0.4"
log = "=0.4.34"
mdbook = { version = "=0.4.52", default-features = false }
mime_guess = "=2.0.5"
pulldown-cmark = { version = "=0.7.2", default-features = false }
serde_json = "=1.0.154"

[dev-dependencies]
regex = "=1.13.1"
