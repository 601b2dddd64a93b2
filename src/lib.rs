//! Serves SVG images as full-width HTML pages: page names become asset
//! paths, the root `<svg>` tag is rewritten to scale with its container, and
//! the result is bound into a page template.

pub mod markup;
pub mod page;
pub mod handler;
pub mod tag_laws;
