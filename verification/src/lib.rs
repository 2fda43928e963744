//! Site search over a sitemap: resolve a query (with its optional `site:`
//! operator) to a search term and a sitemap URL, parse the sitemap into
//! candidate page URLs, and match fetched pages against the term, collecting
//! at most a page worth of numbered results with optional snippets.
//!
//! All network activity is left to the caller: the library decides what to
//! fetch and what each fetched body means.

pub mod crawler;
pub mod enums;
pub mod extraction;
pub mod html;
pub mod matching;
pub mod text;
