use vstd::prelude::*;

use select::document::Document;
use select::predicate::{Any, Name};

verus! {

/// The text content of every `loc` element of the parsed document, in
/// document order; what [`sitemap_locs`] returns.
pub uninterp spec fn loc_texts(html: Seq<char>) -> Seq<Seq<char>>;

/// The text content of the first `title` element of the parsed document, if
/// the document has one; what [`page_title`] returns.
pub uninterp spec fn title_text(html: Seq<char>) -> Option<Seq<char>>;

/// The combined text content of every node of the parsed document (elements,
/// text nodes and comments), in document order; what [`node_texts`] returns.
pub uninterp spec fn node_texts(html: Seq<char>) -> Seq<Seq<char>>;

/// The raw text of every text node of the parsed document, in document
/// order; what [`text_node_texts`] returns.
pub uninterp spec fn text_node_texts(html: Seq<char>) -> Seq<Seq<char>>;

/// Relies on select's `Document::from` and `Find`: parsing is lenient and
/// never fails, and `find(Name("loc"))` yields the `loc` elements in
/// document order, each with its combined descendant text.
#[verifier::external_body]
pub fn sitemap_locs(html: &str) -> (r: Vec<String>)
    ensures
        r.deep_view() == loc_texts(html@),
{
    let document = Document::from(html);
    let mut texts = Vec::new();
    for node in document.find(Name("loc")) {
        texts.push(node.text());
    }
    texts
}

/// Relies on select's `Document::from` and `Find`: `find(Name("title"))`
/// yields the `title` elements in document order, so its first item is the
/// document's first `title` element.
#[verifier::external_body]
pub fn page_title(html: &str) -> (r: Option<String>)
    ensures
        r.deep_view() == title_text(html@),
{
    let document = Document::from(html);
    match document.find(Name("title")).next() {
        Some(node) => Some(node.text()),
        None => None,
    }
}

/// Relies on select's `Document::from` and `Find`: `find(Any)` walks every
/// node of the document in document order, and `Node::text` is its combined
/// descendant text.
#[verifier::external_body]
pub fn node_texts_of(html: &str) -> (r: Vec<String>)
    ensures
        r.deep_view() == node_texts(html@),
{
    let document = Document::from(html);
    let mut texts = Vec::new();
    for node in document.find(Any) {
        texts.push(node.text());
    }
    texts
}

/// Relies on select's `Document::from`, `Find` and `Node::as_text`:
/// `find(Any)` walks every node in document order, and `as_text` is `Some`
/// exactly on text nodes, carrying their raw text.
#[verifier::external_body]
pub fn text_node_texts_of(html: &str) -> (r: Vec<String>)
    ensures
        r.deep_view() == text_node_texts(html@),
{
    let document = Document::from(html);
    let mut texts = Vec::new();
    for node in document.find(Any) {
        if let Some(text) = node.as_text() {
            texts.push(text.to_owned());
        }
    }
    texts
}

} // verus!
