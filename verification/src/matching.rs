use vstd::prelude::*;

use crate::html::{node_texts, node_texts_of, page_title, text_node_texts, text_node_texts_of, title_text};
use crate::text::{contains_seq, lower, lowercase, str_contains, trim_text, trimmed};

verus! {

/// `term` occurs in `t` when both are case-folded.
pub open spec fn text_matches(t: Seq<char>, term: Seq<char>) -> bool {
    contains_seq(lower(t), lower(term))
}

/// A page matches when it has a title element and the term occurs,
/// case-insensitively, in the text of some node (the title's own text and
/// the page body text are both among the node texts).
pub open spec fn page_matches(html: Seq<char>, term: Seq<char>) -> bool {
    title_text(html) is Some && exists|k: int|
        0 <= k < node_texts(html).len() && text_matches(#[trigger] node_texts(html)[k], term)
}

/// Index of the first of `nodes` that matches `term` case-insensitively, or
/// `nodes.len()` when none does.
pub open spec fn first_hit(nodes: Seq<Seq<char>>, term: Seq<char>) -> int
    decreases nodes.len(),
{
    if nodes.len() == 0 {
        0
    } else if text_matches(nodes[0], term) {
        0
    } else {
        1 + first_hit(nodes.drop_first(), term)
    }
}

/// A scan that found no match before `k`, and one at `k` unless `k` is the
/// end, found exactly [`first_hit`].
pub proof fn lemma_first_hit_at(nodes: Seq<Seq<char>>, term: Seq<char>, k: int)
    requires
        0 <= k <= nodes.len(),
        forall|j: int| 0 <= j < k ==> !text_matches(#[trigger] nodes[j], term),
        k < nodes.len() ==> text_matches(nodes[k], term),
    ensures
        first_hit(nodes, term) == k,
    decreases k, nodes.len(),
{
    if nodes.len() == 0 {
    } else if k == 0 {
    } else {
        let rest = nodes.drop_first();
        assert(forall|j: int| 0 <= j < k - 1 ==> #[trigger] rest[j] == nodes[j + 1]);
        lemma_first_hit_at(rest, term, k - 1);
    }
}

/// What [`first_hit`] finds is a match, is the earliest one, and lies within
/// bounds; when it equals the length, nothing matches.
pub proof fn lemma_first_hit_found(nodes: Seq<Seq<char>>, term: Seq<char>)
    ensures
        0 <= first_hit(nodes, term) <= nodes.len(),
        forall|j: int|
            0 <= j < first_hit(nodes, term) ==> !text_matches(#[trigger] nodes[j], term),
        first_hit(nodes, term) < nodes.len() ==> text_matches(nodes[first_hit(nodes, term)], term),
    decreases nodes.len(),
{
    if nodes.len() > 0 && !text_matches(nodes[0], term) {
        let rest = nodes.drop_first();
        lemma_first_hit_found(rest, term);
        assert forall|j: int| 0 <= j < first_hit(nodes, term) implies !text_matches(
            #[trigger] nodes[j],
            term,
        ) by {
            if j > 0 {
                assert(rest[j - 1] == nodes[j]);
                assert(!text_matches(rest[j - 1], term));
            }
        }
        if first_hit(nodes, term) < nodes.len() {
            assert(rest[first_hit(rest, term)] == nodes[first_hit(nodes, term)]);
        }
    }
}

/// A page with no title element never matches, whatever its text holds.
pub proof fn lemma_no_title_no_match(html: Seq<char>, term: Seq<char>)
    ensures
        title_text(html) is None ==> !page_matches(html, term),
{
}

/// The snippet a matching page carries: the trimmed text of the first text
/// node that contains the term case-insensitively, or nothing when the term
/// occurs in no text node.
pub open spec fn snippet_spec(html: Seq<char>, term: Seq<char>) -> Option<Seq<char>> {
    let nodes = text_node_texts(html);
    let k = first_hit(nodes, term);
    if k < nodes.len() {
        Some(trimmed(nodes[k]))
    } else {
        None
    }
}

/// Snippet presence: when the term occurs in no text node (for instance,
/// only in an element's combined text), the snippet is absent; when it does,
/// the snippet is exactly the trimmed text of the earliest such node.
pub proof fn lemma_snippet_presence(html: Seq<char>, term: Seq<char>)
    ensures
        (forall|k: int|
            0 <= k < text_node_texts(html).len() ==> !text_matches(
                #[trigger] text_node_texts(html)[k],
                term,
            )) ==> snippet_spec(html, term) is None,
        snippet_spec(html, term) matches Some(s) ==> exists|k: int|
            {
                &&& 0 <= k < text_node_texts(html).len()
                &&& text_matches(#[trigger] text_node_texts(html)[k], term)
                &&& s == trimmed(text_node_texts(html)[k])
                &&& forall|j: int| 0 <= j < k ==> !text_matches(#[trigger] text_node_texts(html)[j], term)
            },
{
    let nodes = text_node_texts(html);
    lemma_first_hit_found(nodes, term);
    if snippet_spec(html, term) is Some {
        let k = first_hit(nodes, term);
        assert(0 <= k < nodes.len() && text_matches(nodes[k], term) && snippet_spec(html, term)
            == Some(trimmed(nodes[k])));
    }
}

/// A match before rank assignment: the page's title text and its optional
/// snippet.
pub struct PageMatch {
    pub title: String,
    pub snippet: Option<String>,
}

/// Whether the already case-folded `needle` occurs in any of `texts`.
pub fn any_contains(texts: &Vec<String>, needle: &str) -> (r: bool)
    ensures
        r == exists|k: int| 0 <= k < texts@.len() && contains_seq(#[trigger] texts@[k]@, needle@),
{
    let mut i: usize = 0;
    while i < texts.len()
        invariant
            i <= texts@.len(),
            forall|k: int| 0 <= k < i ==> !contains_seq(#[trigger] texts@[k]@, needle@),
        decreases texts@.len() - i,
    {
        if str_contains(texts[i].as_str(), needle) {
            return true;
        }
        i += 1;
    }
    false
}

/// Whether the term occurs, case-insensitively, in the text of any node of
/// the page.
pub fn page_text_matches(html: &str, term: &str) -> (r: bool)
    ensures
        r == exists|k: int|
            0 <= k < node_texts(html@).len() && text_matches(#[trigger] node_texts(html@)[k], term@),
{
    let folded_term = lowercase(term);
    let texts = node_texts_of(html);
    let mut folded: Vec<String> = Vec::new();
    let mut i: usize = 0;
    while i < texts.len()
        invariant
            texts.deep_view() == node_texts(html@),
            i <= texts@.len(),
            folded@.len() == i,
            forall|k: int| 0 <= k < i ==> #[trigger] folded@[k]@ == lower(node_texts(html@)[k]),
        decreases texts@.len() - i,
    {
        assert(texts@[i as int].deep_view() == node_texts(html@)[i as int]);
        folded.push(lowercase(texts[i].as_str()));
        i += 1;
    }
    let r = any_contains(&folded, folded_term.as_str());
    proof {
        assert(folded@.len() == node_texts(html@).len());
        if r {
            let k = choose|k: int|
                0 <= k < folded@.len() && contains_seq(#[trigger] folded@[k]@, folded_term@);
            assert(text_matches(node_texts(html@)[k], term@));
        } else {
            assert forall|k: int|
                0 <= k < node_texts(html@).len() implies !text_matches(
                #[trigger] node_texts(html@)[k],
                term@,
            ) by {
                assert(!contains_seq(folded@[k]@, folded_term@));
            }
        }
    }
    r
}

/// The match decision for one fetched page, and the snippet that goes with
/// it: a page with no title element is never a match; a titled page matches
/// exactly when some node's text contains the term case-insensitively.
pub fn match_page(html: &str, term: &str) -> (r: Option<PageMatch>)
    ensures
        r is Some <==> page_matches(html@, term@),
        r matches Some(m) ==> m.title@ == title_text(html@).unwrap(),
        r matches Some(m) ==> m.snippet.deep_view() == snippet_spec(html@, term@),
{
    match page_title(html) {
        None => None,
        Some(title) => {
            if page_text_matches(html, term) {
                let snippet = extract_snippet(html, term);
                Some(PageMatch { title, snippet })
            } else {
                None
            }
        },
    }
}

/// Best-effort excerpt for a match: the trimmed text of the first text node
/// that contains the search query case-insensitively; absent when no single
/// text node holds the query.
pub fn extract_snippet(html_content: &str, search_query: &str) -> (r: Option<String>)
    ensures
        r.deep_view() == snippet_spec(html_content@, search_query@),
{
    let ghost all = text_node_texts(html_content@);
    let folded_term = lowercase(search_query);
    let nodes = text_node_texts_of(html_content);
    let mut i: usize = 0;
    while i < nodes.len()
        invariant
            all == text_node_texts(html_content@),
            nodes.deep_view() == all,
            folded_term@ == lower(search_query@),
            i <= all.len(),
            forall|j: int| 0 <= j < i ==> !text_matches(#[trigger] all[j], search_query@),
        decreases all.len() - i,
    {
        assert(nodes@[i as int]@ == all[i as int]);
        let folded = lowercase(nodes[i].as_str());
        if str_contains(folded.as_str(), folded_term.as_str()) {
            proof {
                assert(text_matches(all[i as int], search_query@));
                lemma_first_hit_at(all, search_query@, i as int);
                assert(first_hit(all, search_query@) == i as int);
            }
            let out = trim_text(nodes[i].as_str());
            proof {
                assert(out@ == trimmed(all[i as int]));
            }
            return Some(out);
        }
        i += 1;
    }
    proof {
        lemma_first_hit_at(all, search_query@, all.len() as int);
    }
    None
}

} // verus!
