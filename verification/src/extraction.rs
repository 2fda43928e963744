use vstd::prelude::*;

use crate::enums::{SearchRequest, SearchRequestView};
use crate::text::is_space;

verus! {

/// End of the whitespace-free run that starts at position `i`: the first
/// position at or after `i` that is past the end or holds whitespace.
pub open spec fn word_end(s: Seq<char>, i: int) -> int
    decreases s.len() - i,
{
    if i < 0 || i >= s.len() || is_space(s[i]) {
        i
    } else {
        word_end(s, i + 1)
    }
}

pub proof fn lemma_word_end(s: Seq<char>, i: int)
    requires
        0 <= i <= s.len(),
    ensures
        i <= word_end(s, i) <= s.len(),
        forall|k: int| i <= k < word_end(s, i) ==> !is_space(s[k]),
        word_end(s, i) == s.len() || is_space(s[word_end(s, i)]),
        i < s.len() && !is_space(s[i]) ==> word_end(s, i) >= i + 1,
    decreases s.len() - i,
{
    if i < s.len() && !is_space(s[i]) {
        lemma_word_end(s, i + 1);
    }
}

/// A scan that stopped at the first boundary found exactly [`word_end`].
pub proof fn lemma_word_end_is_boundary(s: Seq<char>, i: int, j: int)
    requires
        0 <= i <= j <= s.len(),
        forall|k: int| i <= k < j ==> !is_space(s[k]),
        j == s.len() || is_space(s[j]),
    ensures
        word_end(s, i) == j,
    decreases j - i,
{
    if i < j {
        lemma_word_end_is_boundary(s, i + 1, j);
    }
}

/// The literal prefix that marks a token as a sitemap-host operator.
pub open spec fn site_prefix() -> Seq<char> {
    seq!['s', 'i', 't', 'e', ':']
}

/// The token begins with `site:`.
pub open spec fn is_site_token(t: Seq<char>) -> bool {
    t.len() >= 5 && t.subrange(0, 5) == site_prefix()
}

pub proof fn lemma_site_token_chars(t: Seq<char>)
    requires
        t.len() >= 5,
    ensures
        is_site_token(t) <==> (t[0] == 's' && t[1] == 'i' && t[2] == 't' && t[3] == 'e' && t[4]
            == ':'),
{
    let p = t.subrange(0, 5);
    assert(p[0] == t[0] && p[1] == t[1] && p[2] == t[2] && p[3] == t[3] && p[4] == t[4]);
    if t[0] == 's' && t[1] == 'i' && t[2] == 't' && t[3] == 'e' && t[4] == ':' {
        assert(p =~= site_prefix());
    }
}

/// Two pieces of text joined with a single space, except that an empty piece
/// disappears.
pub open spec fn join_sep(a: Seq<char>, b: Seq<char>) -> Seq<char> {
    if a.len() == 0 {
        b
    } else if b.len() == 0 {
        a
    } else {
        a + seq![' '] + b
    }
}

pub proof fn lemma_join_sep_assoc(a: Seq<char>, b: Seq<char>, c: Seq<char>)
    ensures
        join_sep(join_sep(a, b), c) == join_sep(a, join_sep(b, c)),
{
    if a.len() > 0 && b.len() > 0 && c.len() > 0 {
        assert((a + seq![' '] + b) + seq![' '] + c =~= a + seq![' '] + (b + seq![' '] + c));
    }
}

/// The whitespace-delimited tokens of `s` from position `i` on, with every
/// `site:` token dropped and the survivors joined by single spaces.
pub open spec fn kept_tail(s: Seq<char>, i: int) -> Seq<char>
    decreases s.len() - i,
    via kept_tail_decreases
{
    if i < 0 || i >= s.len() {
        Seq::empty()
    } else if is_space(s[i]) {
        kept_tail(s, i + 1)
    } else {
        let t = s.subrange(i, word_end(s, i));
        let rest = kept_tail(s, word_end(s, i));
        if is_site_token(t) {
            rest
        } else {
            join_sep(t, rest)
        }
    }
}

#[via_fn]
proof fn kept_tail_decreases(s: Seq<char>, i: int) {
    if 0 <= i < s.len() && !is_space(s[i]) {
        lemma_word_end(s, i);
    }
}

/// The host named by the last `site:` token of `s` at or after position `i`
/// (the text after the prefix), if any such token exists.
pub open spec fn site_host_tail(s: Seq<char>, i: int) -> Option<Seq<char>>
    decreases s.len() - i,
    via site_host_tail_decreases
{
    if i < 0 || i >= s.len() {
        None
    } else if is_space(s[i]) {
        site_host_tail(s, i + 1)
    } else {
        let j = word_end(s, i);
        let rest = site_host_tail(s, j);
        if rest is Some {
            rest
        } else if is_site_token(s.subrange(i, j)) {
            Some(s.subrange(i + 5, j))
        } else {
            None
        }
    }
}

#[via_fn]
proof fn site_host_tail_decreases(s: Seq<char>, i: int) {
    if 0 <= i < s.len() && !is_space(s[i]) {
        lemma_word_end(s, i);
    }
}

/// The search term a query resolves to: unchanged when it holds no `site:`
/// token, otherwise the remaining tokens joined by single spaces.
pub open spec fn resolved_term(q: Seq<char>) -> Seq<char> {
    if site_host_tail(q, 0) is Some {
        kept_tail(q, 0)
    } else {
        q
    }
}

/// The sitemap URL a query resolves to: built from the last `site:` token's
/// host by the fixed path convention, or the caller's default.
pub open spec fn resolved_sitemap(q: Seq<char>, default_url: Seq<char>) -> Seq<char> {
    match site_host_tail(q, 0) {
        Some(h) => "https://"@ + h + "/sitemap.xml"@,
        None => default_url,
    }
}

/// Full resolution of a request: an explicit non-empty sitemap URL wins and
/// leaves the query untouched; otherwise term and sitemap URL are derived
/// from the query text. Pagination fields pass through unchanged.
pub open spec fn resolve_spec(r: SearchRequestView, default_url: Seq<char>) -> SearchRequestView {
    match r.sitemap_url {
        Some(u) => if u.len() > 0 {
            r
        } else {
            resolve_derived_spec(r, default_url)
        },
        None => resolve_derived_spec(r, default_url),
    }
}

pub open spec fn resolve_derived_spec(
    r: SearchRequestView,
    default_url: Seq<char>,
) -> SearchRequestView {
    SearchRequestView {
        query: resolved_term(r.query),
        sitemap_url: Some(resolved_sitemap(r.query, default_url)),
        page: r.page,
        per_page: r.per_page,
    }
}

/// Ghost image of the scanner's record of the last `site:` host seen.
pub open spec fn opt_text(o: Option<&str>) -> Option<Seq<char>> {
    match o {
        Some(s) => Some(s@),
        None => None,
    }
}

/// The first `Some` of the two.
pub open spec fn opt_or(a: Option<Seq<char>>, b: Option<Seq<char>>) -> Option<Seq<char>> {
    if a is Some {
        a
    } else {
        b
    }
}

/// Scan the query text once, dropping `site:` tokens from the term and
/// remembering the last host named by one; build the effective term and the
/// effective sitemap URL.
fn resolve_query_text(q: &str, default_sitemap_url: &str) -> (r: (String, String))
    ensures
        r.0@ == resolved_term(q@),
        r.1@ == resolved_sitemap(q@, default_sitemap_url@),
{
    let n = q.unicode_len();
    let mut i: usize = 0;
    let mut eff = String::new();
    let mut host: Option<&str> = None;
    while i < n
        invariant
            n == q@.len(),
            i <= n,
            join_sep(eff@, kept_tail(q@, i as int)) == kept_tail(q@, 0),
            opt_or(site_host_tail(q@, i as int), opt_text(host)) == site_host_tail(q@, 0),
        decreases n - i,
    {
        if is_space_at(q, i) {
            i += 1;
        } else {
            let ghost i0 = i as int;
            let mut j: usize = i;
            loop
                invariant
                    n == q@.len(),
                    i0 <= j <= n,
                    forall|k: int| i0 <= k < j ==> !is_space(q@[k]),
                ensures
                    i0 <= j <= n,
                    forall|k: int| i0 <= k < j ==> !is_space(q@[k]),
                    j == n || is_space(q@[j as int]),
                decreases n - j,
            {
                if j == n {
                    break ;
                }
                if is_space_at(q, j) {
                    break ;
                }
                j += 1;
            }
            proof {
                lemma_word_end_is_boundary(q@, i0, j as int);
            }
            let ghost t = q@.subrange(i0, j as int);
            let site = j - i >= 5 && q.get_char(i) == 's' && q.get_char(i + 1) == 'i' && q.get_char(
                i + 2,
            ) == 't' && q.get_char(i + 3) == 'e' && q.get_char(i + 4) == ':';
            proof {
                if j - i >= 5 {
                    assert(t[0] == q@[i0] && t[1] == q@[i0 + 1] && t[2] == q@[i0 + 2] && t[3]
                        == q@[i0 + 3] && t[4] == q@[i0 + 4]);
                    lemma_site_token_chars(t);
                }
            }
            if site {
                host = Some(q.substring_char(i + 5, j));
            } else {
                proof {
                    reveal_strlit(" ");
                    assert(" "@ =~= seq![' ']);
                    lemma_join_sep_assoc(eff@, t, kept_tail(q@, j as int));
                }
                if !eff.as_str().is_empty() {
                    eff.append(" ");
                }
                eff.append(q.substring_char(i, j));
            }
            i = j;
        }
    }
    let term: String = match host {
        Some(_) => eff,
        None => q.to_owned(),
    };
    let url: String = match host {
        Some(h) => {
            let mut u = String::from_str("https://");
            u.append(h);
            u.append("/sitemap.xml");
            u
        },
        None => default_sitemap_url.to_owned(),
    };
    (term, url)
}

/// Whether the character at position `i` of `q` is whitespace.
fn is_space_at(q: &str, i: usize) -> (b: bool)
    requires
        i < q@.len(),
    ensures
        b == is_space(q@[i as int]),
{
    crate::text::is_space_char(q.get_char(i))
}

/// Resolve a raw request against a caller-chosen default sitemap URL: an
/// explicit non-empty sitemap URL is kept as it is; otherwise the query's
/// `site:` operator (last one wins) or the default names the sitemap, and
/// `site:` tokens leave the term.
pub fn extract_request_with_default(query: SearchRequest, default_sitemap_url: &str) -> (r:
    SearchRequest)
    ensures
        r@ == resolve_spec(query@, default_sitemap_url@),
{
    match query.sitemap_url {
        Some(url) => {
            if !url.as_str().is_empty() {
                SearchRequest {
                    query: query.query,
                    sitemap_url: Some(url),
                    page: query.page,
                    per_page: query.per_page,
                }
            } else {
                let (term, sitemap) = resolve_query_text(query.query.as_str(), default_sitemap_url);
                SearchRequest {
                    query: term,
                    sitemap_url: Some(sitemap),
                    page: query.page,
                    per_page: query.per_page,
                }
            }
        },
        None => {
            let (term, sitemap) = resolve_query_text(query.query.as_str(), default_sitemap_url);
            SearchRequest {
                query: term,
                sitemap_url: Some(sitemap),
                page: query.page,
                per_page: query.per_page,
            }
        },
    }
}

/// The sitemap location assumed when a request names no site at all.
pub open spec fn default_sitemap() -> Seq<char> {
    "https://google.com/sitemap.xml"@
}

/// Resolve a raw request with the library's stock default sitemap URL.
pub fn extract_request(query: SearchRequest) -> (r: SearchRequest)
    ensures
        r@ == resolve_spec(query@, default_sitemap()),
{
    extract_request_with_default(query, "https://google.com/sitemap.xml")
}

} // verus!
