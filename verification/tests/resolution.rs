use omnistream::crawler::plan_search;
use omnistream::enums::{SearchError, SearchRequest};
use omnistream::extraction::{extract_request, extract_request_with_default};

fn raw(query: &str, sitemap_url: Option<&str>) -> SearchRequest {
    SearchRequest {
        query: query.to_string(),
        sitemap_url: sitemap_url.map(|s| s.to_string()),
        page: None,
        per_page: None,
    }
}

#[test]
fn site_operator_sets_sitemap_and_leaves_term() {
    let r = extract_request(raw("foo site:example.com", None));
    assert_eq!(r.query, "foo");
    assert_eq!(r.sitemap_url.as_deref(), Some("https://example.com/sitemap.xml"));
}

#[test]
fn explicit_sitemap_url_wins_and_query_is_untouched() {
    let r = extract_request(raw("foo site:example.com", Some("https://other.org/map.xml")));
    assert_eq!(r.query, "foo site:example.com");
    assert_eq!(r.sitemap_url.as_deref(), Some("https://other.org/map.xml"));
}

#[test]
fn empty_explicit_sitemap_url_counts_as_absent() {
    let r = extract_request(raw("foo site:example.com", Some("")));
    assert_eq!(r.query, "foo");
    assert_eq!(r.sitemap_url.as_deref(), Some("https://example.com/sitemap.xml"));
}

#[test]
fn no_site_token_falls_back_to_default_and_keeps_term() {
    let r = extract_request(raw("plain words", None));
    assert_eq!(r.query, "plain words");
    assert_eq!(r.sitemap_url.as_deref(), Some("https://google.com/sitemap.xml"));
}

#[test]
fn default_sitemap_is_configurable() {
    let r = extract_request_with_default(raw("plain", None), "https://fallback.test/sitemap.xml");
    assert_eq!(r.sitemap_url.as_deref(), Some("https://fallback.test/sitemap.xml"));
}

#[test]
fn last_site_token_wins_and_all_are_removed() {
    let r = extract_request(raw("foo site:first.com bar site:second.com baz", None));
    assert_eq!(r.query, "foo bar baz");
    assert_eq!(r.sitemap_url.as_deref(), Some("https://second.com/sitemap.xml"));
}

#[test]
fn term_without_site_token_keeps_its_whitespace() {
    let r = extract_request(raw("  spaced   out  ", None));
    assert_eq!(r.query, "  spaced   out  ");
}

#[test]
fn pagination_fields_pass_through() {
    let mut q = raw("foo", None);
    q.page = Some(3);
    q.per_page = Some(7);
    let r = extract_request(q);
    assert_eq!(r.page, Some(3));
    assert_eq!(r.per_page, Some(7));
}

#[test]
fn empty_query_is_rejected_before_any_fetch() {
    let r = plan_search(raw("", None));
    assert!(matches!(r, Err(SearchError::EmptyQuery)));
}

#[test]
fn query_that_is_only_a_site_token_is_rejected() {
    let r = plan_search(raw("site:example.com", None));
    assert!(matches!(r, Err(SearchError::EmptyQuery)));
}

#[test]
fn valid_query_resolves_through_plan_search() {
    let r = plan_search(raw("foo site:example.com", None)).unwrap();
    assert_eq!(r.query, "foo");
    assert_eq!(r.sitemap_url.as_deref(), Some("https://example.com/sitemap.xml"));
}
