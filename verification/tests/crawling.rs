use omnistream::crawler::{begin_crawl, crawl_pages, Crawler, FetchedPage};
use omnistream::enums::{SearchError, SearchRequest};

fn request(page: Option<i32>, per_page: Option<i32>) -> SearchRequest {
    SearchRequest {
        query: "rust".to_string(),
        sitemap_url: Some("https://example.com/sitemap.xml".to_string()),
        page,
        per_page,
    }
}

fn titled_page(url: &str, title: &str, body: &str) -> FetchedPage {
    FetchedPage {
        url: url.to_string(),
        content: Some(format!(
            "<html><head><title>{}</title></head><body><p>{}</p></body></html>",
            title, body
        )),
    }
}

fn failed_page(url: &str) -> FetchedPage {
    FetchedPage { url: url.to_string(), content: None }
}

fn sitemap(urls: &[&str]) -> String {
    let mut body = String::from("<?xml version=\"1.0\"?><urlset>");
    for u in urls {
        body.push_str("<url><loc>");
        body.push_str(u);
        body.push_str("</loc></url>");
    }
    body.push_str("</urlset>");
    body
}

#[test]
fn sitemap_locs_come_back_in_document_order() {
    let body = sitemap(&["https://a.test/1", "https://a.test/2", "https://a.test/3"]);
    let candidates = begin_crawl(&request(None, None), Some(&body)).unwrap();
    assert_eq!(candidates, vec!["https://a.test/1", "https://a.test/2", "https://a.test/3"]);
}

#[test]
fn pagination_skips_earlier_candidates() {
    let urls: Vec<String> = (0..12).map(|i| format!("https://a.test/{}", i)).collect();
    let refs: Vec<&str> = urls.iter().map(|s| s.as_str()).collect();
    let body = sitemap(&refs);
    let candidates = begin_crawl(&request(Some(2), Some(5)), Some(&body)).unwrap();
    let expected: Vec<String> = (5..12).map(|i| format!("https://a.test/{}", i)).collect();
    assert_eq!(candidates, expected);
}

#[test]
fn pagination_past_the_end_leaves_nothing() {
    let body = sitemap(&["https://a.test/only"]);
    let candidates = begin_crawl(&request(Some(3), Some(5)), Some(&body)).unwrap();
    assert!(candidates.is_empty());
}

#[test]
fn sitemap_fetch_failure_is_a_single_request_level_error() {
    let r = begin_crawl(&request(None, None), None);
    assert!(matches!(r, Err(SearchError::SitemapFetch)));
}

#[test]
fn crawl_returns_at_most_per_page_with_increasing_indexes() {
    let pages: Vec<FetchedPage> = (0..6)
        .map(|i| titled_page(&format!("https://a.test/{}", i), "Rust", "all about rust"))
        .collect();
    let results = crawl_pages("rust".to_string(), 3, &pages);
    assert_eq!(results.len(), 3);
    for (i, r) in results.iter().enumerate() {
        assert_eq!(r.index, i as i32 + 1);
        assert_eq!(r.url, format!("https://a.test/{}", i));
    }
}

#[test]
fn failed_fetches_are_skipped_not_fatal() {
    let pages = vec![
        titled_page("https://a.test/0", "Rust intro", "rust is here"),
        failed_page("https://a.test/1"),
        titled_page("https://a.test/2", "More Rust", "rust again"),
    ];
    let results = crawl_pages("rust".to_string(), 5, &pages);
    assert_eq!(results.len(), 2);
    assert_eq!(results[0].url, "https://a.test/0");
    assert_eq!(results[0].index, 1);
    assert_eq!(results[1].url, "https://a.test/2");
    assert_eq!(results[1].index, 2);
}

#[test]
fn non_matching_pages_contribute_nothing() {
    let pages = vec![
        titled_page("https://a.test/0", "Cooking", "soup recipe"),
        titled_page("https://a.test/1", "Rust", "rust content"),
    ];
    let results = crawl_pages("rust".to_string(), 5, &pages);
    assert_eq!(results.len(), 1);
    assert_eq!(results[0].url, "https://a.test/1");
    assert_eq!(results[0].title, "Rust");
    assert_eq!(results[0].index, 1);
}

#[test]
fn results_carry_title_and_snippet() {
    let pages = vec![titled_page("https://a.test/p", "Intro Guide", "  learn rust fast  ")];
    let results = crawl_pages("rust".to_string(), 5, &pages);
    assert_eq!(results.len(), 1);
    assert_eq!(results[0].title, "Intro Guide");
    assert_eq!(results[0].snippet.as_deref(), Some("learn rust fast"));
}

#[test]
fn crawler_quota_is_a_single_check_and_append() {
    let mut c = Crawler::new("rust".to_string(), 1);
    assert!(!c.quota_met());
    let page = "<html><head><title>Rust</title></head><body><p>rust</p></body></html>";
    c.process_page("https://a.test/0", Some(page));
    assert!(c.quota_met());
    c.process_page("https://a.test/1", Some(page));
    let results = c.into_results();
    assert_eq!(results.len(), 1);
    assert_eq!(results[0].url, "https://a.test/0");
}

#[test]
fn index_reflects_acceptance_order_not_candidate_order() {
    let mut c = Crawler::new("rust".to_string(), 5);
    let page =
        |t: &str| format!("<html><head><title>{}</title></head><body><p>rust</p></body></html>", t);
    let later = page("Later Candidate");
    let earlier = page("Earlier Candidate");
    c.process_page("https://a.test/2", Some(&later));
    c.process_page("https://a.test/0", Some(&earlier));
    let results = c.into_results();
    assert_eq!(results.len(), 2);
    assert_eq!(results[0].url, "https://a.test/2");
    assert_eq!(results[0].index, 1);
    assert_eq!(results[1].url, "https://a.test/0");
    assert_eq!(results[1].index, 2);
}
