use omnistream::matching::{any_contains, extract_snippet, match_page};

const MATCHING_PAGE: &str = "<html><head><title>Rust Guide</title></head>\
<body><p>Learn RUST here today.</p></body></html>";

const TITLE_ONLY_PAGE: &str = "<html><head><title>All About Zebras</title></head>\
<body><p>Nothing else relevant.</p></body></html>";

const NO_TITLE_PAGE: &str = "<html><head></head>\
<body><p>rust appears in the body text.</p></body></html>";

const UNRELATED_PAGE: &str = "<html><head><title>Cooking</title></head>\
<body><p>A recipe for soup.</p></body></html>";

#[test]
fn body_match_is_case_insensitive() {
    let m = match_page(MATCHING_PAGE, "rust").expect("page should match");
    assert_eq!(m.title, "Rust Guide");
}

#[test]
fn title_match_counts_even_if_body_lacks_the_term() {
    let m = match_page(TITLE_ONLY_PAGE, "zebras").expect("title match expected");
    assert_eq!(m.title, "All About Zebras");
}

#[test]
fn page_without_title_never_matches() {
    assert!(match_page(NO_TITLE_PAGE, "rust").is_none());
}

#[test]
fn page_without_the_term_does_not_match() {
    assert!(match_page(UNRELATED_PAGE, "rust").is_none());
}

#[test]
fn snippet_is_trimmed_text_of_first_matching_text_node() {
    let page = "<html><head><title>Doc</title></head>\
<body><p>first paragraph</p><p>   the rust snippet   </p><p>rust again</p></body></html>";
    let m = match_page(page, "RUST").expect("match expected");
    assert_eq!(m.snippet.as_deref(), Some("the rust snippet"));
    assert_eq!(extract_snippet(page, "RUST").as_deref(), Some("the rust snippet"));
}

#[test]
fn title_occurrence_is_itself_a_text_node_and_becomes_the_snippet() {
    let m = match_page(TITLE_ONLY_PAGE, "zebras").expect("match expected");
    assert_eq!(m.snippet.as_deref(), Some("All About Zebras"));
}

#[test]
fn snippet_absent_when_no_single_text_node_holds_the_term() {
    // The paragraph's combined text contains the term, so the page matches,
    // but the term spans two text nodes, so no snippet qualifies.
    let page = "<html><head><title>Animals</title></head>\
<body><p><b>ze</b>bras roam</p></body></html>";
    let m = match_page(page, "zebras").expect("match expected");
    assert!(m.snippet.is_none());
    assert!(extract_snippet(page, "zebras").is_none());
}

#[test]
fn any_contains_finds_a_substring_in_any_entry() {
    let texts = vec!["alpha".to_string(), "beta gamma".to_string()];
    assert!(any_contains(&texts, "a gam"));
    assert!(!any_contains(&texts, "delta"));
}
