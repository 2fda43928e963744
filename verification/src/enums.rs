use vstd::prelude::*;

verus! {

/// A search request as the caller hands it in: the raw query text, an
/// optional explicit sitemap URL, and optional pagination parameters
/// (`page` and `per_page` default to 1 and 5 when absent).
#[derive(Debug, Clone)]
pub struct SearchRequest {
    pub query: String,
    pub sitemap_url: Option<String>,
    pub page: Option<i32>,
    pub per_page: Option<i32>,
}

/// Mathematical image of a [`SearchRequest`].
pub struct SearchRequestView {
    pub query: Seq<char>,
    pub sitemap_url: Option<Seq<char>>,
    pub page: Option<int>,
    pub per_page: Option<int>,
}

impl View for SearchRequest {
    type V = SearchRequestView;

    open spec fn view(&self) -> SearchRequestView {
        SearchRequestView {
            query: self.query@,
            sitemap_url: match self.sitemap_url {
                Some(u) => Some(u@),
                None => None,
            },
            page: match self.page {
                Some(p) => Some(p as int),
                None => None,
            },
            per_page: match self.per_page {
                Some(p) => Some(p as int),
                None => None,
            },
        }
    }
}

/// One accepted match: the page's title, its URL, an optional excerpt, and
/// its 1-based rank in the order results were accepted.
#[derive(Debug, Clone)]
pub struct SearchResult {
    pub title: String,
    pub url: String,
    pub snippet: Option<String>,
    pub index: i32,
}

/// Mathematical image of a [`SearchResult`].
pub struct SearchResultView {
    pub title: Seq<char>,
    pub url: Seq<char>,
    pub snippet: Option<Seq<char>>,
    pub index: int,
}

impl View for SearchResult {
    type V = SearchResultView;

    open spec fn view(&self) -> SearchResultView {
        SearchResultView {
            title: self.title@,
            url: self.url@,
            snippet: match self.snippet {
                Some(s) => Some(s@),
                None => None,
            },
            index: self.index as int,
        }
    }
}

/// The two failures that end a whole request: a query that resolves to an
/// empty search term, and a sitemap that could not be retrieved. A single
/// page that fails to fetch is not an error; the crawl skips it.
#[derive(Debug, Clone, Copy, PartialEq, Eq, Structural)]
pub enum SearchError {
    EmptyQuery,
    SitemapFetch,
}

} // verus!
