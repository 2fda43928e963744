use vstd::prelude::*;

use crate::enums::{SearchError, SearchRequest, SearchRequestView, SearchResult, SearchResultView};
use crate::extraction::{default_sitemap, extract_request, resolve_spec};
use crate::html::{loc_texts, sitemap_locs, title_text};
use crate::matching::{match_page, page_matches, snippet_spec};

verus! {

/// The outcome of fetching one candidate URL: its address and, when the
/// fetch succeeded, the body text. A failed fetch carries no content and is
/// treated as a non-match; it never aborts a crawl.
pub struct FetchedPage {
    pub url: String,
    pub content: Option<String>,
}

/// Mathematical image of a [`FetchedPage`].
pub struct FetchedPageView {
    pub url: Seq<char>,
    pub content: Option<Seq<char>>,
}

impl View for FetchedPage {
    type V = FetchedPageView;

    open spec fn view(&self) -> FetchedPageView {
        FetchedPageView {
            url: self.url@,
            content: match self.content {
                Some(c) => Some(c@),
                None => None,
            },
        }
    }
}

pub open spec fn page_views(ps: Seq<FetchedPage>) -> Seq<FetchedPageView> {
    ps.map_values(|p: FetchedPage| p@)
}

pub open spec fn result_views(rs: Seq<SearchResult>) -> Seq<SearchResultView> {
    rs.map_values(|r: SearchResult| r@)
}

/// The content of a page handed to the crawler one event at a time.
pub open spec fn content_view(c: Option<&str>) -> Option<Seq<char>> {
    match c {
        Some(s) => Some(s@),
        None => None,
    }
}

/// A fetched page is accepted when its fetch succeeded and its content
/// matches the term.
pub open spec fn accepts(p: FetchedPageView, term: Seq<char>) -> bool {
    p.content is Some && page_matches(p.content.unwrap(), term)
}

/// The result an accepted page contributes, ranked `idx`.
pub open spec fn result_of(p: FetchedPageView, term: Seq<char>, idx: int) -> SearchResultView {
    SearchResultView {
        title: title_text(p.content.unwrap()).unwrap(),
        url: p.url,
        snippet: snippet_spec(p.content.unwrap(), term),
        index: idx,
    }
}

/// The results of working through `pages` in order with `count` matches
/// already accepted: each accepted page is ranked by the accept counter, and
/// acceptance stops once the counter reaches `limit`.
pub open spec fn crawl_from(
    term: Seq<char>,
    limit: int,
    pages: Seq<FetchedPageView>,
    count: int,
) -> Seq<SearchResultView>
    decreases pages.len(),
{
    if pages.len() == 0 || count >= limit {
        Seq::empty()
    } else if accepts(pages[0], term) {
        seq![result_of(pages[0], term, count + 1)] + crawl_from(
            term,
            limit,
            pages.drop_first(),
            count + 1,
        )
    } else {
        crawl_from(term, limit, pages.drop_first(), count)
    }
}

/// A crawl that starts with `count` accepted matches accepts at most
/// `limit - count` more, and ranks them `count + 1`, `count + 2`, ... in
/// acceptance order.
pub proof fn lemma_crawl_bounded(
    term: Seq<char>,
    limit: int,
    pages: Seq<FetchedPageView>,
    count: int,
)
    requires
        count <= limit,
    ensures
        count + crawl_from(term, limit, pages, count).len() <= limit,
        forall|i: int|
            0 <= i < crawl_from(term, limit, pages, count).len() ==> crawl_from(
                term,
                limit,
                pages,
                count,
            )[i].index == count + i + 1,
    decreases pages.len(),
{
    if pages.len() == 0 || count >= limit {
    } else if accepts(pages[0], term) {
        lemma_crawl_bounded(term, limit, pages.drop_first(), count + 1);
    } else {
        lemma_crawl_bounded(term, limit, pages.drop_first(), count);
    }
}

/// A candidate whose fetch failed contributes nothing: the crawl of the
/// whole sequence equals the crawl of the sequence with that candidate left
/// out.
pub proof fn lemma_failed_fetch_skipped(
    term: Seq<char>,
    limit: int,
    pages: Seq<FetchedPageView>,
    count: int,
    k: int,
)
    requires
        0 <= k < pages.len(),
        pages[k].content is None,
    ensures
        crawl_from(term, limit, pages, count) == crawl_from(term, limit, pages.remove(k), count),
    decreases pages.len(),
{
    if count >= limit {
    } else if k == 0 {
        assert(pages.remove(0) =~= pages.drop_first());
    } else {
        assert(pages.remove(k).drop_first() =~= pages.drop_first().remove(k - 1));
        lemma_failed_fetch_skipped(term, limit, pages.drop_first(), count, k - 1);
        if accepts(pages[0], term) {
            lemma_failed_fetch_skipped(term, limit, pages.drop_first(), count + 1, k - 1);
        }
    }
}

/// The crawl's only shared state: the search term, the quota, and the
/// results accepted so far. Acceptance is a single check-and-append, so a
/// result's rank is the value of the accept counter at the moment it was
/// accepted, and the quota is never exceeded.
pub struct Crawler {
    term: String,
    limit: usize,
    results: Vec<SearchResult>,
}

impl Crawler {
    pub closed spec fn term_view(&self) -> Seq<char> {
        self.term@
    }

    pub closed spec fn limit_spec(&self) -> int {
        self.limit as int
    }

    pub closed spec fn results_view(&self) -> Seq<SearchResultView> {
        result_views(self.results@)
    }

    /// Never more results than the quota, and ranks run 1, 2, ... in
    /// acceptance order.
    pub closed spec fn wf(&self) -> bool {
        &&& 1 <= self.limit <= i32::MAX
        &&& self.term@.len() > 0
        &&& self.results@.len() <= self.limit
        &&& forall|i: int| 0 <= i < self.results@.len() ==> self.results@[i]@.index == i + 1
    }

    pub fn new(term: String, per_page: usize) -> (c: Crawler)
        requires
            1 <= per_page <= i32::MAX,
            term@.len() > 0,
        ensures
            c.wf(),
            c.term_view() == term@,
            c.limit_spec() == per_page as int,
            c.results_view() == Seq::<SearchResultView>::empty(),
    {
        let c = Crawler { term, limit: per_page, results: Vec::new() };
        proof {
            assert(c.results_view() =~= Seq::<SearchResultView>::empty());
        }
        c
    }

    /// The quota is met; the coordinator stops handing out new fetches.
    pub fn quota_met(&self) -> (b: bool)
        ensures
            b == (self.results_view().len() >= self.limit_spec()),
    {
        self.results.len() >= self.limit
    }

    /// One completion event: a candidate's fetch outcome arrives. A failed
    /// fetch or a non-matching page changes nothing; a matching page is
    /// accepted unless the quota is already met, and ranked by the accept
    /// counter at this moment.
    pub fn process_page(&mut self, url: &str, content: Option<&str>)
        requires
            old(self).wf(),
        ensures
            final(self).wf(),
            final(self).term_view() == old(self).term_view(),
            final(self).limit_spec() == old(self).limit_spec(),
            final(self).results_view() == ({
                let p = FetchedPageView { url: url@, content: content_view(content) };
                if old(self).results_view().len() < old(self).limit_spec() && accepts(
                    p,
                    old(self).term_view(),
                ) {
                    old(self).results_view().push(
                        result_of(p, old(self).term_view(), old(self).results_view().len() as int + 1),
                    )
                } else {
                    old(self).results_view()
                }
            }),
    {
        if self.results.len() >= self.limit {
            return ;
        }
        match content {
            None => {},
            Some(html) => {
                match match_page(html, self.term.as_str()) {
                    None => {},
                    Some(m) => {
                        let rank = self.results.len() + 1;
                        let accepted = SearchResult {
                            title: m.title,
                            url: url.to_owned(),
                            snippet: m.snippet,
                            index: rank as i32,
                        };
                        let ghost before = self.results@;
                        self.results.push(accepted);
                        proof {
                            assert(result_views(self.results@) =~= result_views(before).push(
                                accepted@,
                            ));
                        }
                    },
                }
            },
        }
    }

    /// Hand the accepted results over: at most the quota many, ranked by a
    /// strictly increasing run that starts at 1.
    pub fn into_results(self) -> (r: Vec<SearchResult>)
        requires
            self.wf(),
        ensures
            result_views(r@) == self.results_view(),
            r@.len() <= self.limit_spec(),
            forall|i: int| 0 <= i < r@.len() ==> r@[i]@.index == i + 1,
    {
        self.results
    }
}

/// Work through a sequence of fetch outcomes in arrival order: exactly the
/// crawl [`crawl_from`] describes, starting from an empty result list.
pub fn crawl_pages(term: String, per_page: usize, pages: &Vec<FetchedPage>) -> (r: Vec<
    SearchResult,
>)
    requires
        1 <= per_page <= i32::MAX,
        term@.len() > 0,
    ensures
        result_views(r@) == crawl_from(term@, per_page as int, page_views(pages@), 0),
        r@.len() <= per_page,
        forall|i: int| 0 <= i < r@.len() ==> r@[i]@.index == i + 1,
{
    let ghost t = term@;
    let ghost pv = page_views(pages@);
    let mut c = Crawler::new(term, per_page);
    proof {
        assert(pv.skip(0) =~= pv);
        assert(c.results_view() + crawl_from(t, per_page as int, pv, 0) =~= crawl_from(
            t,
            per_page as int,
            pv,
            0,
        ));
    }
    let mut i: usize = 0;
    while i < pages.len()
        invariant
            c.wf(),
            c.term_view() == t,
            c.limit_spec() == per_page as int,
            pv == page_views(pages@),
            i <= pages@.len(),
            pv.len() == pages@.len(),
            c.results_view().len() <= c.limit_spec(),
            c.results_view() + crawl_from(t, per_page as int, pv.skip(i as int), c.results_view().len() as int)
                == crawl_from(t, per_page as int, pv, 0),
        decreases pages@.len() - i,
    {
        let ghost count = c.results_view().len() as int;
        let ghost suffix = pv.skip(i as int);
        proof {
            assert(suffix[0] == pv[i as int]);
            assert(pv[i as int] == pages@[i as int]@);
            assert(suffix.drop_first() =~= pv.skip(i as int + 1));
        }
        let page = &pages[i];
        match &page.content {
            Some(body) => c.process_page(page.url.as_str(), Some(body.as_str())),
            None => c.process_page(page.url.as_str(), None),
        }
        proof {
            let p = pv[i as int];
            if count < per_page as int && accepts(p, t) {
                assert(c.results_view() + crawl_from(t, per_page as int, suffix.drop_first(), count + 1)
                    =~= crawl_from(t, per_page as int, pv, 0));
            }
        }
        i += 1;
    }
    proof {
        assert(pv.skip(pages@.len() as int) =~= Seq::<FetchedPageView>::empty());
        assert(c.results_view() =~= crawl_from(t, per_page as int, pv, 0));
    }
    c.into_results()
}

/// The page number a request asks for, with the default applied.
pub open spec fn effective_page(r: SearchRequestView) -> int {
    match r.page {
        Some(p) => p,
        None => 1,
    }
}

/// The quota a request asks for, with the default applied.
pub open spec fn effective_per_page(r: SearchRequestView) -> int {
    match r.per_page {
        Some(p) => p,
        None => 5,
    }
}

/// Pagination parameters the crawl accepts: both at least 1.
pub open spec fn valid_paging(r: SearchRequestView) -> bool {
    effective_page(r) >= 1 && effective_per_page(r) >= 1
}

/// How many candidates pagination drops from the front of the sitemap
/// order before any fetching.
pub open spec fn skip_count(r: SearchRequestView) -> int {
    (effective_page(r) - 1) * effective_per_page(r)
}

/// The candidates a request actually evaluates: the sitemap-ordered
/// sequence with the first `skip_count` dropped. Pagination offsets into the
/// unfiltered candidate list, not into matches.
pub open spec fn paged(candidates: Seq<Seq<char>>, r: SearchRequestView) -> Seq<Seq<char>> {
    if skip_count(r) <= candidates.len() {
        candidates.skip(skip_count(r))
    } else {
        Seq::empty()
    }
}

/// Pagination never evaluates an early candidate: every candidate the crawl
/// sees stands at sitemap-order position `skip_count` or later.
pub proof fn lemma_paged_skips_prefix(candidates: Seq<Seq<char>>, r: SearchRequestView)
    requires
        valid_paging(r),
    ensures
        forall|i: int|
            0 <= i < paged(candidates, r).len() ==> #[trigger] paged(candidates, r)[i]
                == candidates[skip_count(r) + i],
{
}

/// Validate and resolve a raw request before any network activity: a query
/// that resolves to an empty search term is refused here, with no sitemap
/// named and nothing to fetch; any other request resolves as
/// [`resolve_spec`] says, with a sitemap URL always present.
pub fn plan_search(request: SearchRequest) -> (r: Result<SearchRequest, SearchError>)
    ensures
        ({
            let eff = resolve_spec(request@, default_sitemap());
            &&& (eff.query.len() == 0 <==> r matches Err(SearchError::EmptyQuery))
            &&& (r is Err ==> r matches Err(SearchError::EmptyQuery))
            &&& (r matches Ok(v) ==> v@ == eff)
        }),
{
    let eff = extract_request(request);
    if eff.query.as_str().is_empty() {
        Err(SearchError::EmptyQuery)
    } else {
        Ok(eff)
    }
}

/// The sitemap stage: a failed sitemap fetch is fatal to the whole request
/// and yields no candidates at all; a body parses into the `loc` texts in
/// document order, with pagination's skip already applied.
pub fn begin_crawl(request: &SearchRequest, sitemap_body: Option<&str>) -> (r: Result<
    Vec<String>,
    SearchError,
>)
    requires
        valid_paging(request@),
    ensures
        r is Err <==> sitemap_body is None,
        r is Err ==> r matches Err(SearchError::SitemapFetch),
        r matches Ok(v) ==> v.deep_view() == paged(loc_texts(sitemap_body.unwrap()@), request@),
{
    let body = match sitemap_body {
        None => {
            return Err(SearchError::SitemapFetch);
        },
        Some(b) => b,
    };
    let locs = sitemap_locs(body);
    let ghost all = loc_texts(body@);
    let page: i32 = match request.page {
        Some(p) => p,
        None => 1,
    };
    let per_page: i32 = match request.per_page {
        Some(p) => p,
        None => 5,
    };
    assert(page >= 1 && per_page >= 1);
    let p64: u64 = page as u64;
    let pp64: u64 = per_page as u64;
    proof {
        assert((p64 - 1) * pp64 <= 0x4000_0000_0000_0000) by (nonlinear_arith)
            requires
                1 <= p64 <= 0x8000_0000,
                1 <= pp64 <= 0x8000_0000,
        ;
    }
    let skip64: u64 = (p64 - 1) * pp64;
    proof {
        assert(skip64 == skip_count(request@));
    }
    let start: usize = if skip64 >= locs.len() as u64 {
        locs.len()
    } else {
        skip64 as usize
    };
    let mut out: Vec<String> = Vec::new();
    let mut j: usize = start;
    while j < locs.len()
        invariant
            all == loc_texts(body@),
            locs.deep_view() == all,
            start <= j <= locs@.len(),
            all.len() == locs@.len(),
            out@.len() == j - start,
            forall|k: int| 0 <= k < out@.len() ==> #[trigger] out@[k]@ == all[start + k],
        decreases locs@.len() - j,
    {
        proof {
            assert(locs@[j as int]@ == all[j as int]);
        }
        out.push(locs[j].clone());
        j += 1;
    }
    proof {
        if skip_count(request@) <= all.len() {
            assert(start == skip_count(request@));
            assert(out.deep_view() =~= all.skip(skip_count(request@)));
        } else {
            assert(start == all.len());
            assert(out.deep_view() =~= Seq::<Seq<char>>::empty());
        }
    }
    Ok(out)
}

} // verus!

