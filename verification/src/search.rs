//! One search, from the answer of the search engine to the ranked records.
//!
//! Fetching the page is the caller's part. What came of it is handed to
//! [`finish_search`]: the markup of the page, or the reason why there is
//! none. A search fails in two ways only, by a page that could not be fetched
//! and by one that cannot be queried. A block of the page that lacks a field,
//! or a date that cannot be read, is no failure.

use vstd::prelude::*;
use crate::extract::{
    extract_page, page_records, page_selectors, page_selectors_compile, PageSelectors,
};
use crate::models::{RecordView, SearchResult};
use crate::ranking::{
    date_keys, is_ranking, lemma_ranking_is_unique, lemma_ranking_keeps_every_item, rank_results,
};

verus! {

/// Why a search gave no records.
#[derive(Debug, Clone, PartialEq, Eq)]
pub enum SearchError {
    /// The page could not be fetched; the text says why.
    Fetch(String),
    /// The page could not be read as a document to query.
    Parse,
}

/// Whether `ranked` is what a search shows for the page with the markup
/// `body`: the records of the page, most recent first.
pub open spec fn is_page_ranking(body: Seq<char>, ranked: Seq<RecordView>) -> bool {
    let records = page_records(body, page_selectors());
    is_ranking(records, date_keys(records), ranked)
}

/// Whether `outcome` is how the search of the page with the markup `body`
/// ends: with the ranking of the page where the page can be queried, and with
/// [`SearchError::Parse`] where it cannot.
pub open spec fn is_page_outcome(
    body: Seq<char>,
    outcome: Result<Vec<SearchResult>, SearchError>,
) -> bool {
    if page_selectors_compile() {
        outcome matches Ok(ranked) && is_page_ranking(body, ranked.deep_view())
    } else {
        outcome == Err::<Vec<SearchResult>, SearchError>(SearchError::Parse)
    }
}

impl SearchError {
    /// Says in words what went wrong.
    pub fn message(&self) -> (text: String)
        ensures
            text@ == match *self {
                SearchError::Fetch(reason) => "the page could not be fetched: "@ + reason@,
                SearchError::Parse => "the page could not be read as a document"@,
            },
    {
        match self {
            SearchError::Fetch(reason) => {
                let mut text = String::from_str("the page could not be fetched: ");
                text.append(reason.as_str());
                text
            },
            SearchError::Parse => String::from_str("the page could not be read as a document"),
        }
    }
}

/// Reads the page with the markup `body` and ranks its records, most recent
/// first. Fails only where the page cannot be queried at all.
pub fn search_page(body: &str) -> (outcome: Result<Vec<SearchResult>, SearchError>)
    ensures
        is_page_outcome(body@, outcome),
{
    match PageSelectors::compile() {
        Some(selectors) => {
            let records = extract_page(body, &selectors);
            Ok(rank_results(records))
        },
        None => Err(SearchError::Parse),
    }
}

/// Ends a search, given how fetching the page went: `Ok` with the markup of
/// the page, or `Err` with the reason why there is none.
pub fn finish_search(fetched: Result<String, String>) -> (outcome: Result<
    Vec<SearchResult>,
    SearchError,
>)
    ensures
        match fetched {
            Ok(body) => is_page_outcome(body@, outcome),
            Err(reason) => outcome == Err::<Vec<SearchResult>, SearchError>(
                SearchError::Fetch(reason),
            ),
        },
{
    match fetched {
        Ok(body) => search_page(body.as_str()),
        Err(reason) => Err(SearchError::Fetch(reason)),
    }
}

/// Extraction is repeatable: read twice with the same selectors, the same
/// markup gives the same records.
pub proof fn lemma_extraction_is_repeatable(
    body: Seq<char>,
    selectors: PageSelectors,
    first: Seq<RecordView>,
    second: Seq<RecordView>,
)
    requires
        first == page_records(body, selectors),
        second == page_records(body, selectors),
    ensures
        first == second,
{
}

/// A whole search is repeatable too: the same markup has one ranking only.
pub proof fn lemma_page_ranking_is_unique(
    body: Seq<char>,
    first: Seq<RecordView>,
    second: Seq<RecordView>,
)
    requires
        is_page_ranking(body, first),
        is_page_ranking(body, second),
    ensures
        first == second,
{
    let records = page_records(body, page_selectors());
    lemma_ranking_is_unique(records, date_keys(records), first, second);
}

/// Every record of a ranked page is well formed: it has the source that its
/// link gives.
pub proof fn lemma_page_ranking_is_well_formed(body: Seq<char>, ranked: Seq<RecordView>)
    requires
        is_page_ranking(body, ranked),
    ensures
        forall|i: int| 0 <= i < ranked.len() ==> (#[trigger] ranked[i]).is_well_formed(),
{
    let records = page_records(body, page_selectors());
    lemma_ranking_keeps_every_item(records, date_keys(records), ranked);
}

} // verus!
