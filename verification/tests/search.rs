use websearch::models::{format_results, SearchResult};
use websearch::search::{finish_search, search_page, SearchError};

const PAGE: &str = r#"<html><body><ul>
<li>
<a class="ob" href="https://www.older.example.com/a">older.example.com/a</a>
<h2><a class="title" href="https://www.older.example.com/a">Older story</a></h2>
<p class="s">What happened before</p>
<div class="serp-meta"><span class="mdate">10 Jan 2025 10:00</span></div>
</li>
<li>
<a class="ob" href="https://untitled.example.com/b">untitled.example.com/b</a>
<p class="s">A block with no title</p>
<div class="serp-meta"><span class="mdate">13 Jan 2025 10:00</span></div>
</li>
<li>
<a class="ob" href="https://newer.example.com/c">newer.example.com/c</a>
<h2><a class="title" href="https://newer.example.com/c">Newer story</a></h2>
<p class="s">What happened after</p>
<div class="serp-meta"><span class="mdate">12/01/2025 09:00</span></div>
</li>
</ul></body></html>"#;

fn newer() -> SearchResult {
    SearchResult {
        source: "newer.example.com".to_string(),
        title: "Newer story".to_string(),
        description: "What happened after".to_string(),
        link: "https://newer.example.com/c".to_string(),
        raw_date: "12/01/2025 09:00".to_string(),
    }
}

fn older() -> SearchResult {
    SearchResult {
        source: "older.example.com".to_string(),
        title: "Older story".to_string(),
        description: "What happened before".to_string(),
        link: "https://www.older.example.com/a".to_string(),
        raw_date: "10 Jan 2025 10:00".to_string(),
    }
}

#[test]
fn page_is_read_and_ranked() {
    assert_eq!(search_page(PAGE), Ok(vec![newer(), older()]));
}

#[test]
fn ranked_page_is_shown_as_blocks() {
    let ranked = search_page(PAGE).unwrap();
    assert_eq!(ranked.len(), 2);
    for record in &ranked {
        assert_eq!(record.to_string_format().lines().count(), 5);
    }
    assert_eq!(
        format_results(&ranked),
        "Fonte: newer.example.com\nTítulo: Newer story\nDescrição: What happened after\nLink: https://newer.example.com/c\nData: 12/01/2025 09:00\n\nFonte: older.example.com\nTítulo: Older story\nDescrição: What happened before\nLink: https://www.older.example.com/a\nData: 10 Jan 2025 10:00"
    );
}

#[test]
fn searching_a_page_twice_gives_the_same() {
    assert_eq!(search_page(PAGE), search_page(PAGE));
}

#[test]
fn empty_page_gives_no_results() {
    assert_eq!(search_page(""), Ok(Vec::new()));
}

#[test]
fn fetched_page_is_searched() {
    assert_eq!(finish_search(Ok(PAGE.to_string())), Ok(vec![newer(), older()]));
}

#[test]
fn failed_fetch_ends_the_search() {
    assert_eq!(
        finish_search(Err("connection refused".to_string())),
        Err(SearchError::Fetch("connection refused".to_string()))
    );
}

#[test]
fn errors_say_what_went_wrong() {
    assert_eq!(
        SearchError::Fetch("connection refused".to_string()).message(),
        "the page could not be fetched: connection refused"
    );
    assert_eq!(SearchError::Parse.message(), "the page could not be read as a document");
}
