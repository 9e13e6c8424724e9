use scraper::{Html, Selector};
use websearch::extract::{
    block_record, extract, extract_page, extract_records, read_block, Block, PageSelectors,
};
use websearch::models::SearchResult;
use websearch::source::link_source;

fn text(s: &str) -> Option<String> {
    Some(s.to_string())
}

fn full_block(title: &str) -> Block {
    Block {
        link: Some(text("https://www.example.com/page")),
        title: text(title),
        description: text("a description"),
        date: text("10 Jan 2025 10:00"),
    }
}

const PAGE: &str = r#"<!DOCTYPE html>
<html><head><title>results</title></head><body>
<ul class="results-standard">
<li>
<a class="ob" href="https://www.example.com/page">example.com/page</a>
<h2><a class="title" href="https://www.example.com/page">First <b>title</b></a></h2>
<p class="s">First description</p>
<div class="serp-meta"><span class="mdate">10 Jan 2025 10:00</span></div>
</li>
<li>
<a class="ob" href="https://sub.example.com/x">sub.example.com/x</a>
<p class="s">A block without a title</p>
<div class="serp-meta"><span class="mdate">11 Jan 2025 10:00</span></div>
</li>
<li>
<h2><a class="title" href="https://nolink.example.com/">A block without a link</a></h2>
<p class="s">No link element here</p>
</li>
<li>
<a class="ob" href="https://news.example.org/story">news.example.org/story</a>
<h2><a class="title">Second title</a></h2>
</li>
<li>
<a class="ob">no address</a>
<h2><a class="title">Third title</a></h2>
<p class="s"></p>
<div class="serp-meta"><span class="mdate"></span></div>
</li>
</ul>
</body></html>"#;

#[test]
fn complete_block_gives_a_record() {
    let record = block_record(full_block("A title")).unwrap();
    assert_eq!(
        record,
        SearchResult {
            source: "example.com".to_string(),
            title: "A title".to_string(),
            description: "a description".to_string(),
            link: "https://www.example.com/page".to_string(),
            raw_date: "10 Jan 2025 10:00".to_string(),
        }
    );
}

#[test]
fn block_without_title_gives_no_record() {
    let mut block = full_block("A title");
    block.title = None;
    assert_eq!(block_record(block), None);
}

#[test]
fn block_without_link_gives_no_record() {
    let mut block = full_block("A title");
    block.link = None;
    assert_eq!(block_record(block), None);
}

#[test]
fn block_without_link_and_title_gives_no_record() {
    let block = Block { link: None, title: None, description: text("d"), date: text("x") };
    assert_eq!(block_record(block), None);
}

#[test]
fn missing_description_and_date_become_empty() {
    let block = Block {
        link: Some(text("https://www.example.com/page")),
        title: text("A title"),
        description: None,
        date: None,
    };
    let record = block_record(block).unwrap();
    assert_eq!(record.description, "");
    assert_eq!(record.raw_date, "");
    assert_eq!(record.title, "A title");
    assert_eq!(record.source, "example.com");
}

#[test]
fn present_description_and_date_are_kept() {
    let record = block_record(full_block("A title")).unwrap();
    assert_eq!(record.description, "a description");
    assert_eq!(record.raw_date, "10 Jan 2025 10:00");
}

#[test]
fn missing_address_becomes_empty_link_and_source() {
    let mut block = full_block("A title");
    block.link = Some(None);
    let record = block_record(block).unwrap();
    assert_eq!(record.link, "");
    assert_eq!(record.source, "");
}

#[test]
fn empty_title_still_gives_a_record() {
    let record = block_record(full_block("")).unwrap();
    assert_eq!(record.title, "");
}

#[test]
fn records_count_the_complete_blocks() {
    let mut no_title = full_block("x");
    no_title.title = None;
    let mut no_link = full_block("y");
    no_link.link = None;
    let records = extract_records(vec![
        no_title,
        full_block("one"),
        no_link,
        full_block("two"),
        full_block("three"),
    ]);
    assert_eq!(records.len(), 3);
    assert_eq!(records[0].title, "one");
    assert_eq!(records[1].title, "two");
    assert_eq!(records[2].title, "three");
}

#[test]
fn only_incomplete_blocks_give_no_records() {
    let mut no_title = full_block("x");
    no_title.title = None;
    let mut no_link = full_block("y");
    no_link.link = None;
    assert_eq!(extract_records(vec![no_title, no_link]), Vec::new());
    assert_eq!(extract_records(Vec::new()), Vec::new());
}

#[test]
fn selectors_compile() {
    assert!(PageSelectors::compile().is_some());
}

#[test]
fn page_gives_the_records_of_its_complete_blocks() {
    let selectors = PageSelectors::compile().unwrap();
    let records = extract_page(PAGE, &selectors);
    assert_eq!(
        records,
        vec![
            SearchResult {
                source: "example.com".to_string(),
                title: "First title".to_string(),
                description: "First description".to_string(),
                link: "https://www.example.com/page".to_string(),
                raw_date: "10 Jan 2025 10:00".to_string(),
            },
            SearchResult {
                source: "news.example.org".to_string(),
                title: "Second title".to_string(),
                description: "".to_string(),
                link: "https://news.example.org/story".to_string(),
                raw_date: "".to_string(),
            },
            SearchResult {
                source: "".to_string(),
                title: "Third title".to_string(),
                description: "".to_string(),
                link: "".to_string(),
                raw_date: "".to_string(),
            },
        ]
    );
}

#[test]
fn extraction_twice_gives_the_same_records() {
    let selectors = PageSelectors::compile().unwrap();
    let first = extract_page(PAGE, &selectors);
    let second = extract_page(PAGE, &selectors);
    assert_eq!(first, second);
    let again = PageSelectors::compile().unwrap();
    assert_eq!(extract_page(PAGE, &again), first);
}

#[test]
fn parsed_document_gives_the_same_records_as_its_markup() {
    let selectors = PageSelectors::compile().unwrap();
    let document = Html::parse_document(PAGE);
    assert_eq!(extract(&document, &selectors), extract_page(PAGE, &selectors));
}

#[test]
fn page_without_blocks_gives_no_records() {
    let selectors = PageSelectors::compile().unwrap();
    assert_eq!(extract_page("", &selectors), Vec::new());
    assert_eq!(extract_page("<p>nothing found</p>", &selectors), Vec::new());
    assert_eq!(extract_page("not markup at all", &selectors), Vec::new());
}

#[test]
fn blocks_are_read_one_by_one() {
    let selectors = PageSelectors::compile().unwrap();
    let document = Html::parse_document(PAGE);
    let items = Selector::parse("li").unwrap();
    let mut blocks = Vec::new();
    for element in document.select(&items) {
        blocks.push(read_block(&element, &selectors));
    }
    assert_eq!(
        blocks,
        vec![
            Block {
                link: Some(text("https://www.example.com/page")),
                title: text("First title"),
                description: text("First description"),
                date: text("10 Jan 2025 10:00"),
            },
            Block {
                link: Some(text("https://sub.example.com/x")),
                title: None,
                description: text("A block without a title"),
                date: text("11 Jan 2025 10:00"),
            },
            Block {
                link: None,
                title: text("A block without a link"),
                description: text("No link element here"),
                date: None,
            },
            Block {
                link: Some(text("https://news.example.org/story")),
                title: text("Second title"),
                description: None,
                date: None,
            },
            Block { link: Some(None), title: text("Third title"), description: text(""), date: text("") },
        ]
    );
}

#[test]
fn first_matching_element_is_taken() {
    let selectors = PageSelectors::compile().unwrap();
    let page = r#"<ul><li>
<a class="ob" href="https://first.example.com/">one</a>
<a class="ob" href="https://second.example.com/">two</a>
<h2><a class="title">First</a><a class="title">Second</a></h2>
<p class="s">d1</p><p class="s">d2</p>
<div class="serp-meta"><span class="mdate">10 Jan 2025 10:00</span><span class="mdate">11 Jan 2025 10:00</span></div>
</li></ul>"#;
    let records = extract_page(page, &selectors);
    assert_eq!(records.len(), 1);
    assert_eq!(records[0].link, "https://first.example.com/");
    assert_eq!(records[0].source, "first.example.com");
    assert_eq!(records[0].title, "First");
    assert_eq!(records[0].description, "d1");
    assert_eq!(records[0].raw_date, "10 Jan 2025 10:00");
}

#[test]
fn elements_outside_their_frame_do_not_count() {
    let selectors = PageSelectors::compile().unwrap();
    let page = r#"<ul><li>
<a class="ob" href="https://www.example.com/">one</a>
<a class="title">not in a heading</a>
<span class="mdate">not in the meta line</span>
<div class="s">not a paragraph</div>
</li></ul>"#;
    assert_eq!(extract_page(page, &selectors), Vec::new());
    let framed = r#"<ul><li>
<a class="ob" href="https://www.example.com/">one</a>
<h2><a class="title">in a heading</a></h2>
<span class="mdate">not in the meta line</span>
<div class="s">not a paragraph</div>
</li></ul>"#;
    let records = extract_page(framed, &selectors);
    assert_eq!(records.len(), 1);
    assert_eq!(records[0].title, "in a heading");
    assert_eq!(records[0].description, "");
    assert_eq!(records[0].raw_date, "");
}

#[test]
fn every_record_has_the_source_of_its_link() {
    let selectors = PageSelectors::compile().unwrap();
    let records = extract_page(PAGE, &selectors);
    assert_eq!(records.len(), 3);
    for record in &records {
        assert_eq!(record.source, link_source(&record.link));
    }
}
