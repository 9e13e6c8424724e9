//! From a search page to records.
//!
//! A page is searched for result blocks (`li`). In each block four elements
//! are looked for, each the first of its kind below the block: the link
//! (`a.ob`), the title (`h2 a.title`), the description (`p.s`) and the date
//! (`div.serp-meta span.mdate`). A block with a link and a title gives one
//! record; any other block gives none. A missing description, date or `href`
//! is no failure: the field is empty.

use vstd::prelude::*;
use scraper::{ElementRef, Html, Selector};
use crate::markup::{
    attribute_of, compile_selector, compiled_selector, document_matches, element_attr,
    element_text, first_match, parse_document, parsed_document, select_first,
    select_in_document, text_of,
};
use crate::models::{RecordView, SearchResult};
use crate::source::source_of;

verus! {

/// What the page holds for one result block, as far as a record is made of
/// it. Each field is `None` where the block has no such element.
#[derive(Debug, Clone, PartialEq, Eq)]
pub struct Block {
    /// The `href` of the link element; `Some(None)` where the element is
    /// there and has no `href`.
    pub link: Option<Option<String>>,
    /// The text of the title element.
    pub title: Option<String>,
    /// The text of the description element.
    pub description: Option<String>,
    /// The text of the date element.
    pub date: Option<String>,
}

/// A result block as plain sequences of characters.
pub ghost struct BlockView {
    pub link: Option<Option<Seq<char>>>,
    pub title: Option<Seq<char>>,
    pub description: Option<Seq<char>>,
    pub date: Option<Seq<char>>,
}

impl View for Block {
    type V = BlockView;

    open spec fn view(&self) -> BlockView {
        BlockView {
            link: self.link.deep_view(),
            title: self.title.deep_view(),
            description: self.description.deep_view(),
            date: self.date.deep_view(),
        }
    }
}

impl DeepView for Block {
    type V = BlockView;

    open spec fn deep_view(&self) -> BlockView {
        self@
    }
}

/// The compiled selectors by which a page is read.
pub struct PageSelectors {
    /// Finds the result blocks of a page.
    pub block: Selector,
    /// Finds the link below a block.
    pub link: Selector,
    /// Finds the title below a block.
    pub title: Selector,
    /// Finds the description below a block.
    pub description: Selector,
    /// Finds the date below a block.
    pub date: Selector,
}

/// A block that has both a link and a title.
pub open spec fn is_complete(block: BlockView) -> bool {
    block.link is Some && block.title is Some
}

/// The text if there is one, and the empty text if not.
pub open spec fn text_or_empty(text: Option<Seq<char>>) -> Seq<char> {
    match text {
        Some(t) => t,
        None => Seq::<char>::empty(),
    }
}

/// The record that a complete block gives.
pub open spec fn record_from(block: BlockView) -> RecordView {
    let link = text_or_empty(block.link->0);
    RecordView {
        source: source_of(link),
        title: block.title->0,
        description: text_or_empty(block.description),
        link,
        raw_date: text_or_empty(block.date),
    }
}

/// The record of `block`, or `None` where the block is skipped.
pub open spec fn record_of(block: BlockView) -> Option<RecordView> {
    if is_complete(block) {
        Some(record_from(block))
    } else {
        None
    }
}

/// The records of the complete blocks among `blocks`, in the order of the
/// blocks.
pub open spec fn records_of(blocks: Seq<BlockView>) -> Seq<RecordView> {
    blocks.filter(|block: BlockView| is_complete(block)).map_values(
        |block: BlockView| record_from(block),
    )
}

/// The CSS selector of the result blocks.
pub const BLOCK_CSS: &'static str = "li";

/// The CSS selector of the link of a block.
pub const LINK_CSS: &'static str = "a.ob";

/// The CSS selector of the title of a block.
pub const TITLE_CSS: &'static str = "h2 a.title";

/// The CSS selector of the description of a block.
pub const DESCRIPTION_CSS: &'static str = "p.s";

/// The CSS selector of the date of a block.
pub const DATE_CSS: &'static str = "div.serp-meta span.mdate";

/// The attribute of the link element that holds the address.
pub const LINK_ATTRIBUTE: &'static str = "href";

/// Whether all five selectors of a page compile.
pub open spec fn page_selectors_compile() -> bool {
    &&& compiled_selector(BLOCK_CSS@) is Some
    &&& compiled_selector(LINK_CSS@) is Some
    &&& compiled_selector(TITLE_CSS@) is Some
    &&& compiled_selector(DESCRIPTION_CSS@) is Some
    &&& compiled_selector(DATE_CSS@) is Some
}

/// The five selectors of a page, compiled.
pub open spec fn page_selectors() -> PageSelectors {
    PageSelectors {
        block: compiled_selector(BLOCK_CSS@)->0,
        link: compiled_selector(LINK_CSS@)->0,
        title: compiled_selector(TITLE_CSS@)->0,
        description: compiled_selector(DESCRIPTION_CSS@)->0,
        date: compiled_selector(DATE_CSS@)->0,
    }
}

/// The text of the first element below `scope` that matches `selector`.
pub open spec fn text_below(scope: ElementRef, selector: Selector) -> Option<Seq<char>> {
    match first_match(scope, selector) {
        Some(element) => Some(element_text(element)),
        None => None,
    }
}

/// The address of the first element below `scope` that matches `selector`.
pub open spec fn address_below(scope: ElementRef, selector: Selector) -> Option<Option<Seq<char>>> {
    match first_match(scope, selector) {
        Some(element) => Some(element_attr(element, LINK_ATTRIBUTE@)),
        None => None,
    }
}

/// What the block at `element` holds, read with `selectors`.
pub open spec fn block_at(element: ElementRef, selectors: PageSelectors) -> BlockView {
    BlockView {
        link: address_below(element, selectors.link),
        title: text_below(element, selectors.title),
        description: text_below(element, selectors.description),
        date: text_below(element, selectors.date),
    }
}

/// The result blocks of `document`, read with `selectors`, in the order in
/// which the document yields them.
pub open spec fn blocks_in(document: &Html, selectors: PageSelectors) -> Seq<BlockView> {
    let elements = document_matches(document, selectors.block);
    Seq::new(elements.len(), |i: int| block_at(elements[i], selectors))
}

/// The records that `document` gives, read with `selectors`.
pub open spec fn document_records(document: &Html, selectors: PageSelectors) -> Seq<RecordView> {
    records_of(blocks_in(document, selectors))
}

/// The records that the page with the markup `body` gives.
pub open spec fn page_records(body: Seq<char>, selectors: PageSelectors) -> Seq<RecordView> {
    document_records(&parsed_document(body), selectors)
}

/// The skip rule, block by block: a block with a link and a title adds its
/// record behind those of the blocks before it, and a block that lacks one of
/// the two adds nothing.
pub proof fn lemma_records_grow_by_complete_blocks(blocks: Seq<BlockView>, block: BlockView)
    ensures
        is_complete(block) ==> records_of(blocks.push(block)) == records_of(blocks).push(
            record_from(block),
        ),
        !is_complete(block) ==> records_of(blocks.push(block)) == records_of(blocks),
{
    reveal(Seq::filter);
    let complete = |block: BlockView| is_complete(block);
    assert(blocks.push(block).drop_last() =~= blocks);
    assert(blocks.push(block).filter(complete) == if is_complete(block) {
        blocks.filter(complete).push(block)
    } else {
        blocks.filter(complete)
    });
    if is_complete(block) {
    }
}

/// As many records come out as there are blocks with both a link and a
/// title, and the record at each place is the one of the complete block at
/// that place.
pub proof fn lemma_one_record_per_complete_block(blocks: Seq<BlockView>)
    ensures
        records_of(blocks).len() == blocks.filter(|block: BlockView| is_complete(block)).len(),
        forall|i: int|
            0 <= i < records_of(blocks).len() ==> #[trigger] records_of(blocks)[i] == record_from(
                blocks.filter(|block: BlockView| is_complete(block))[i],
            ),
{
}

/// A field of a record is empty where the block had no element for it, and
/// is the text of the element where it had one.
pub proof fn lemma_missing_fields_are_empty(block: BlockView)
    requires
        is_complete(block),
    ensures
        record_from(block).title == block.title->0,
        record_from(block).description == match block.description {
            Some(text) => text,
            None => Seq::<char>::empty(),
        },
        record_from(block).raw_date == match block.date {
            Some(text) => text,
            None => Seq::<char>::empty(),
        },
        record_from(block).link == match block.link->0 {
            Some(address) => address,
            None => Seq::<char>::empty(),
        },
{
}

/// Where the description element of a block, if there is one, holds some
/// text: the description of the record is empty exactly where the element is
/// missing.
pub proof fn lemma_empty_description_means_missing(block: BlockView)
    requires
        is_complete(block),
        block.description matches Some(text) ==> text.len() > 0,
    ensures
        record_from(block).description.len() == 0 <==> block.description is None,
{
}

/// Where the date element of a block, if there is one, holds some text: the
/// date of the record is empty exactly where the element is missing.
pub proof fn lemma_empty_date_means_missing(block: BlockView)
    requires
        is_complete(block),
        block.date matches Some(text) ==> text.len() > 0,
    ensures
        record_from(block).raw_date.len() == 0 <==> block.date is None,
{
}

/// Every record that comes out of blocks is well formed: it has the source
/// that its link gives.
pub proof fn lemma_records_are_well_formed(blocks: Seq<BlockView>)
    ensures
        forall|i: int|
            0 <= i < records_of(blocks).len() ==> (#[trigger] records_of(blocks)[i]).is_well_formed(),
{
}

/// The string of an optional text, empty where there is none.
fn unwrap_or_empty(text: Option<String>) -> (s: String)
    ensures
        s@ == text_or_empty(text.deep_view()),
{
    match text {
        Some(s) => s,
        None => String::new(),
    }
}

/// Makes the record of one block: `None` where the block lacks its link or
/// its title, and else the record with every missing field left empty.
pub fn block_record(block: Block) -> (record: Option<SearchResult>)
    ensures
        record.deep_view() == record_of(block@),
{
    match (block.link, block.title) {
        (Some(href), Some(title)) => {
            let link = unwrap_or_empty(href);
            let description = unwrap_or_empty(block.description);
            let raw_date = unwrap_or_empty(block.date);
            Some(SearchResult::new(title, description, link, raw_date))
        },
        _ => None,
    }
}

/// Makes the records of `blocks`: one for each block that has a link and a
/// title, in the order of the blocks.
pub fn extract_records(blocks: Vec<Block>) -> (records: Vec<SearchResult>)
    ensures
        records.deep_view() == records_of(blocks.deep_view()),
        records@.len() == blocks.deep_view().filter(|block: BlockView| is_complete(block)).len(),
{
    let ghost given = blocks.deep_view();
    let mut records: Vec<SearchResult> = Vec::new();
    for block in it: blocks
        invariant
            it.seq().len() == given.len(),
            forall|k: int| 0 <= k < given.len() ==> (#[trigger] it.seq()[k])@ == given[k],
            records.deep_view() == records_of(given.take(it.index() as int)),
    {
        proof {
            let done = given.take(it.index() as int);
            lemma_records_grow_by_complete_blocks(done, block@);
            assert(done.push(block@) =~= given.take(it.index() as int + 1));
        }
        if let Some(record) = block_record(block) {
            records.push(record);
        }
    }
    proof {
        assert(given.take(given.len() as int) =~= given);
    }
    records
}

impl PageSelectors {
    /// Compiles the five selectors of a page. `None` where one of them is
    /// refused.
    pub fn compile() -> (selectors: Option<PageSelectors>)
        ensures
            selectors is Some <==> page_selectors_compile(),
            selectors matches Some(compiled) ==> compiled == page_selectors(),
    {
        let block = compile_selector(BLOCK_CSS);
        let link = compile_selector(LINK_CSS);
        let title = compile_selector(TITLE_CSS);
        let description = compile_selector(DESCRIPTION_CSS);
        let date = compile_selector(DATE_CSS);
        match (block, link, title, description, date) {
            (Some(block), Some(link), Some(title), Some(description), Some(date)) => Some(
                PageSelectors { block, link, title, description, date },
            ),
            _ => None,
        }
    }
}

/// The text of the first element below `scope` that matches `selector`.
fn read_text(scope: &ElementRef, selector: &Selector) -> (text: Option<String>)
    ensures
        text.deep_view() == text_below(*scope, *selector),
{
    match select_first(scope, selector) {
        Some(element) => Some(text_of(&element)),
        None => None,
    }
}

/// Reads what the result block at `element` holds.
pub fn read_block(element: &ElementRef, selectors: &PageSelectors) -> (block: Block)
    ensures
        block@ == block_at(*element, *selectors),
{
    let link = match select_first(element, &selectors.link) {
        Some(anchor) => Some(attribute_of(&anchor, LINK_ATTRIBUTE)),
        None => None,
    };
    let title = read_text(element, &selectors.title);
    let description = read_text(element, &selectors.description);
    let date = read_text(element, &selectors.date);
    Block { link, title, description, date }
}

/// Extracts the records of a parsed page: one for each result block that has
/// a link and a title, in the order in which the document yields the blocks.
pub fn extract(document: &Html, selectors: &PageSelectors) -> (records: Vec<SearchResult>)
    ensures
        records.deep_view() == document_records(document, *selectors),
{
    let elements = select_in_document(document, &selectors.block);
    let mut blocks: Vec<Block> = Vec::new();
    let mut i: usize = 0;
    while i < elements.len()
        invariant
            i <= elements.len(),
            elements@ == document_matches(document, selectors.block),
            blocks.len() == i,
            forall|k: int|
                0 <= k < i ==> (#[trigger] blocks@[k])@ == block_at(elements@[k], *selectors),
        decreases elements.len() - i,
    {
        let block = read_block(&elements[i], selectors);
        blocks.push(block);
        i = i + 1;
    }
    proof {
        assert(blocks.deep_view() =~= blocks_in(document, *selectors));
    }
    extract_records(blocks)
}

/// Extracts the records of the page with the markup `body`.
pub fn extract_page(body: &str, selectors: &PageSelectors) -> (records: Vec<SearchResult>)
    ensures
        records.deep_view() == page_records(body@, *selectors),
{
    let document = parse_document(body);
    extract(&document, selectors)
}

} // verus!
