//! Search results and how they are shown.

use vstd::prelude::*;
use crate::dates::{
    date_key, parse_timestamp, settle_timestamp, Timestamp, NAMED_MONTH_FORMAT, NUMERIC_FORMAT,
};
use crate::source::{link_source, source_of};

verus! {

/// One search hit.
#[derive(Debug, Clone, PartialEq, Eq)]
pub struct SearchResult {
    /// The host of `link`, without scheme and without a leading `www.`.
    pub source: String,
    /// The visible text of the title.
    pub title: String,
    /// The visible text of the summary; empty where the hit has none.
    pub description: String,
    /// The address the hit points to; empty where the hit has none.
    pub link: String,
    /// The date as the page shows it; empty where the hit has none.
    pub raw_date: String,
}

/// A search hit as plain sequences of characters.
pub ghost struct RecordView {
    pub source: Seq<char>,
    pub title: Seq<char>,
    pub description: Seq<char>,
    pub link: Seq<char>,
    pub raw_date: Seq<char>,
}

impl View for SearchResult {
    type V = RecordView;

    open spec fn view(&self) -> RecordView {
        RecordView {
            source: self.source@,
            title: self.title@,
            description: self.description@,
            link: self.link@,
            raw_date: self.raw_date@,
        }
    }
}

impl DeepView for SearchResult {
    type V = RecordView;

    open spec fn deep_view(&self) -> RecordView {
        self@
    }
}

impl RecordView {
    /// Whether the record is well formed: its source is the one that its
    /// link gives.
    pub open spec fn is_well_formed(self) -> bool {
        self.source == source_of(self.link)
    }
}

/// The label of the source line.
pub const SOURCE_LABEL: &'static str = "Fonte: ";

/// The end of a line and the label of the title line.
pub const TITLE_LABEL: &'static str = "\nTítulo: ";

/// The end of a line and the label of the description line.
pub const DESCRIPTION_LABEL: &'static str = "\nDescrição: ";

/// The end of a line and the label of the link line.
pub const LINK_LABEL: &'static str = "\nLink: ";

/// The end of a line and the label of the date line.
pub const DATE_LABEL: &'static str = "\nData: ";

/// What stands between the blocks of two records: the end of a line and an
/// empty line.
pub const BLOCK_SEPARATOR: &'static str = "\n\n";

/// The five labelled lines that show `record`.
pub open spec fn rendered(record: RecordView) -> Seq<char> {
    SOURCE_LABEL@ + record.source + TITLE_LABEL@ + record.title + DESCRIPTION_LABEL@
        + record.description + LINK_LABEL@ + record.link + DATE_LABEL@ + record.raw_date
}

/// The blocks of all `records`, in order, with one empty line between two
/// neighbours.
pub open spec fn rendered_all(records: Seq<RecordView>) -> Seq<char>
    decreases records.len(),
{
    if records.len() == 0 {
        Seq::<char>::empty()
    } else if records.len() == 1 {
        rendered(records[0])
    } else {
        rendered_all(records.drop_last()) + BLOCK_SEPARATOR@ + rendered(records.last())
    }
}

impl SearchResult {
    /// Makes the record of a hit, deriving its source from `link`.
    pub fn new(title: String, description: String, link: String, raw_date: String) -> (record:
        SearchResult)
        ensures
            record@.title == title@,
            record@.description == description@,
            record@.link == link@,
            record@.raw_date == raw_date@,
            record@.is_well_formed(),
    {
        let source = link_source(link.as_str());
        SearchResult { source, title, description, link, raw_date }
    }

    /// Shows the record as five labelled lines: source, title, description,
    /// link and date.
    pub fn to_string_format(&self) -> (text: String)
        ensures
            text@ == rendered(self@),
    {
        let mut text = String::from_str(SOURCE_LABEL);
        text.append(self.source.as_str());
        text.append(TITLE_LABEL);
        text.append(self.title.as_str());
        text.append(DESCRIPTION_LABEL);
        text.append(self.description.as_str());
        text.append(LINK_LABEL);
        text.append(self.link.as_str());
        text.append(DATE_LABEL);
        text.append(self.raw_date.as_str());
        text
    }

    /// Reads a date text as a moment: by the first known format that fits,
    /// and as the epoch where none does.
    pub fn parse_date(date_str: &str) -> (moment: Timestamp)
        ensures
            moment == date_key(date_str@),
    {
        let first = parse_timestamp(date_str, NAMED_MONTH_FORMAT);
        let second = if first.is_none() {
            parse_timestamp(date_str, NUMERIC_FORMAT)
        } else {
            None
        };
        settle_timestamp(first, second)
    }
}

/// Shows all `results`, one block each, separated by an empty line.
pub fn format_results(results: &Vec<SearchResult>) -> (text: String)
    ensures
        text@ == rendered_all(results.deep_view()),
{
    let mut text = String::new();
    let mut i: usize = 0;
    while i < results.len()
        invariant
            i <= results.len(),
            text@ == rendered_all(results.deep_view().take(i as int)),
        decreases results.len() - i,
    {
        let block = results[i].to_string_format();
        proof {
            let shown = results.deep_view().take(i as int + 1);
            assert(shown.drop_last() =~= results.deep_view().take(i as int));
        }
        if i > 0 {
            text.append(BLOCK_SEPARATOR);
        }
        text.append(block.as_str());
        i = i + 1;
    }
    proof {
        assert(results.deep_view().take(results.len() as int) =~= results.deep_view());
    }
    text
}

} // verus!
