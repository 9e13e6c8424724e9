//! Ranked web search results.
//!
//! A search asks a search engine for a page of results, reads the result
//! blocks out of the page, makes a record of each block that has a link and a
//! title, and ranks the records by their dates, most recent first.
//!
//! - [`request`]: the address and the headers of the request;
//! - [`markup`]: what is taken on trust from the HTML parser;
//! - [`extract`]: from the blocks of a page to records;
//! - [`source`]: the source of a record, derived from its link;
//! - [`dates`]: reading the date text of a record as a moment;
//! - [`ranking`]: ordering by moment, stably;
//! - [`models`]: the record and how it is shown;
//! - [`search`]: one search from the fetched page to the ranked records;
//! - [`text`]: strings as sequences of characters.
//!
//! Fetching the page and printing the records is left to the caller.

pub mod dates;
pub mod extract;
pub mod markup;
pub mod models;
pub mod ranking;
pub mod request;
pub mod search;
pub mod source;
pub mod text;
