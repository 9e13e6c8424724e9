//! The request that asks the search engine for a page of results: its
//! address and its headers.

use vstd::prelude::*;
use rand::seq::IndexedRandom;
use crate::text::{chars_of, string_of};

verus! {

/// The address of the search engine.
pub const BASE_URL: &'static str = "https://www.mojeek.com/search";

/// Opens the query in the address.
pub const QUERY_PREFIX: &'static str = "?q=";

/// The filters that every search carries: results of the last month, newest
/// first.
pub const FILTERS: &'static str = "&date=1&si=2&since=month";

/// The first known browser name.
pub const CHROME_AGENT: &'static str =
    "Mozilla/5.0 (Windows NT 10.0; Win64; x64) AppleWebKit/537.36 (KHTML, like Gecko) Chrome/91.0.4472.124 Safari/537.36";

/// The second known browser name.
pub const FIREFOX_AGENT: &'static str =
    "Mozilla/5.0 (Windows NT 10.0; Win64; x64; rv:89.0) Gecko/20100101 Firefox/89.0";

/// The third known browser name.
pub const SAFARI_AGENT: &'static str =
    "Mozilla/5.0 (Macintosh; Intel Mac OS X 10_15_7) AppleWebKit/605.1.15 (KHTML, like Gecko) Version/14.1.1 Safari/605.1.15";

/// The fourth known browser name.
pub const EDGE_AGENT: &'static str =
    "Mozilla/5.0 (Windows NT 10.0; Win64; x64) AppleWebKit/537.36 (KHTML, like Gecko) Edge/91.0.864.59";

/// The kinds of answer that are asked for.
pub const ACCEPTED_KINDS: &'static str =
    "text/html,application/xhtml+xml,application/xml;q=0.9,image/webp,*/*;q=0.8";

/// The languages that are asked for.
pub const ACCEPTED_LANGUAGES: &'static str = "en-US,en;q=0.5";

/// The query as it stands in the address: every space becomes a `+`, every
/// other character stays.
pub open spec fn plus_encoded(query: Seq<char>) -> Seq<char> {
    query.map_values(
        |c: char|
            if c == ' ' {
                '+'
            } else {
                c
            },
    )
}

/// The address that is asked for the results of `query`.
pub open spec fn search_url_of(query: Seq<char>) -> Seq<char> {
    BASE_URL@ + QUERY_PREFIX@ + plus_encoded(query) + FILTERS@
}

/// The browsers under whose names the request may go out.
pub open spec fn user_agent_texts() -> Seq<Seq<char>> {
    seq![CHROME_AGENT@, FIREFOX_AGENT@, SAFARI_AGENT@, EDGE_AGENT@]
}

/// Whether `agent` is one of the known browser names.
pub open spec fn is_user_agent(agent: Seq<char>) -> bool {
    exists|i: int| 0 <= i < user_agent_texts().len() && #[trigger] user_agent_texts()[i] == agent
}

/// The headers of a request that goes out under the name `user_agent`, each
/// as a name and a value, in the order in which they are set.
pub open spec fn header_texts(user_agent: Seq<char>) -> Seq<(Seq<char>, Seq<char>)> {
    seq![
        ("User-Agent"@, user_agent),
        ("Accept"@, ACCEPTED_KINDS@),
        ("Accept-Language"@, ACCEPTED_LANGUAGES@),
        ("Connection"@, "keep-alive"@),
    ]
}

/// Whether `picked` may come out of a choice among `items`: nothing where
/// there are no items, and else one of them.
pub open spec fn is_choice_among(items: Seq<&'static str>, picked: Option<&'static str>) -> bool {
    match picked {
        Some(chosen) => exists|i: int| 0 <= i < items.len() && #[trigger] items[i] == chosen,
        None => items.len() == 0,
    }
}

/// Picks one of `items` at random.
///
/// Trusted: `IndexedRandom::choose` on a slice returns `None` where the slice
/// is empty and else a reference to one of its items. Which one is left open.
#[verifier::external_body]
fn choose_one(items: &Vec<&'static str>) -> (picked: Option<&'static str>)
    ensures
        is_choice_among(items@, picked),
{
    items.choose(&mut rand::rng()).copied()
}

/// Builds the address that is asked for the results of `query`.
pub fn search_url(query: &str) -> (url: String)
    ensures
        url@ == search_url_of(query@),
{
    let chars = chars_of(query);
    let mut encoded: Vec<char> = Vec::new();
    let mut i: usize = 0;
    while i < chars.len()
        invariant
            i <= chars.len(),
            encoded@ == plus_encoded(chars@.take(i as int)),
        decreases chars.len() - i,
    {
        let c = chars[i];
        if c == ' ' {
            encoded.push('+');
        } else {
            encoded.push(c);
        }
        i = i + 1;
    }
    let query_part = string_of(&encoded);
    let mut url = String::from_str(BASE_URL);
    url.append(QUERY_PREFIX);
    url.append(query_part.as_str());
    url.append(FILTERS);
    url
}

/// The known browser names.
pub fn user_agents() -> (agents: Vec<&'static str>)
    ensures
        agents@.len() == user_agent_texts().len(),
        forall|i: int| 0 <= i < agents@.len() ==> (#[trigger] agents@[i])@ == user_agent_texts()[i],
{
    let mut agents: Vec<&'static str> = Vec::new();
    agents.push(CHROME_AGENT);
    agents.push(FIREFOX_AGENT);
    agents.push(SAFARI_AGENT);
    agents.push(EDGE_AGENT);
    agents
}

/// Settles on a browser name, given what the random choice among the known
/// names came to: the chosen one, or the first known name where nothing was
/// chosen.
pub fn settle_user_agent(picked: Option<&'static str>) -> (agent: &'static str)
    ensures
        agent@ == match picked {
            Some(chosen) => chosen@,
            None => user_agent_texts()[0],
        },
{
    match picked {
        Some(chosen) => chosen,
        None => CHROME_AGENT,
    }
}

/// Picks, at random, the browser name under which a request goes out.
pub fn pick_user_agent() -> (agent: &'static str)
    ensures
        is_user_agent(agent@),
{
    let agents = user_agents();
    let picked = choose_one(&agents);
    let agent = settle_user_agent(picked);
    agent
}

/// The headers of a request that goes out under the name `user_agent`.
pub fn request_headers(user_agent: &str) -> (headers: Vec<(String, String)>)
    ensures
        headers.deep_view() == header_texts(user_agent@),
{
    let mut headers: Vec<(String, String)> = Vec::new();
    headers.push((String::from_str("User-Agent"), String::from_str(user_agent)));
    headers.push((String::from_str("Accept"), String::from_str(ACCEPTED_KINDS)));
    headers.push((String::from_str("Accept-Language"), String::from_str(ACCEPTED_LANGUAGES)));
    headers.push((String::from_str("Connection"), String::from_str("keep-alive")));
    headers
}

} // verus!
