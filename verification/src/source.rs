//! The source of a result: the host named by its link.
//!
//! A link is cut into segments at every `/`. The host is the segment with
//! index 2 (`https:`, the empty segment and then the host), and the source is
//! that host without its leading `www.`. A link with fewer than three segments
//! has the empty source.

use vstd::prelude::*;
use crate::text::{chars_of, string_of};

verus! {

/// The index of the segment that names the host: in `https://host/path` the
/// segments are `https:`, the empty one, `host` and `path`.
pub const HOST_SEGMENT: usize = 2;

/// The index of the first `/` of `s` at or after `start`, or the length of `s`
/// where there is none.
pub open spec fn segment_end(s: Seq<char>, start: int) -> int
    decreases s.len() - start,
{
    if start >= s.len() {
        s.len() as int
    } else if s[start] == '/' {
        start
    } else {
        segment_end(s, start + 1)
    }
}

/// Where segment `n` of `s` begins: segment 0 at index 0, every later one just
/// behind the `/` that ends the segment before it. `None` where `s` has no
/// segment `n`.
pub open spec fn segment_start(s: Seq<char>, n: nat) -> Option<int>
    decreases n,
{
    if n == 0 {
        Some(0int)
    } else {
        match segment_start(s, (n - 1) as nat) {
            Some(start) => {
                let end = segment_end(s, start);
                if end < s.len() {
                    Some(end + 1)
                } else {
                    None
                }
            },
            None => None,
        }
    }
}

/// Segment `n` of `s` cut at every `/`.
pub open spec fn segment(s: Seq<char>, n: nat) -> Option<Seq<char>> {
    match segment_start(s, n) {
        Some(start) => Some(s.subrange(start, segment_end(s, start))),
        None => None,
    }
}

/// The number of `/` in `s`.
pub open spec fn slash_count(s: Seq<char>) -> nat
    decreases s.len(),
{
    if s.len() == 0 {
        0
    } else {
        slash_count(s.drop_last()) + if s.last() == '/' {
            1nat
        } else {
            0nat
        }
    }
}

/// Whether `s` begins with `www.`.
pub open spec fn has_www_prefix(s: Seq<char>) -> bool {
    s.len() >= 4 && s[0] == 'w' && s[1] == 'w' && s[2] == 'w' && s[3] == '.'
}

/// `s` without every `www.` it begins with.
pub open spec fn without_www(s: Seq<char>) -> Seq<char>
    decreases s.len(),
{
    if has_www_prefix(s) {
        without_www(s.skip(4))
    } else {
        s
    }
}

/// The source that belongs to `link`.
pub open spec fn source_of(link: Seq<char>) -> Seq<char> {
    match segment(link, HOST_SEGMENT as nat) {
        Some(host) => without_www(host),
        None => Seq::<char>::empty(),
    }
}

/// A segment ends at or behind its start, at a `/` or at the end of `s`, and
/// holds no `/`.
proof fn lemma_segment_end_bounds(s: Seq<char>, start: int)
    requires
        0 <= start <= s.len(),
    ensures
        start <= segment_end(s, start) <= s.len(),
        segment_end(s, start) < s.len() ==> s[segment_end(s, start)] == '/',
        forall|i: int| start <= i < segment_end(s, start) ==> s[i] != '/',
    decreases s.len() - start,
{
    if start < s.len() && s[start] != '/' {
        lemma_segment_end_bounds(s, start + 1);
    }
}

/// One more character adds one to the count where it is a `/`, and nothing
/// where it is not.
proof fn lemma_slash_count_step(s: Seq<char>, i: int)
    requires
        0 <= i < s.len(),
    ensures
        slash_count(s.take(i + 1)) == slash_count(s.take(i)) + if s[i] == '/' {
            1nat
        } else {
            0nat
        },
{
    assert(s.take(i + 1).drop_last() =~= s.take(i));
}

/// A longer beginning of `s` holds at least as many slashes.
proof fn lemma_slash_count_monotone(s: Seq<char>, i: int, j: int)
    requires
        0 <= i <= j <= s.len(),
    ensures
        slash_count(s.take(i)) <= slash_count(s.take(j)),
    decreases j - i,
{
    if i < j {
        lemma_slash_count_monotone(s, i, j - 1);
        lemma_slash_count_step(s, j - 1);
    }
}

/// Characters that are no `/` leave the count as it is.
proof fn lemma_slash_count_without_slash(s: Seq<char>, i: int, j: int)
    requires
        0 <= i <= j <= s.len(),
        forall|k: int| i <= k < j ==> s[k] != '/',
    ensures
        slash_count(s.take(i)) == slash_count(s.take(j)),
    decreases j - i,
{
    if i < j {
        lemma_slash_count_without_slash(s, i, j - 1);
        lemma_slash_count_step(s, j - 1);
    }
}

/// Segment `n` begins behind exactly `n` slashes, and is missing only where
/// `s` has fewer than `n` of them.
pub proof fn lemma_segment_start_counts(s: Seq<char>, n: nat)
    ensures
        match segment_start(s, n) {
            Some(start) => 0 <= start <= s.len() && slash_count(s.take(start)) == n,
            None => slash_count(s) < n,
        },
    decreases n,
{
    assert(s.take(s.len() as int) =~= s);
    if n > 0 {
        lemma_segment_start_counts(s, (n - 1) as nat);
        match segment_start(s, (n - 1) as nat) {
            Some(start) => {
                let end = segment_end(s, start);
                lemma_segment_end_bounds(s, start);
                lemma_slash_count_without_slash(s, start, end);
                if end < s.len() {
                    lemma_slash_count_step(s, end);
                }
            },
            None => {},
        }
    }
}

/// A link cut at every `/` has segment `n` exactly where it holds at least `n`
/// slashes.
pub proof fn lemma_segment_exists_iff(s: Seq<char>, n: nat)
    ensures
        segment(s, n) is Some <==> n <= slash_count(s),
{
    lemma_segment_start_counts(s, n);
    match segment_start(s, n) {
        Some(start) => {
            lemma_slash_count_monotone(s, start, s.len() as int);
            assert(s.take(s.len() as int) =~= s);
        },
        None => {},
    }
}

/// A link with fewer than three segments, that is with fewer than two
/// slashes, has the empty source.
pub proof fn lemma_short_link_has_no_source(link: Seq<char>)
    requires
        slash_count(link) < HOST_SEGMENT,
    ensures
        source_of(link) == Seq::<char>::empty(),
{
    lemma_segment_exists_iff(link, HOST_SEGMENT as nat);
}

/// What `without_www` returns is an end of `s` that does not begin with
/// `www.`.
pub proof fn lemma_without_www_is_stripped(s: Seq<char>)
    ensures
        !has_www_prefix(without_www(s)),
        without_www(s).len() <= s.len(),
        without_www(s) == s.skip(s.len() - without_www(s).len()),
    decreases s.len(),
{
    if has_www_prefix(s) {
        lemma_without_www_is_stripped(s.skip(4));
    }
}

/// A source never begins with `www.` and never holds a `/`.
pub proof fn lemma_source_is_bare_host(link: Seq<char>)
    ensures
        !has_www_prefix(source_of(link)),
        forall|i: int| 0 <= i < source_of(link).len() ==> source_of(link)[i] != '/',
{
    lemma_segment_start_counts(link, HOST_SEGMENT as nat);
    match segment_start(link, HOST_SEGMENT as nat) {
        Some(start) => {
            lemma_segment_end_bounds(link, start);
            let host = link.subrange(start, segment_end(link, start));
            lemma_without_www_is_stripped(host);
        },
        None => {},
    }
}

/// The index of the first `/` of `chars` at or after `start`.
fn find_segment_end(chars: &Vec<char>, start: usize) -> (end: usize)
    requires
        start <= chars.len(),
    ensures
        end == segment_end(chars@, start as int),
        start <= end <= chars.len(),
{
    let mut end: usize = start;
    while end < chars.len() && chars[end] != '/'
        invariant
            start <= end <= chars.len(),
            segment_end(chars@, start as int) == segment_end(chars@, end as int),
        decreases chars.len() - end,
    {
        end = end + 1;
    }
    end
}

/// The characters of `chars` from `from` up to `to`.
fn copy_range(chars: &Vec<char>, from: usize, to: usize) -> (part: Vec<char>)
    requires
        from <= to <= chars.len(),
    ensures
        part@ == chars@.subrange(from as int, to as int),
{
    let mut part: Vec<char> = Vec::new();
    let mut i: usize = from;
    while i < to
        invariant
            from <= i <= to <= chars.len(),
            part@ == chars@.subrange(from as int, i as int),
        decreases to - i,
    {
        part.push(chars[i]);
        i = i + 1;
    }
    part
}

/// Derives the source of a record from its link.
pub fn link_source(link: &str) -> (source: String)
    ensures
        source@ == source_of(link@),
{
    let chars = chars_of(link);
    let mut start: usize = 0;
    let mut n: usize = 0;
    while n < HOST_SEGMENT
        invariant
            n <= HOST_SEGMENT,
            chars@ == link@,
            start <= chars.len(),
            segment_start(chars@, n as nat) == Some(start as int),
        decreases HOST_SEGMENT - n,
    {
        let end = find_segment_end(&chars, start);
        if end == chars.len() {
            proof {
                assert(segment_start(chars@, HOST_SEGMENT as nat) is None) by {
                    reveal_with_fuel(segment_start, 3);
                }
            }
            return String::new();
        }
        start = end + 1;
        n = n + 1;
    }
    let end = find_segment_end(&chars, start);
    let ghost host = chars@.subrange(start as int, end as int);
    let mut from: usize = start;
    while end - from >= 4 && chars[from] == 'w' && chars[from + 1] == 'w' && chars[from + 2] == 'w'
        && chars[from + 3] == '.'
        invariant
            start <= from <= end <= chars.len(),
            without_www(host) == without_www(chars@.subrange(from as int, end as int)),
        decreases end - from,
    {
        proof {
            assert(chars@.subrange(from as int, end as int).skip(4) =~= chars@.subrange(
                from as int + 4,
                end as int,
            ));
        }
        from = from + 4;
    }
    let kept = copy_range(&chars, from, end);
    string_of(&kept)
}

} // verus!
