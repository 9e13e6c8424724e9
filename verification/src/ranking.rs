//! Ranking: newest first, and among equally dated items in the order in
//! which they came.
//!
//! A ranking is described by its order: the sequence of the indices that the
//! items had before, in the order in which they stand afterwards. Each item
//! has a key, the moment it is dated with; a greater key is a newer item.

use vstd::prelude::*;
use crate::dates::{date_key, Timestamp};
use crate::models::{RecordView, SearchResult};

verus! {

/// Whether the item that came at index `a` has to stand before the one that
/// came at index `b`: it is newer, or as new and came first.
pub open spec fn ranks_before(keys: Seq<int>, a: int, b: int) -> bool {
    keys[a] > keys[b] || (keys[a] == keys[b] && a < b)
}

/// Whether `order` is the order of the ranking of items with these `keys`:
/// it names every index once, and each index before all that it ranks before.
pub open spec fn is_ranking_order(keys: Seq<int>, order: Seq<int>) -> bool {
    &&& order.len() == keys.len()
    &&& forall|i: int| 0 <= i < order.len() ==> 0 <= #[trigger] order[i] < keys.len()
    &&& forall|k: int| 0 <= k < keys.len() ==> #[trigger] order.contains(k)
    &&& forall|i: int, j: int|
        0 <= i < j < order.len() ==> #[trigger] ranks_before(keys, order[i], order[j])
}

/// The `items` put in the given `order`.
pub open spec fn arranged<T>(items: Seq<T>, order: Seq<int>) -> Seq<T> {
    Seq::new(order.len(), |i: int| items[order[i]])
}

/// Whether `ranked` is the ranking of `items`, where `keys[i]` is the key of
/// `items[i]`.
pub open spec fn is_ranking<T>(items: Seq<T>, keys: Seq<int>, ranked: Seq<T>) -> bool {
    exists|order: Seq<int>| #[trigger]
        is_ranking_order(keys, order) && ranked =~= arranged(items, order)
}

/// The keys of a sequence of dated entries.
pub open spec fn entry_keys<T>(entries: Seq<(Timestamp, T)>) -> Seq<int> {
    Seq::new(entries.len(), |i: int| entries[i].0 as int)
}

/// The items of a sequence of dated entries.
pub open spec fn entry_items<T>(entries: Seq<(Timestamp, T)>) -> Seq<T> {
    Seq::new(entries.len(), |i: int| entries[i].1)
}

/// The keys by which `records` are ranked: the moments their date texts
/// stand for.
pub open spec fn date_keys(records: Seq<RecordView>) -> Seq<int> {
    Seq::new(records.len(), |i: int| date_key(records[i].raw_date) as int)
}

/// `s` with the item at index `i` moved forward to index `p`.
spec fn moved<A>(s: Seq<A>, i: int, p: int) -> Seq<A> {
    s.remove(i).insert(p, s[i])
}

/// Whether `v` stands at one of the first `i` places of `order`.
spec fn placed(order: Seq<int>, v: int, i: int) -> bool {
    exists|k: int| 0 <= k < i && #[trigger] order[k] == v
}

/// The first `i` places of `order` hold the ranking of the first `i` indices.
spec fn ranked_up_to(keys: Seq<int>, order: Seq<int>, i: int) -> bool {
    &&& forall|k: int| 0 <= k < i ==> 0 <= #[trigger] order[k] < i
    &&& forall|v: int| 0 <= v < i ==> #[trigger] placed(order, v, i)
    &&& forall|a: int, b: int|
        0 <= a < b < i ==> #[trigger] ranks_before(keys, order[a], order[b])
}

/// Where each item stands after a move.
proof fn lemma_moved_index<A>(s: Seq<A>, i: int, p: int)
    requires
        0 <= p <= i < s.len(),
    ensures
        moved(s, i, p).len() == s.len(),
        forall|k: int| 0 <= k < p ==> #[trigger] moved(s, i, p)[k] == s[k],
        moved(s, i, p)[p] == s[i],
        forall|k: int| p < k <= i ==> #[trigger] moved(s, i, p)[k] == s[k - 1],
        forall|k: int| i < k < s.len() ==> #[trigger] moved(s, i, p)[k] == s[k],
{
}

/// With the first `i` indices ranked, moving index `i` forward to the place
/// behind the last index that is at least as new ranks the first `i + 1`.
proof fn lemma_move_extends_ranking(keys: Seq<int>, order: Seq<int>, i: int, p: int)
    requires
        0 <= p <= i < order.len(),
        ranked_up_to(keys, order, i),
        order[i] == i,
        forall|k: int| 0 <= k < p ==> keys[#[trigger] order[k]] >= keys[i],
        p < i ==> keys[order[p]] < keys[i],
    ensures
        ranked_up_to(keys, moved(order, i, p), i + 1),
{
    let next = moved(order, i, p);
    lemma_moved_index(order, i, p);
    assert forall|v: int| 0 <= v < i + 1 implies #[trigger] placed(next, v, i + 1) by {
        if v < i {
            assert(placed(order, v, i));
            let k = choose|k: int| 0 <= k < i && #[trigger] order[k] == v;
            if k < p {
                assert(next[k] == v);
            } else {
                assert(next[k + 1] == v);
            }
        }
    }
    assert forall|a: int, b: int| 0 <= a < b < i + 1 implies #[trigger] ranks_before(
        keys,
        next[a],
        next[b],
    ) by {
        if a == p && p < b - 1 {
            assert(ranks_before(keys, order[p], order[b - 1]));
        }
    }
}

/// Once all places are ranked, `order` is the ranking order.
proof fn lemma_ranked_to_the_end(keys: Seq<int>, order: Seq<int>)
    requires
        order.len() == keys.len(),
        ranked_up_to(keys, order, keys.len() as int),
    ensures
        is_ranking_order(keys, order),
{
    assert forall|v: int| 0 <= v < keys.len() implies #[trigger] order.contains(v) by {
        assert(placed(order, v, keys.len() as int));
    }
}

/// Two sequences that hold the same indices, each index before all that it
/// ranks before, are the same sequence.
proof fn lemma_same_indices_same_order(keys: Seq<int>, x: Seq<int>, y: Seq<int>)
    requires
        forall|a: int, b: int| 0 <= a < b < x.len() ==> #[trigger] ranks_before(keys, x[a], x[b]),
        forall|a: int, b: int| 0 <= a < b < y.len() ==> #[trigger] ranks_before(keys, y[a], y[b]),
        forall|v: int| x.contains(v) <==> y.contains(v),
    ensures
        x =~= y,
    decreases x.len(),
{
    if x.len() == 0 {
        if y.len() > 0 {
            assert(y.contains(y[0]));
        }
    } else {
        assert(x.contains(x[0]));
        let j = choose|j: int| 0 <= j < y.len() && y[j] == x[0];
        assert(y.contains(y[0]));
        let k = choose|k: int| 0 <= k < x.len() && x[k] == y[0];
        if j > 0 {
            assert(ranks_before(keys, y[0], y[j]));
            if k > 0 {
                assert(ranks_before(keys, x[0], x[k]));
            }
        }
        let xs = x.drop_first();
        let ys = y.drop_first();
        assert forall|v: int| xs.contains(v) <==> ys.contains(v) by {
            if xs.contains(v) {
                let m = choose|m: int| 0 <= m < xs.len() && xs[m] == v;
                assert(ranks_before(keys, x[0], x[m + 1]));
                assert(x.contains(v));
                let m2 = choose|m2: int| 0 <= m2 < y.len() && y[m2] == v;
                assert(ys[m2 - 1] == v);
            }
            if ys.contains(v) {
                let m = choose|m: int| 0 <= m < ys.len() && ys[m] == v;
                assert(ranks_before(keys, y[0], y[m + 1]));
                assert(y.contains(v));
                let m2 = choose|m2: int| 0 <= m2 < x.len() && x[m2] == v;
                assert(xs[m2 - 1] == v);
            }
        }
        lemma_same_indices_same_order(keys, xs, ys);
        assert(y =~= seq![y[0]] + ys);
    }
}

/// Items with given keys have one ranking order only.
pub proof fn lemma_ranking_order_is_unique(keys: Seq<int>, first: Seq<int>, second: Seq<int>)
    requires
        is_ranking_order(keys, first),
        is_ranking_order(keys, second),
    ensures
        first == second,
{
    lemma_same_indices_same_order(keys, first, second);
}

/// Ranking pins its result down: the same items with the same keys have one
/// ranking only.
pub proof fn lemma_ranking_is_unique<T>(items: Seq<T>, keys: Seq<int>, first: Seq<T>, second: Seq<T>)
    requires
        is_ranking(items, keys, first),
        is_ranking(items, keys, second),
    ensures
        first == second,
{
    let order1 = choose|order: Seq<int>| #[trigger]
        is_ranking_order(keys, order) && first =~= arranged(items, order);
    let order2 = choose|order: Seq<int>| #[trigger]
        is_ranking_order(keys, order) && second =~= arranged(items, order);
    lemma_ranking_order_is_unique(keys, order1, order2);
}

/// A ranking is descending: no item stands behind an older one.
pub proof fn lemma_ranking_is_descending(keys: Seq<int>, order: Seq<int>, p: int, q: int)
    requires
        is_ranking_order(keys, order),
        0 <= p <= q < order.len(),
    ensures
        keys[order[p]] >= keys[order[q]],
{
    if p < q {
        assert(ranks_before(keys, order[p], order[q]));
    }
}

/// A ranking is stable: of two items with equal keys, the one that came first
/// stands first. Here the item at place `p` came from an earlier index than
/// the one at place `q`.
pub proof fn lemma_ranking_is_stable(keys: Seq<int>, order: Seq<int>, p: int, q: int)
    requires
        is_ranking_order(keys, order),
        0 <= p < order.len(),
        0 <= q < order.len(),
        keys[order[p]] == keys[order[q]],
        order[p] < order[q],
    ensures
        p < q,
{
    if q < p {
        assert(ranks_before(keys, order[q], order[p]));
    }
}

/// A ranking keeps every item: it is as long as what was ranked, each of its
/// items was among those ranked, and each of those stands somewhere in it.
pub proof fn lemma_ranking_keeps_every_item<T>(items: Seq<T>, keys: Seq<int>, ranked: Seq<T>)
    requires
        is_ranking(items, keys, ranked),
        items.len() == keys.len(),
    ensures
        ranked.len() == items.len(),
        forall|p: int| 0 <= p < ranked.len() ==> items.contains(#[trigger] ranked[p]),
        forall|a: int| 0 <= a < items.len() ==> ranked.contains(#[trigger] items[a]),
{
    let order = choose|order: Seq<int>| #[trigger]
        is_ranking_order(keys, order) && ranked =~= arranged(items, order);
    assert forall|p: int| 0 <= p < ranked.len() implies items.contains(#[trigger] ranked[p]) by {
        assert(ranked[p] == items[order[p]]);
    }
    assert forall|a: int| 0 <= a < items.len() implies ranked.contains(#[trigger] items[a]) by {
        assert(order.contains(a));
        let p = choose|p: int| 0 <= p < order.len() && order[p] == a;
        assert(ranked[p] == items[a]);
    }
}

/// Two items with equal keys keep their order: the one that came first, at
/// index `a`, stands in the ranking before the one that came at index `b`.
pub proof fn lemma_equal_keys_keep_their_order<T>(
    items: Seq<T>,
    keys: Seq<int>,
    ranked: Seq<T>,
    a: int,
    b: int,
)
    requires
        is_ranking(items, keys, ranked),
        0 <= a < b < keys.len(),
        keys[a] == keys[b],
    ensures
        exists|p: int, q: int|
            0 <= p < q < ranked.len() && #[trigger] ranked[p] == items[a] && #[trigger] ranked[q]
                == items[b],
{
    let order = choose|order: Seq<int>| #[trigger]
        is_ranking_order(keys, order) && ranked =~= arranged(items, order);
    assert(order.contains(a));
    assert(order.contains(b));
    let p = choose|p: int| 0 <= p < order.len() && order[p] == a;
    let q = choose|q: int| 0 <= q < order.len() && order[q] == b;
    lemma_ranking_is_stable(keys, order, p, q);
    assert(ranked[p] == items[a] && ranked[q] == items[b]);
}

/// Ranked records are in descending order of the moments their date texts
/// stand for.
pub proof fn lemma_ranked_records_are_descending(
    records: Seq<RecordView>,
    ranked: Seq<RecordView>,
    p: int,
    q: int,
)
    requires
        is_ranking(records, date_keys(records), ranked),
        0 <= p <= q < ranked.len(),
    ensures
        date_key(ranked[p].raw_date) >= date_key(ranked[q].raw_date),
{
    let keys = date_keys(records);
    let order = choose|order: Seq<int>| #[trigger]
        is_ranking_order(keys, order) && ranked =~= arranged(records, order);
    lemma_ranking_is_descending(keys, order, p, q);
}

/// Ranks dated entries: greatest key first, and entries with equal keys in
/// the order in which they came.
pub fn rank_by_key<T>(entries: Vec<(Timestamp, T)>) -> (ranked: Vec<T>)
    ensures
        is_ranking(entry_items(entries@), entry_keys(entries@), ranked@),
        ranked@.len() == entries@.len(),
{
    let ghost given = entries@;
    let ghost keys = entry_keys(given);
    let ghost mut order: Seq<int> = Seq::new(given.len(), |k: int| k);
    let mut entries = entries;
    let n = entries.len();
    let mut i: usize = 0;
    while i < n
        invariant
            i <= n,
            n == given.len(),
            entries.len() == n,
            order.len() == n,
            keys == entry_keys(given),
            forall|k: int| 0 <= k < n ==> 0 <= #[trigger] order[k] < n,
            forall|k: int| 0 <= k < n ==> #[trigger] entries@[k] == given[order[k]],
            forall|k: int| i <= k < n ==> #[trigger] order[k] == k,
            ranked_up_to(keys, order, i as int),
        decreases n - i,
    {
        let key = entries[i].0;
        let mut p: usize = 0;
        while p < i && entries[p].0 >= key
            invariant
                p <= i < n,
                entries.len() == n,
                order.len() == n,
                n == given.len(),
                keys == entry_keys(given),
                key == keys[i as int],
                forall|k: int| 0 <= k < n ==> 0 <= #[trigger] order[k] < n,
                forall|k: int| 0 <= k < n ==> #[trigger] entries@[k] == given[order[k]],
                forall|k: int| 0 <= k < p ==> keys[#[trigger] order[k]] >= key,
            decreases i - p,
        {
            p = p + 1;
        }
        proof {
            lemma_move_extends_ranking(keys, order, i as int, p as int);
            lemma_moved_index(order, i as int, p as int);
            lemma_moved_index(entries@, i as int, p as int);
        }
        if p < i {
            let entry = entries.remove(i);
            entries.insert(p, entry);
        }
        proof {
            order = moved(order, i as int, p as int);
        }
        i = i + 1;
    }
    proof {
        lemma_ranked_to_the_end(keys, order);
    }
    let mut ranked: Vec<T> = Vec::new();
    for entry in it: entries
        invariant
            it.seq().len() == order.len(),
            forall|k: int| 0 <= k < it.seq().len() ==> #[trigger] it.seq()[k] == given[order[k]],
            ranked@.len() == it.index(),
            forall|k: int| 0 <= k < ranked@.len() ==> #[trigger] ranked@[k] == given[order[k]].1,
    {
        ranked.push(entry.1);
    }
    proof {
        assert(ranked@ =~= arranged(entry_items(given), order));
    }
    ranked
}

/// Ranks `records` by the moments their date texts stand for: most recent
/// first, and records of the same moment in the order in which they came.
pub fn rank_results(records: Vec<SearchResult>) -> (ranked: Vec<SearchResult>)
    ensures
        is_ranking(records.deep_view(), date_keys(records.deep_view()), ranked.deep_view()),
        ranked@.len() == records@.len(),
        forall|p: int, q: int|
            0 <= p <= q < ranked@.len() ==> date_key(#[trigger] ranked@[p]@.raw_date) >= date_key(
                #[trigger] ranked@[q]@.raw_date,
            ),
{
    let ghost given = records@;
    let mut entries: Vec<(Timestamp, SearchResult)> = Vec::new();
    for record in it: records
        invariant
            it.seq() == given,
            entries@.len() == it.index(),
            forall|k: int|
                0 <= k < entries@.len() ==> (#[trigger] entries@[k]).1 == given[k] && entries@[k].0
                    == date_key(given[k]@.raw_date),
    {
        let moment = SearchResult::parse_date(record.raw_date.as_str());
        entries.push((moment, record));
    }
    let ranked = rank_by_key(entries);
    proof {
        let order = choose|order: Seq<int>| #[trigger]
            is_ranking_order(entry_keys(entries@), order) && ranked@ =~= arranged(
                entry_items(entries@),
                order,
            );
        assert(entry_keys(entries@) =~= date_keys(records.deep_view()));
        assert(ranked.deep_view() =~= arranged(records.deep_view(), order));
        assert forall|p: int, q: int| 0 <= p <= q < ranked@.len() implies date_key(
            #[trigger] ranked@[p]@.raw_date,
        ) >= date_key(#[trigger] ranked@[q]@.raw_date) by {
            lemma_ranked_records_are_descending(records.deep_view(), ranked.deep_view(), p, q);
        }
    }
    ranked
}

} // verus!
