//! Which messages of a mailbox a page shows, and how the request for them
//! is written.

use crate::text::{decimal_string, decimal_text};
use vstd::prelude::*;
use vstd::relations::{sorted_by, total_ordering};
use vstd::seq_lib::{lemma_sorted_unique, to_multiset_contains, to_multiset_len};
use vstd::string::*;

verus! {

/// A page of a mailbox: the messages from offset `start` up to, and without,
/// offset `stop`, counted from the newest message, which has offset 0.
#[derive(Debug, Clone, Copy)]
pub struct RangeRequest {
    pub start: usize,
    pub stop: usize,
}

/// What a fetch asks the server for.
#[derive(Debug, Clone)]
pub struct FetchRequest {
    /// The identifiers to fetch, in decimal, with commas between them.
    pub sequence_set: String,
    /// The data items wanted of each message.
    pub query: String,
}

/// The order of identifiers as numbers.
pub open spec fn at_most() -> spec_fn(u32, u32) -> bool {
    |a: u32, b: u32| a <= b
}

/// The identifiers from the smallest to the largest.
pub open spec fn ascending(ids: Seq<u32>) -> Seq<u32> {
    ids.sort_by(at_most())
}

/// The identifiers from the newest message to the oldest: from the largest
/// number to the smallest.
pub open spec fn newest_first(ids: Seq<u32>) -> Seq<u32> {
    ascending(ids).reverse()
}

/// How many messages a page holds when `available` messages exist.
pub open spec fn window_len(available: int, start: int, stop: int) -> int {
    let from = if start < available { start } else { available };
    let to = if stop < available { stop } else { available };
    if from < to {
        to - from
    } else {
        0
    }
}

/// The identifiers of the page from `start` to `stop`, newest first. The
/// page ends where the mailbox ends, and is empty where `stop <= start`.
pub open spec fn selected_range(ids: Seq<u32>, start: int, stop: int) -> Seq<u32> {
    let from = if start < ids.len() { start } else { ids.len() as int };
    newest_first(ids).subrange(from, from + window_len(ids.len() as int, start, stop))
}

/// The identifiers in decimal, with a comma between each two.
pub open spec fn sequence_set_text(ids: Seq<u32>) -> Seq<char>
    decreases ids.len(),
{
    if ids.len() == 0 {
        Seq::empty()
    } else if ids.len() == 1 {
        decimal_text(ids[0] as nat)
    } else {
        sequence_set_text(ids.drop_last()) + seq![','] + decimal_text(ids.last() as nat)
    }
}

/// The data items that a fetch asks for: the header block, and the whole
/// message too where `include_body` is set.
pub open spec fn query_text(include_body: bool) -> Seq<char> {
    if include_body {
        "(BODY.PEEK[HEADER] BODY.PEEK[])"@
    } else {
        "(BODY.PEEK[HEADER])"@
    }
}

/// `sort_unstable` of std on a vector of identifiers: afterwards the vector
/// holds the same numbers as before, each as often as before, from the
/// smallest to the largest. Trusted, as std documents it.
#[verifier::external_body]
fn sort_ids(ids: &mut Vec<u32>)
    ensures
        final(ids)@.to_multiset() == old(ids)@.to_multiset(),
        sorted_by(final(ids)@, at_most()),
{
    ids.sort_unstable();
}

/// The numbers of a sequence in ascending order are determined by how often
/// each number occurs in it.
pub proof fn lemma_ascending_is(sorted: Seq<u32>, ids: Seq<u32>)
    requires
        sorted.to_multiset() == ids.to_multiset(),
        sorted_by(sorted, at_most()),
    ensures
        sorted == ascending(ids),
{
    ids.lemma_sort_by_ensures(at_most());
    lemma_sorted_unique(sorted, ascending(ids), at_most());
}

/// Picks the identifiers of a page out of all identifiers of a mailbox,
/// given in any order. They are compared as numbers.
pub fn select_range(ids: Vec<u32>, start: usize, stop: usize) -> (selection: Vec<u32>)
    ensures
        selection@ == selected_range(ids@, start as int, stop as int),
        selection@.len() == window_len(ids@.len() as int, start as int, stop as int),
{
    let mut sorted = ids;
    sort_ids(&mut sorted);
    proof {
        lemma_ascending_is(sorted@, ids@);
        to_multiset_len(sorted@);
        to_multiset_len(ids@);
    }
    let n: usize = sorted.len();
    let from: usize = if start < n { start } else { n };
    let to: usize = if stop < n { stop } else { n };
    let ghost page = selected_range(ids@, start as int, stop as int);
    let mut selection: Vec<u32> = Vec::new();
    let mut k: usize = from;
    while k < to
        invariant
            from <= n,
            to <= n,
            from <= k,
            k <= (if from < to { to } else { from }),
            n == sorted@.len(),
            n == ids@.len(),
            sorted@ == ascending(ids@),
            from == (if start < n { start } else { n }),
            to == (if stop < n { stop } else { n }),
            page == selected_range(ids@, start as int, stop as int),
            selection@.len() == k - from,
            forall|i: int| 0 <= i < selection@.len() ==> selection@[i] == page[i],
        decreases to - k,
    {
        selection.push(sorted[n - 1 - k]);
        k += 1;
    }
    selection
}

/// A page holds as many identifiers as lie between its two offsets, each
/// offset cut down to the number of messages that exist. So it is empty
/// where the mailbox is empty, and where the page has no width.
pub proof fn lemma_selection_len(ids: Seq<u32>, start: nat, stop: nat)
    ensures
        selected_range(ids, start as int, stop as int).len() == window_len(
            ids.len() as int,
            start as int,
            stop as int,
        ),
        ids.len() == 0 ==> selected_range(ids, start as int, stop as int).len() == 0,
        stop <= start ==> selected_range(ids, start as int, stop as int).len() == 0,
{
    ids.lemma_sort_by_ensures(at_most());
    to_multiset_len(ids);
    to_multiset_len(ascending(ids));
}

/// No identifier is larger than one that stands before it.
pub open spec fn descending(ids: Seq<u32>) -> bool {
    forall|i: int, j: int| 0 <= i < j < ids.len() ==> ids[i] >= ids[j]
}

/// Each identifier is smaller than every one that stands before it.
pub open spec fn strictly_descending(ids: Seq<u32>) -> bool {
    forall|i: int, j: int| 0 <= i < j < ids.len() ==> ids[i] > ids[j]
}

/// No identifier of `ids` is larger than `id`.
pub open spec fn is_largest_of(id: u32, ids: Seq<u32>) -> bool {
    forall|k: int| 0 <= k < ids.len() ==> ids[k] <= id
}

/// A page runs from newer to older: no identifier in it is larger than one
/// before it, so the first is the largest of the page. Each is one of the
/// mailbox, and a page that starts at offset 0 starts with the largest
/// identifier of the mailbox. Where no identifier occurs twice in the
/// mailbox, each is smaller than the one before it.
pub proof fn lemma_selection_newest_first(ids: Seq<u32>, start: nat, stop: nat)
    ensures
        descending(selected_range(ids, start as int, stop as int)),
        ids.no_duplicates() ==> strictly_descending(
            selected_range(ids, start as int, stop as int),
        ),
        forall|i: int|
            0 <= i < selected_range(ids, start as int, stop as int).len() ==> ids.contains(
                #[trigger] selected_range(ids, start as int, stop as int)[i],
            ),
        selected_range(ids, start as int, stop as int).len() > 0 ==> is_largest_of(
            selected_range(ids, start as int, stop as int)[0],
            selected_range(ids, start as int, stop as int),
        ),
        start == 0 && selected_range(ids, start as int, stop as int).len() > 0 ==> is_largest_of(
            selected_range(ids, start as int, stop as int)[0],
            ids,
        ),
{
    let sorted = ascending(ids);
    let page = selected_range(ids, start as int, stop as int);
    let n = ids.len() as int;
    let from = if start < n { start as int } else { n };
    ids.lemma_sort_by_ensures(at_most());
    to_multiset_len(ids);
    to_multiset_len(sorted);
    lemma_selection_len(ids, start, stop);
    assert forall|i: int| 0 <= i < page.len() implies #[trigger] page[i] == sorted[n - 1 - from
        - i] by {}
    assert forall|i: int, j: int| 0 <= i < j < page.len() implies page[i] >= page[j] by {
        assert(at_most()(sorted[n - 1 - from - j], sorted[n - 1 - from - i]));
    }
    if ids.no_duplicates() {
        ids.lemma_multiset_has_no_duplicates();
        sorted.lemma_multiset_has_no_duplicates_conv();
        assert forall|i: int, j: int| 0 <= i < j < page.len() implies page[i] > page[j] by {}
    }
    assert forall|i: int| 0 <= i < page.len() implies ids.contains(#[trigger] page[i]) by {
        assert(sorted.contains(sorted[n - 1 - from - i]));
    }
    if start == 0 && page.len() > 0 {
        assert forall|k: int| 0 <= k < ids.len() implies ids[k] <= page[0] by {
            to_multiset_contains(ids, ids[k]);
            to_multiset_contains(sorted, ids[k]);
            let at = choose|at: int| 0 <= at < sorted.len() && sorted[at] == ids[k];
            if at < n - 1 {
                assert(at_most()(sorted[at], sorted[n - 1]));
            }
        }
    }
}

/// A page depends on which identifiers the mailbox holds, not on the order
/// in which they are listed.
pub proof fn lemma_selection_ignores_listing_order(
    a: Seq<u32>,
    b: Seq<u32>,
    start: nat,
    stop: nat,
)
    requires
        a.to_multiset() == b.to_multiset(),
    ensures
        selected_range(a, start as int, stop as int) == selected_range(
            b,
            start as int,
            stop as int,
        ),
{
    a.lemma_sort_by_ensures(at_most());
    to_multiset_len(a);
    to_multiset_len(b);
    lemma_ascending_is(ascending(a), b);
}

/// Writes the identifiers in decimal, with a comma between each two.
pub fn sequence_set(ids: &Vec<u32>) -> (text: String)
    ensures
        text@ == sequence_set_text(ids@),
{
    let mut text = String::new();
    let mut i: usize = 0;
    while i < ids.len()
        invariant
            i <= ids.len(),
            text@ == sequence_set_text(ids@.take(i as int)),
        decreases ids.len() - i,
    {
        proof {
            reveal_strlit(",");
            assert(ids@.take(i + 1).drop_last() =~= ids@.take(i as int));
        }
        if i > 0 {
            text.append(",");
        }
        let number = decimal_string(ids[i]);
        text.append(number.as_str());
        i += 1;
    }
    assert(ids@.take(i as int) =~= ids@);
    text
}

/// The data items to ask for: the header block, and the whole message too
/// where `include_body` is set.
pub fn fetch_query(include_body: bool) -> (query: &'static str)
    ensures
        query@ == query_text(include_body),
{
    if include_body {
        "(BODY.PEEK[HEADER] BODY.PEEK[])"
    } else {
        "(BODY.PEEK[HEADER])"
    }
}

/// The one request that fetches all messages of a page.
pub fn fetch_request(selection: &Vec<u32>, include_body: bool) -> (request: FetchRequest)
    ensures
        request.sequence_set@ == sequence_set_text(selection@),
        request.query@ == query_text(include_body),
{
    FetchRequest {
        sequence_set: sequence_set(selection),
        query: String::from_str(fetch_query(include_body)),
    }
}

} // verus!
