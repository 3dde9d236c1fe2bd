//! Pages of listed keys, within items and tokens.

use crate::cursor::{carries, EnvelopeView, StreamId};
use crate::error::{Error, Fault};
use crate::fitting::{counted_as, counts_all};
use crate::json::cursor::{
    fingerprint_like, keys_envelope, make_json_cursor, offset_held, JsonCursor,
};
use crate::json::keys::{key_entries, listed_keys};
use crate::json::options::JsonExecutionOptions;
use crate::json::source::JsonMeasurementCache;
use crate::json::value::JsonValue;
use crate::json::view::{
    item_views, item_views_are, item_views_push, json_text, json_view, JsonView,
};
use crate::text::optional_text;
use vstd::prelude::*;

verus! {

/// Why less was returned than there is.
#[derive(Debug, Clone, Copy, PartialEq, Eq, Structural)]
pub enum JsonIncompleteReason {
    MaxItems,
    MaxTokens,
}

/// One page of listed keys.
#[derive(Debug)]
pub struct KeyProjectionPage {
    pub value: JsonValue,
    pub total_items: usize,
    pub returned_items: usize,
    pub remaining_items: usize,
    pub incomplete_reason: Option<JsonIncompleteReason>,
    pub next_cursor: Option<String>,
    pub projected_tokens: usize,
}

/// What a [`KeyProjectionPage`] says.
pub struct KeyPageView {
    pub value: JsonView,
    pub total_items: usize,
    pub returned_items: usize,
    pub remaining_items: usize,
    pub incomplete_reason: Option<JsonIncompleteReason>,
    pub next_cursor: Option<Seq<char>>,
    pub projected_tokens: usize,
}

impl View for KeyProjectionPage {
    type V = KeyPageView;

    open spec fn view(&self) -> KeyPageView {
        KeyPageView {
            value: self.value@,
            total_items: self.total_items,
            returned_items: self.returned_items,
            remaining_items: self.remaining_items,
            incomplete_reason: self.incomplete_reason,
            next_cursor: optional_text(self.next_cursor),
            projected_tokens: self.projected_tokens,
        }
    }
}

/// Whether the first entries of a list may be said to take a number of tokens.
pub open spec fn prefix_counted<C: Fn(&str) -> usize>(
    count: C,
    entries: Seq<JsonView>,
    length: int,
    tokens: usize,
) -> bool {
    counted_as(count, json_text(JsonView::Array(entries.take(length))), tokens)
}

/// Whether the first entries of a list may be said to be within a number of
/// tokens.
pub open spec fn prefix_within<C: Fn(&str) -> usize>(
    count: C,
    entries: Seq<JsonView>,
    length: int,
    max_tokens: usize,
) -> bool {
    exists|tokens: usize|
        tokens <= max_tokens && #[trigger] prefix_counted(count, entries, length, tokens)
}

/// Whether the first entries of a list may be said to be above a number of
/// tokens.
pub open spec fn prefix_above<C: Fn(&str) -> usize>(
    count: C,
    entries: Seq<JsonView>,
    length: int,
    max_tokens: usize,
) -> bool {
    exists|tokens: usize|
        tokens > max_tokens && #[trigger] prefix_counted(count, entries, length, tokens)
}

/// Whether a number of entries is one that is within a number of tokens where
/// one more is not, or none where not even one is.
pub open spec fn prefix_chosen<C: Fn(&str) -> usize>(
    count: C,
    entries: Seq<JsonView>,
    max_tokens: usize,
    length: int,
) -> bool {
    &&& 0 <= length <= entries.len()
    &&& length > 0 ==> prefix_within(count, entries, length, max_tokens)
    &&& length < entries.len() ==> prefix_above(count, entries, length + 1, max_tokens)
}

fn prefix_value(entries: &Vec<JsonValue>, from: usize, length: usize) -> (r: JsonValue)
    requires
        from + length <= entries.len(),
    ensures
        r@ == JsonView::Array(
            item_views(entries@).subrange(from as int, entries@.len() as int).take(length as int),
        ),
        r is Array,
{
    let ghost all = item_views(entries@);
    proof {
        item_views_are(entries@);
    }
    let ghost part = all.subrange(from as int, entries@.len() as int);
    let mut out: Vec<JsonValue> = Vec::new();
    let mut i: usize = 0;
    assert(item_views(out@) =~= part.take(0));
    while i < length
        invariant
            i <= length,
            from + length <= entries.len(),
            all == item_views(entries@),
            all.len() == entries@.len(),
            forall|k: int| 0 <= k < all.len() ==> #[trigger] all[k] == json_view(entries@[k]),
            part == all.subrange(from as int, entries@.len() as int),
            item_views(out@) == part.take(i as int),
        decreases length - i,
    {
        let ghost before = out@;
        let copy = entries[from + i].duplicate();
        let ghost added = copy;
        out.push(copy);
        proof {
            item_views_push(before, added);
            assert(all[from + i] == json_view(entries@[from + i]));
            assert(part.take(i + 1) =~= part.take(i as int).push(part[i as int]));
        }
        i += 1;
    }
    JsonValue::Array(out)
}

fn key_prefix_tokens<C: Fn(&str) -> usize>(
    count: &C,
    entries: &Vec<JsonValue>,
    from: usize,
    length: usize,
    measurements: &mut JsonMeasurementCache,
) -> (r: usize)
    requires
        counts_all(*count),
        old(measurements).valid(*count),
        from + length <= entries.len(),
    ensures
        final(measurements).valid(*count),
        prefix_counted(
            *count,
            item_views(entries@).subrange(from as int, entries@.len() as int),
            length as int,
            r,
        ),
{
    let value = prefix_value(entries, from, length);
    measurements.measure(count, length, &value)
}

/// The largest number of entries from a place on that is within a number of
/// tokens, and its tokens.
fn largest_key_prefix_within_tokens<C: Fn(&str) -> usize>(
    count: &C,
    entries: &Vec<JsonValue>,
    from: usize,
    to: usize,
    max_tokens: usize,
    measurements: &mut JsonMeasurementCache,
) -> (r: (usize, usize))
    requires
        counts_all(*count),
        old(measurements).valid(*count),
        from <= to <= entries.len(),
    ensures
        final(measurements).valid(*count),
        prefix_chosen(
            *count,
            item_views(entries@).subrange(from as int, to as int),
            max_tokens,
            r.0 as int,
        ),
        prefix_counted(
            *count,
            item_views(entries@).subrange(from as int, to as int),
            r.0 as int,
            r.1,
        ),
{
    let ghost rest = item_views(entries@).subrange(from as int, entries@.len() as int);
    let ghost part = item_views(entries@).subrange(from as int, to as int);
    proof {
        item_views_are(entries@);
    }
    let total: usize = to - from;
    let full: usize = key_prefix_tokens(count, entries, from, total, measurements);
    proof {
        same_prefix(rest, part, total as int);
        assert(prefix_counted(*count, part, total as int, full));
    }
    if total == 0 || full <= max_tokens {
        return (total, full);
    }
    let mut lower: usize = 0;
    let mut upper: usize = total;
    assert(prefix_above(*count, part, total as int, max_tokens));
    while lower < upper
        invariant
            lower <= upper <= total,
            total == to - from,
            from <= to <= entries.len(),
            counts_all(*count),
            measurements.valid(*count),
            rest == item_views(entries@).subrange(from as int, entries@.len() as int),
            part == item_views(entries@).subrange(from as int, to as int),
            item_views(entries@).len() == entries@.len(),
            lower > 0 ==> prefix_within(*count, part, lower as int, max_tokens),
            upper < total ==> prefix_above(*count, part, upper + 1, max_tokens),
        decreases upper - lower,
    {
        let middle: usize = lower + (upper - lower) / 2 + (upper - lower) % 2;
        let tokens: usize = key_prefix_tokens(count, entries, from, middle, measurements);
        proof {
            same_prefix(rest, part, middle as int);
            assert(prefix_counted(*count, part, middle as int, tokens));
        }
        if tokens <= max_tokens {
            lower = middle;
        } else {
            upper = middle - 1;
        }
    }
    let tokens: usize = key_prefix_tokens(count, entries, from, lower, measurements);
    proof {
        same_prefix(rest, part, lower as int);
        assert(prefix_counted(*count, part, lower as int, tokens));
    }
    (lower, tokens)
}

proof fn same_prefix(rest: Seq<JsonView>, part: Seq<JsonView>, length: int)
    requires
        0 <= length <= part.len() <= rest.len(),
        part =~= rest.take(part.len() as int),
    ensures
        rest.take(length) == part.take(length),
{
    assert(rest.take(length) =~= part.take(length));
}

/// Where a page ends, at most.
pub open spec fn items_end(offset: usize, max_items: usize, total: nat) -> int {
    if offset + max_items < total {
        (offset + max_items) as int
    } else {
        total as int
    }
}

/// Whether a text continues listed keys where there are more.
pub open spec fn keys_continued(
    cursor: Option<Seq<char>>,
    stream: Seq<u8>,
    source_hash: Seq<char>,
    consumed: usize,
    remaining: usize,
) -> bool {
    if remaining > 0 {
        cursor is Some && carries(cursor->0, keys_envelope(stream, source_hash, consumed))
    } else {
        cursor is None
    }
}

/// Whether `out` is the page of listed keys from an offset on.
pub open spec fn key_page<C: Fn(&str) -> usize>(
    count: C,
    entries: Seq<JsonView>,
    offset: usize,
    max_items: usize,
    max_tokens: usize,
    stream: Seq<u8>,
    source_hash: Seq<char>,
    out: KeyPageView,
) -> bool {
    let candidates = entries.subrange(offset as int, items_end(offset, max_items, entries.len()));
    let returned = out.returned_items as int;
    &&& out.total_items == entries.len()
    &&& prefix_chosen(count, candidates, max_tokens, returned)
    &&& candidates.len() > 0 ==> returned > 0
    &&& prefix_counted(count, candidates, returned, out.projected_tokens)
    &&& out.value == JsonView::Array(candidates.take(returned))
    &&& out.remaining_items == entries.len() - offset - returned
    &&& out.incomplete_reason == if out.remaining_items == 0 {
        None
    } else if returned < candidates.len() {
        Some(JsonIncompleteReason::MaxTokens)
    } else {
        Some(JsonIncompleteReason::MaxItems)
    }
    &&& keys_continued(
        out.next_cursor,
        stream,
        source_hash,
        (offset + returned) as usize,
        out.remaining_items,
    )
}

/// Whether `outcome` may come of listing a page of keys.
pub open spec fn key_page_outcome<C: Fn(&str) -> usize>(
    count: C,
    entries: Seq<JsonView>,
    offset: usize,
    max_items: usize,
    max_tokens: usize,
    stream: Seq<u8>,
    source_hash: Seq<char>,
    outcome: Result<KeyPageView, Fault>,
) -> bool {
    let candidates = entries.subrange(offset as int, items_end(offset, max_items, entries.len()));
    if offset > entries.len() || (offset == entries.len() && offset != 0) {
        outcome == Err::<KeyPageView, Fault>(Fault::StaleCursor)
    } else {
        match outcome {
            Ok(out) => key_page(
                count,
                entries,
                offset,
                max_items,
                max_tokens,
                stream,
                source_hash,
                out,
            ),
            Err(fault) => {
                ||| {
                    &&& candidates.len() > 0
                    &&& prefix_chosen(count, candidates, max_tokens, 0)
                    &&& exists|tokens: usize|
                        #[trigger] prefix_counted(count, candidates, 1, tokens) && fault == (
                        Fault::RequestLimitExceeded {
                            field: "one projected JSON item tokens"@,
                            requested: tokens,
                            limit: max_tokens,
                        })
                }
                ||| {
                    &&& fault == Fault::OperationFailure("invalid JSON continuation state"@)
                    &&& exists|returned: int|
                        {
                            &&& #[trigger] prefix_chosen(count, candidates, max_tokens, returned)
                            &&& offset + returned < entries.len()
                            &&& !fingerprint_like(source_hash) || offset + returned == 0
                        }
                }
            },
        }
    }
}

/// Where a page starts by what a cursor holds: at the start without one.
pub open spec fn start_of(
    cursor: Option<EnvelopeView>,
    source_hash: Seq<char>,
    stream: Seq<u8>,
) -> Option<usize> {
    match cursor {
        None => Some(0),
        Some(content) => offset_held(content, source_hash, stream),
    }
}

/// What a page of keys is listed for.
pub struct KeyProjectionContext<'a> {
    pub cursor: Option<&'a JsonCursor>,
    pub source_hash: &'a str,
    pub stream_id: StreamId,
    pub execution: JsonExecutionOptions,
}

impl<'a> KeyProjectionContext<'a> {
    /// What a page of keys is listed for.
    pub fn new(
        cursor: Option<&'a JsonCursor>,
        source_hash: &'a str,
        stream_id: StreamId,
        execution: JsonExecutionOptions,
    ) -> (r: KeyProjectionContext<'a>)
        ensures
            r.cursor == cursor,
            r.source_hash == source_hash,
            r.stream_id == stream_id,
            r.execution == execution,
    {
        KeyProjectionContext { cursor, source_hash, stream_id, execution }
    }

    /// Where the page starts.
    pub open spec fn start(self) -> Option<usize> {
        start_of(
            match self.cursor {
                Some(cursor) => Some(cursor.envelope@),
                None => None,
            },
            self.source_hash@,
            self.stream_id@,
        )
    }
}

/// A result, as what it says.
pub open spec fn key_page_result(r: Result<KeyProjectionPage, Error>) -> Result<
    KeyPageView,
    Fault,
> {
    match r {
        Ok(page) => Ok(page@),
        Err(e) => Err(e@),
    }
}

/// Lists a page of keys: no more than `max_items`, and of them as many as are
/// within `max_tokens`.
pub fn project_key_page<C: Fn(&str) -> usize>(
    count: &C,
    value: &JsonValue,
    max_items: usize,
    max_tokens: usize,
    context: KeyProjectionContext<'_>,
    measurements: &mut JsonMeasurementCache,
) -> (r: Result<KeyProjectionPage, Error>)
    requires
        counts_all(*count),
        old(measurements).valid(*count),
    ensures
        final(measurements).valid(*count),
        match context.start() {
            None => key_page_result(r) == Err::<KeyPageView, Fault>(Fault::StaleCursor),
            Some(offset) => key_page_outcome(
                *count,
                listed_keys(value@, context.execution.depth, context.execution.key_order),
                offset,
                max_items,
                max_tokens,
                context.stream_id@,
                context.source_hash@,
                key_page_result(r),
            ),
        },
{
    let entries = key_entries(value, context.execution.depth(), context.execution.key_order());
    let ghost all = item_views(entries@);
    proof {
        item_views_are(entries@);
    }
    let total_items: usize = entries.len();
    let offset: usize = match context.cursor {
        Some(cursor) => match cursor.offset_for(context.source_hash, context.stream_id) {
            Ok(offset) => offset,
            Err(e) => {
                return Err(e);
            },
        },
        None => 0,
    };
    if offset > total_items || (offset == total_items && offset != 0) {
        return Err(Error::StaleCursor);
    }
    let reach: usize = offset.saturating_add(max_items);
    let page_end: usize = if reach < total_items {
        reach
    } else {
        total_items
    };
    assert(page_end == items_end(offset, max_items, all.len()));
    let ghost candidates = all.subrange(offset as int, page_end as int);
    let (returned_items, projected_tokens) = largest_key_prefix_within_tokens(
        count,
        &entries,
        offset,
        page_end,
        max_tokens,
        measurements,
    );
    if returned_items == 0 && page_end > offset {
        let requested: usize = key_prefix_tokens(count, &entries, offset, 1, measurements);
        proof {
            same_prefix(all.subrange(offset as int, entries@.len() as int), candidates, 1);
            assert(prefix_counted(*count, candidates, 1, requested));
        }
        return Err(
            Error::RequestLimitExceeded {
                field: "one projected JSON item tokens",
                requested,
                limit: max_tokens,
            },
        );
    }
    let consumed: usize = offset + returned_items;
    let remaining_items: usize = total_items - consumed;
    let incomplete_reason = if remaining_items == 0 {
        None
    } else if returned_items < page_end - offset {
        Some(JsonIncompleteReason::MaxTokens)
    } else {
        Some(JsonIncompleteReason::MaxItems)
    };
    let next_cursor = if remaining_items > 0 {
        match make_json_cursor(context.stream_id, context.source_hash, consumed) {
            Ok(text) => Some(text),
            Err(e) => {
                assert(prefix_chosen(*count, candidates, max_tokens, returned_items as int));
                return Err(e);
            },
        }
    } else {
        None
    };
    let value = prefix_value(&entries, offset, returned_items);
    proof {
        same_prefix(
            all.subrange(offset as int, entries@.len() as int),
            candidates,
            returned_items as int,
        );
    }
    Ok(
        KeyProjectionPage {
            value,
            total_items,
            returned_items,
            remaining_items,
            incomplete_reason,
            next_cursor,
            projected_tokens,
        },
    )
}

/// A page accounts for every key: those before it, those on it and those that
/// remain.
pub proof fn a_key_page_accounts_for_every_key<C: Fn(&str) -> usize>(
    count: C,
    entries: Seq<JsonView>,
    offset: usize,
    max_items: usize,
    max_tokens: usize,
    stream: Seq<u8>,
    source_hash: Seq<char>,
    out: KeyPageView,
)
    requires
        offset <= entries.len(),
        key_page(count, entries, offset, max_items, max_tokens, stream, source_hash, out),
    ensures
        out.total_items == offset + out.returned_items + out.remaining_items,
        out.returned_items <= max_items,
        out.value matches JsonView::Array(items) && items == entries.subrange(
            offset as int,
            offset + out.returned_items,
        ),
{
    let end = items_end(offset, max_items, entries.len());
    let candidates = entries.subrange(offset as int, end);
    assert(candidates.take(out.returned_items as int) =~= entries.subrange(
        offset as int,
        offset + out.returned_items,
    ));
}

} // verus!
