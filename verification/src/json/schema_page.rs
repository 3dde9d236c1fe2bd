//! The largest shape of a value within items and tokens.

use crate::error::{Error, Fault};
use crate::fitting::{counted_as, counts_all};
use crate::json::key_page::JsonIncompleteReason;
use crate::json::projection::{count_nodes, node_count};
use crate::json::schema::{build_schema_breadth_first, schema_of};
use crate::json::value::JsonValue;
use crate::json::view::{json_text, write_json, JsonView};
use vstd::prelude::*;

verus! {

/// How often shapes were built, written and counted, and how often that was
/// spared.
#[derive(Debug, Clone, Copy, PartialEq, Eq, Structural)]
pub struct SchemaProjectionCounters {
    pub schema_builds: usize,
    pub schema_serializations: usize,
    pub schema_token_counts: usize,
    pub cache_hits: usize,
}

/// A shape, its text and the tokens of the text.
#[derive(Debug)]
pub struct MeasuredProjection {
    pub max_items: usize,
    pub value: JsonValue,
    pub serialized: String,
    pub tokens: usize,
}

impl MeasuredProjection {
    /// The tokens.
    pub fn tokens(&self) -> (r: usize)
        ensures
            r == self.tokens,
    {
        self.tokens
    }

    /// The shape.
    pub fn into_value(self) -> (r: JsonValue)
        ensures
            r@ == self.value@,
    {
        self.value
    }
}

/// Whether the shape of a value with a number of items may be said to take a
/// number of tokens.
pub open spec fn schema_counted<C: Fn(&str) -> usize>(
    count: C,
    value: JsonView,
    max_items: usize,
    tokens: usize,
) -> bool {
    counted_as(count, json_text(schema_of(value, max_items as nat)), tokens)
}

/// Shapes of one value that were built and counted, so that none is built
/// twice.
#[derive(Debug)]
pub struct SchemaProjectionPlan {
    pub cache: Vec<MeasuredProjection>,
    pub counters: SchemaProjectionCounters,
}

impl SchemaProjectionPlan {
    /// Whether every remembered shape is one of the value, and was counted; no
    /// size is remembered twice, and each was built, written and counted once.
    pub open spec fn valid<C: Fn(&str) -> usize>(self, count: C, value: JsonView) -> bool {
        &&& forall|i: int|
            0 <= i < self.cache@.len() ==> {
                let measured = #[trigger] self.cache@[i];
                &&& measured.value@ == schema_of(value, measured.max_items as nat)
                &&& measured.serialized@ == json_text(measured.value@)
                &&& schema_counted(count, value, measured.max_items, measured.tokens)
            }
        &&& forall|i: int, j: int|
            0 <= i < j < self.cache@.len() ==> (#[trigger] self.cache@[i]).max_items != (
            #[trigger] self.cache@[j]).max_items
        &&& self.counters.schema_builds == self.cache@.len()
        &&& self.counters.schema_serializations == self.cache@.len()
        &&& self.counters.schema_token_counts == self.cache@.len()
    }

    /// A plan that remembers nothing.
    pub fn new() -> (r: SchemaProjectionPlan)
        ensures
            r.cache@.len() == 0,
            r.counters == (SchemaProjectionCounters {
                schema_builds: 0,
                schema_serializations: 0,
                schema_token_counts: 0,
                cache_hits: 0,
            }),
    {
        SchemaProjectionPlan {
            cache: Vec::new(),
            counters: SchemaProjectionCounters {
                schema_builds: 0,
                schema_serializations: 0,
                schema_token_counts: 0,
                cache_hits: 0,
            },
        }
    }

    /// Whether a size is remembered with these tokens.
    pub open spec fn knows(self, max_items: usize, tokens: usize) -> bool {
        exists|i: int|
            0 <= i < self.cache@.len() && (#[trigger] self.cache@[i]).max_items == max_items
                && self.cache@[i].tokens == tokens
    }

    fn find(&self, max_items: usize) -> (r: Option<usize>)
        ensures
            match r {
                Some(at) => at < self.cache@.len() && self.cache@[at as int].max_items == max_items,
                None => forall|i: int|
                    0 <= i < self.cache@.len() ==> (#[trigger] self.cache@[i]).max_items
                        != max_items,
            },
    {
        let mut i: usize = 0;
        while i < self.cache.len()
            invariant
                i <= self.cache.len(),
                forall|k: int|
                    0 <= k < i ==> (#[trigger] self.cache@[k]).max_items != max_items,
            decreases self.cache.len() - i,
        {
            if self.cache[i].max_items == max_items {
                return Some(i);
            }
            i += 1;
        }
        None
    }

    /// The tokens of the shape with a number of items, built and counted at most
    /// once.
    pub fn candidate<C: Fn(&str) -> usize>(
        &mut self,
        count: &C,
        value: &JsonValue,
        max_items: usize,
    ) -> (r: usize)
        requires
            counts_all(*count),
            old(self).valid(*count, value@),
            max_items > 0,
        ensures
            final(self).valid(*count, value@),
            schema_counted(*count, value@, max_items, r),
            final(self).knows(max_items, r),
            forall|size: usize, tokens: usize|
                old(self).knows(size, tokens) ==> #[trigger] final(self).knows(size, tokens),
            forall|tokens: usize| old(self).knows(max_items, tokens) ==> tokens == r,
    {
        if let Some(at) = self.find(max_items) {
            self.counters.cache_hits = self.counters.cache_hits.saturating_add(1);
            let tokens: usize = self.cache[at].tokens();
            assert(self.cache@[at as int].tokens == tokens);
            return tokens;
        }
        let ghost before = *self;
        let built = build_schema_breadth_first(value, max_items);
        let serialized = write_json(&built);
        let tokens: usize = crate::fitting::count_tokens(count, serialized.as_str());
        let measured = MeasuredProjection { max_items, value: built, serialized, tokens };
        let ghost added = measured;
        self.cache.push(measured);
        let entries: usize = self.cache.len();
        self.counters.schema_builds = entries;
        self.counters.schema_serializations = entries;
        self.counters.schema_token_counts = entries;
        proof {
            let all = self.cache@;
            assert(all =~= before.cache@.push(added));
            assert forall|i: int| 0 <= i < all.len() implies {
                let known = #[trigger] all[i];
                &&& known.value@ == schema_of(value@, known.max_items as nat)
                &&& known.serialized@ == json_text(known.value@)
                &&& schema_counted(*count, value@, known.max_items, known.tokens)
            } by {
                if i < before.cache@.len() {
                    assert(all[i] == before.cache@[i]);
                } else {
                    assert(all[i] == added);
                }
            }
            assert forall|i: int, j: int| 0 <= i < j < all.len() implies (
            #[trigger] all[i]).max_items != (#[trigger] all[j]).max_items by {
                assert(all[i] == before.cache@[i]);
                if j < before.cache@.len() {
                    assert(all[j] == before.cache@[j]);
                } else {
                    assert(all[j] == added);
                }
            }
            assert(all[all.len() - 1] == added);
            assert forall|size: usize, known: usize| before.knows(
                size,
                known,
            ) implies #[trigger] self.knows(size, known) by {
                let i = choose|i: int|
                    0 <= i < before.cache@.len() && (#[trigger] before.cache@[i]).max_items == size
                        && before.cache@[i].tokens == known;
                assert(all[i] == before.cache@[i]);
            }
        }
        tokens
    }

    /// The shape with a number of items that is remembered.
    fn take(self, max_items: usize) -> (r: Option<JsonValue>)
        ensures
            match r {
                Some(value) => exists|i: int|
                    0 <= i < self.cache@.len() && (#[trigger] self.cache@[i]).max_items == max_items
                        && self.cache@[i].value@ == value@,
                None => forall|i: int|
                    0 <= i < self.cache@.len() ==> (#[trigger] self.cache@[i]).max_items
                        != max_items,
            },
    {
        match self.find(max_items) {
            Some(at) => {
                let mut cache = self.cache;
                let ghost given = cache@;
                let measured = cache.remove(at);
                assert(given[at as int] == measured);
                Some(measured.into_value())
            },
            None => None,
        }
    }
}

/// The largest shape of a value within limits.
#[derive(Debug)]
pub struct SchemaProjection {
    pub value: JsonValue,
    pub total_items: usize,
    pub returned_items: usize,
    pub remaining_items: usize,
    pub incomplete_reason: Option<JsonIncompleteReason>,
    pub projected_tokens: usize,
    pub counters: SchemaProjectionCounters,
}

/// How many items a shape may show at most.
pub open spec fn item_limit(total_items: usize, max_items: usize) -> usize {
    let least = if total_items < max_items {
        total_items
    } else {
        max_items
    };
    if least < 1 {
        1
    } else {
        least
    }
}

/// Whether a shape may be said to be above a number of tokens.
pub open spec fn schema_above<C: Fn(&str) -> usize>(
    count: C,
    value: JsonView,
    max_items: usize,
    max_tokens: usize,
) -> bool {
    exists|tokens: usize|
        tokens > max_tokens && #[trigger] schema_counted(count, value, max_items, tokens)
}

/// Whether a shape is the largest of a value within limits: one with an item
/// more is above the tokens, or the items do not allow it.
pub open spec fn schema_chosen<C: Fn(&str) -> usize>(
    count: C,
    value: JsonView,
    max_items: usize,
    max_tokens: usize,
    out: SchemaProjection,
) -> bool {
    let limit = item_limit(node_count(value), max_items);
    &&& 1 <= out.returned_items <= limit
    &&& out.projected_tokens <= max_tokens
    &&& schema_counted(count, value, out.returned_items, out.projected_tokens)
    &&& out.returned_items < limit ==> schema_above(
        count,
        value,
        (out.returned_items + 1) as usize,
        max_tokens,
    )
    &&& out.value@ == schema_of(value, out.returned_items as nat)
    &&& out.total_items == node_count(value)
    &&& out.remaining_items == if out.returned_items < out.total_items {
        out.total_items - out.returned_items
    } else {
        0
    }
    &&& out.incomplete_reason == if out.remaining_items == 0 {
        None
    } else if out.returned_items < limit {
        Some(JsonIncompleteReason::MaxTokens)
    } else {
        Some(JsonIncompleteReason::MaxItems)
    }
    &&& out.counters.schema_builds == out.counters.schema_serializations
    &&& out.counters.schema_builds == out.counters.schema_token_counts
}

/// Whether `outcome` may come of shaping a value within limits.
pub open spec fn schema_outcome<C: Fn(&str) -> usize>(
    count: C,
    value: JsonView,
    max_items: usize,
    max_tokens: usize,
    outcome: Result<SchemaProjection, Fault>,
) -> bool {
    match outcome {
        Ok(out) => schema_chosen(count, value, max_items, max_tokens, out),
        Err(fault) => {
            &&& schema_above(
                count,
                value,
                item_limit(node_count(value), max_items),
                max_tokens,
            )
            &&& exists|tokens: usize|
                tokens > max_tokens && #[trigger] schema_counted(count, value, 1, tokens) && fault
                    == (Fault::RequestLimitExceeded {
                    field: "one projected JSON item tokens"@,
                    requested: tokens,
                    limit: max_tokens,
                })
        },
    }
}

/// A result, its error as what it says.
pub open spec fn schema_result(r: Result<SchemaProjection, Error>) -> Result<
    SchemaProjection,
    Fault,
> {
    match r {
        Ok(page) => Ok(page),
        Err(e) => Err(e@),
    }
}

fn search_schema<C: Fn(&str) -> usize>(
    plan: &mut SchemaProjectionPlan,
    count: &C,
    value: &JsonValue,
    limit: usize,
    root: usize,
    max_tokens: usize,
) -> (r: (usize, usize))
    requires
        counts_all(*count),
        old(plan).valid(*count, value@),
        old(plan).knows(1, root),
        root <= max_tokens,
        schema_counted(*count, value@, 1, root),
        limit > 1,
        schema_above(*count, value@, limit, max_tokens),
    ensures
        final(plan).valid(*count, value@),
        final(plan).knows(r.0, r.1),
        1 <= r.0 < limit,
        r.1 <= max_tokens,
        schema_counted(*count, value@, r.0, r.1),
        schema_above(*count, value@, (r.0 + 1) as usize, max_tokens),
{
    let mut lower: usize = 1;
    let mut upper: usize = limit - 1;
    let mut best: usize = 1;
    let mut best_tokens: usize = root;
    while lower <= upper
        invariant
            counts_all(*count),
            plan.valid(*count, value@),
            plan.knows(1, root),
            root <= max_tokens,
            1 <= lower <= upper + 1,
            1 <= upper < limit,
            1 <= best < limit,
            best_tokens <= max_tokens,
            plan.knows(best, best_tokens),
            schema_counted(*count, value@, best, best_tokens),
            best == lower - 1 || (best == 1 && lower == 1),
            schema_above(*count, value@, (upper + 1) as usize, max_tokens),
        decreases upper + 1 - lower,
    {
        let middle: usize = lower + (upper - lower) / 2;
        let tokens: usize = plan.candidate(count, value, middle);
        if tokens <= max_tokens {
            lower = middle + 1;
            best = middle;
            best_tokens = tokens;
        } else {
            assert(middle != 1);
            upper = middle - 1;
        }
    }
    (best, best_tokens)
}

fn choose_schema<C: Fn(&str) -> usize>(
    plan: &mut SchemaProjectionPlan,
    count: &C,
    value: &JsonValue,
    limit: usize,
    max_tokens: usize,
) -> (r: Result<(usize, usize), Error>)
    requires
        counts_all(*count),
        old(plan).valid(*count, value@),
        limit >= 1,
    ensures
        final(plan).valid(*count, value@),
        match r {
            Ok((best, tokens)) => {
                &&& final(plan).knows(best, tokens)
                &&& 1 <= best <= limit
                &&& tokens <= max_tokens
                &&& schema_counted(*count, value@, best, tokens)
                &&& best < limit ==> schema_above(
                    *count,
                    value@,
                    (best + 1) as usize,
                    max_tokens,
                )
            },
            Err(e) => {
                &&& schema_above(*count, value@, limit, max_tokens)
                &&& exists|tokens: usize|
                    tokens > max_tokens && #[trigger] schema_counted(*count, value@, 1, tokens)
                        && e@ == (Fault::RequestLimitExceeded {
                        field: "one projected JSON item tokens"@,
                        requested: tokens,
                        limit: max_tokens,
                    })
            },
        },
{
    let first: usize = plan.candidate(count, value, limit);
    if first <= max_tokens {
        return Ok((limit, first));
    }
    assert(schema_above(*count, value@, limit, max_tokens));
    assert(plan.knows(limit, first));
    let root: usize = plan.candidate(count, value, 1);
    if root > max_tokens {
        return Err(
            Error::RequestLimitExceeded {
                field: "one projected JSON item tokens",
                requested: root,
                limit: max_tokens,
            },
        );
    }
    Ok(search_schema(plan, count, value, limit, root, max_tokens))
}

fn take_schema<C: Fn(&str) -> usize>(
    plan: SchemaProjectionPlan,
    value: &JsonValue,
    best: usize,
    count: &C,
) -> (r: JsonValue)
    requires
        plan.valid(*count, value@),
        best > 0,
    ensures
        r@ == schema_of(value@, best as nat),
{
    match plan.take(best) {
        Some(schema) => schema,
        None => build_schema_breadth_first(value, best),
    }
}

/// Shapes a value with as many items as `max_items` and `max_tokens` allow.
pub fn project_schema_page<C: Fn(&str) -> usize>(
    count: &C,
    value: &JsonValue,
    max_items: usize,
    max_tokens: usize,
) -> (r: Result<SchemaProjection, Error>)
    requires
        counts_all(*count),
    ensures
        schema_outcome(*count, value@, max_items, max_tokens, schema_result(r)),
{
    let total_items: usize = count_nodes(value);
    let least: usize = if total_items < max_items {
        total_items
    } else {
        max_items
    };
    let limit: usize = if least < 1 {
        1
    } else {
        least
    };
    assert(limit == item_limit(node_count(value@), max_items));
    let mut plan = SchemaProjectionPlan::new();
    let (best, tokens) = match choose_schema(&mut plan, count, value, limit, max_tokens) {
        Ok(chosen) => chosen,
        Err(e) => {
            return Err(e);
        },
    };
    let counters = plan.counters;
    let schema = take_schema(plan, value, best, count);
    let remaining_items: usize = total_items.saturating_sub(best);
    let incomplete_reason = if remaining_items == 0 {
        None
    } else if best < limit {
        Some(JsonIncompleteReason::MaxTokens)
    } else {
        Some(JsonIncompleteReason::MaxItems)
    };
    Ok(
        SchemaProjection {
            value: schema,
            total_items,
            returned_items: best,
            remaining_items,
            incomplete_reason,
            projected_tokens: tokens,
            counters,
        },
    )
}

} // verus!
