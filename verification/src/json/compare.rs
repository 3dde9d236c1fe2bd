//! Comparing what selectors select of two JSON files.

use crate::cancellation::{answered, check_cancelled, stopped};
use crate::error::{Error, Fault};
use crate::fitting::{counted_as, counts_all};
use crate::json::execution::{
    load_file, load_said, loads_all, operation_result, schema_said, select_said, smaller,
    JsonLimits, JsonOperationResult, JsonPorts, OperationResultView,
};
use crate::json::jmespath::SelectorFailure;
use crate::json::key_page::JsonIncompleteReason;
use crate::json::project::{project_json, projected, projected_count, projection_item_count};
use crate::json::projection::{total, JsonProjection, ProjectionState};
use crate::json::response::{
    value_view, FieldDiffView, JsonFieldDiff, JsonResponse, JsonResponseView,
};
use crate::json::schema_page::{project_schema_page, SchemaProjection};
use crate::json::selection::{
    finds_all, reads_all, select_json, selected_result, ParsedJsonSelector, SelectedJson,
    SelectorView,
};
use crate::json::source::{json_tokens, JsonSource, LoadedJson, LoadedView, SourceView};
use crate::json::value::JsonValue;
use crate::json::view::{json_text, JsonView};
use crate::model::ResponseMeta;
use crate::ordered::views;
use crate::services::Services;
use crate::text::copy_text;
use tokio_util::sync::CancellationToken;
use vstd::prelude::*;

verus! {

/// What a comparison counted so far, and what is left to take.
#[derive(Debug, Clone, Copy, PartialEq, Eq, Structural)]
pub struct DiffTally {
    pub state: ProjectionState,
    pub total_items: usize,
    pub returned_items: usize,
    pub remaining_items: usize,
    pub projected_tokens: usize,
    pub incomplete: bool,
}

/// A tally with which a comparison starts.
pub open spec fn fresh_tally(limits: JsonLimits) -> DiffTally {
    DiffTally {
        state: ProjectionState {
            remaining: limits.max_items,
            array_sample_size: limits.array_sample_size,
            complete: true,
        },
        total_items: 0,
        returned_items: 0,
        remaining_items: 0,
        projected_tokens: 0,
        incomplete: false,
    }
}

/// What is left of a number after some of it.
pub open spec fn rest_of(whole: usize, used: usize) -> usize {
    if whole > used {
        (whole - used) as usize
    } else {
        0
    }
}

/// A tally that counts the items of what was selected on one side.
pub open spec fn side_tallied(
    tally: DiffTally,
    side: Option<JsonView>,
    projection: JsonProjection,
    sample: usize,
) -> DiffTally {
    match side {
        Some(value) => DiffTally {
            total_items: total(
                tally.total_items,
                projected_count(value, projection, sample) as usize,
            ),
            ..tally
        },
        None => tally,
    }
}

/// What is shown of a shape, and the tally after it.
pub open spec fn shape_shown(page: Result<SchemaProjection, Error>, before: DiffTally) -> Result<
    (Option<JsonView>, DiffTally),
    Fault,
> {
    match page {
        Ok(page) => Ok(
            (
                Some(page.value@),
                DiffTally {
                    returned_items: total(before.returned_items, page.returned_items),
                    remaining_items: total(before.remaining_items, page.remaining_items),
                    projected_tokens: total(before.projected_tokens, page.projected_tokens),
                    incomplete: before.incomplete || page.incomplete_reason is Some,
                    ..before
                },
            ),
        ),
        Err(e) => Err(e@),
    }
}

/// Whether the shape of a value may be shown so, within what is left. Where
/// nothing is left it is not shown.
pub open spec fn shape_side_shown<C: Fn(&str) -> usize>(
    count: C,
    value: JsonView,
    limits: JsonLimits,
    before: DiffTally,
    outcome: Result<(Option<JsonView>, DiffTally), Fault>,
) -> bool {
    let items = rest_of(limits.max_items, before.returned_items);
    let tokens = rest_of(limits.max_tokens, before.projected_tokens);
    if items == 0 || tokens == 0 {
        outcome == Ok::<(Option<JsonView>, DiffTally), Fault>((None, before))
    } else {
        exists|page: Result<SchemaProjection, Error>| #[trigger]
            schema_said(count, value, items, tokens, page) && outcome == shape_shown(page, before)
    }
}

/// Whether what was selected on one side may be shown so.
pub open spec fn side_shown<C: Fn(&str) -> usize>(
    count: C,
    side: Option<JsonView>,
    projection: JsonProjection,
    limits: JsonLimits,
    before: DiffTally,
    outcome: Result<(Option<JsonView>, DiffTally), Fault>,
) -> bool {
    match side {
        None => outcome == Ok::<(Option<JsonView>, DiffTally), Fault>((None, before)),
        Some(value) => if projection == JsonProjection::Schema {
            shape_side_shown(count, value, limits, before, outcome)
        } else {
            let shown = projected(value, projection, before.state);
            outcome == match shown.0 {
                Ok(view) => Ok::<(Option<JsonView>, DiffTally), Fault>(
                    (Some(view), DiffTally { state: shown.1, ..before }),
                ),
                Err(fault) => Err(fault),
            }
        },
    }
}

/// Whether the tokens of what is shown on one side may be added so. Those of a
/// shape are counted where it is shown.
pub open spec fn side_counted<C: Fn(&str) -> usize>(
    count: C,
    shown: Option<JsonView>,
    projection: JsonProjection,
    before: usize,
    after: usize,
) -> bool {
    match shown {
        Some(view) if projection != JsonProjection::Schema => exists|tokens: usize| #[trigger]
            counted_as(count, json_text(view), tokens) && after == total(before, tokens),
        _ => after == before,
    }
}

/// Whether both sides may be shown so, one after the other.
pub open spec fn sides_shown<C: Fn(&str) -> usize>(
    count: C,
    old_side: Option<JsonView>,
    new_side: Option<JsonView>,
    projection: JsonProjection,
    limits: JsonLimits,
    before: DiffTally,
    diff: FieldDiffView,
    first: DiffTally,
    second: DiffTally,
) -> bool {
    &&& side_shown(count, old_side, projection, limits, before, Ok((diff.before, first)))
    &&& side_shown(count, new_side, projection, limits, first, Ok((diff.after, second)))
}

/// Whether the tokens of both sides may be counted so.
pub open spec fn sides_counted<C: Fn(&str) -> usize>(
    count: C,
    diff: FieldDiffView,
    projection: JsonProjection,
    before: usize,
    after: usize,
) -> bool {
    exists|middle: usize| #[trigger]
        side_counted(count, diff.before, projection, before, middle) && side_counted(
            count,
            diff.after,
            projection,
            middle,
            after,
        )
}

/// Whether both sides may be shown and counted so.
pub open spec fn sides_settled<C: Fn(&str) -> usize>(
    count: C,
    old_side: Option<JsonView>,
    new_side: Option<JsonView>,
    projection: JsonProjection,
    limits: JsonLimits,
    before: DiffTally,
    diff: FieldDiffView,
    after: DiffTally,
) -> bool {
    exists|first: DiffTally, second: DiffTally| #[trigger]
        sides_shown(
            count,
            old_side,
            new_side,
            projection,
            limits,
            before,
            diff,
            first,
            second,
        ) && after == (DiffTally { projected_tokens: after.projected_tokens, ..second })
            && sides_counted(
            count,
            diff,
            projection,
            second.projected_tokens,
            after.projected_tokens,
        )
}

/// The tally with the items of both sides counted.
pub open spec fn both_tallied(
    tally: DiffTally,
    old_side: Option<JsonView>,
    new_side: Option<JsonView>,
    projection: JsonProjection,
    sample: usize,
) -> DiffTally {
    side_tallied(side_tallied(tally, old_side, projection, sample), new_side, projection, sample)
}

/// Whether the difference between two sides may be `diff`, and the tally after it
/// `after`.
pub open spec fn sides_compared<C: Fn(&str) -> usize>(
    count: C,
    old_side: Option<JsonView>,
    new_side: Option<JsonView>,
    selector: SelectorView,
    projection: JsonProjection,
    limits: JsonLimits,
    before: DiffTally,
    diff: FieldDiffView,
    after: DiffTally,
) -> bool {
    &&& diff.selector == selector
    &&& diff.before_present == (old_side is Some)
    &&& diff.after_present == (new_side is Some)
    &&& diff.changed == (old_side != new_side)
    &&& sides_settled(
        count,
        old_side,
        new_side,
        projection,
        limits,
        both_tallied(before, old_side, new_side, projection, limits.array_sample_size),
        diff,
        after,
    )
}

/// What is compared: two values, by what selects of them.
pub struct Compared {
    pub old_value: JsonView,
    pub new_value: JsonView,
    pub projection: JsonProjection,
    pub limits: JsonLimits,
}

/// Whether a selector may select so of both values.
pub open spec fn both_selected<
    Q: Fn(&str, &str) -> Result<String, SelectorFailure>,
    R: Fn(&str) -> Result<JsonValue, Error>,
>(
    search: Q,
    read: R,
    pair: Compared,
    selector: SelectorView,
    old_side: Result<SelectedJson, Error>,
    new_side: Result<SelectedJson, Error>,
) -> bool {
    &&& select_said(pair.old_value, Some(selector), search, read, old_side)
    &&& select_said(pair.new_value, Some(selector), search, read, new_side)
}

/// Whether one selector may be compared so.
pub open spec fn field_compared<
    C: Fn(&str) -> usize,
    Q: Fn(&str, &str) -> Result<String, SelectorFailure>,
    R: Fn(&str) -> Result<JsonValue, Error>,
>(
    count: C,
    search: Q,
    read: R,
    pair: Compared,
    selector: SelectorView,
    before: DiffTally,
    diff: FieldDiffView,
    after: DiffTally,
) -> bool {
    exists|old_side: Result<SelectedJson, Error>, new_side: Result<SelectedJson, Error>| #[trigger]
        both_selected(search, read, pair, selector, old_side, new_side) && old_side is Ok
            && new_side is Ok && sides_compared(
            count,
            old_side->Ok_0@,
            new_side->Ok_0@,
            selector,
            pair.projection,
            pair.limits,
            before,
            diff,
            after,
        )
}

/// Whether showing two sides may fail with a fault.
pub open spec fn sides_unshown<C: Fn(&str) -> usize>(
    count: C,
    old_side: Option<JsonView>,
    new_side: Option<JsonView>,
    projection: JsonProjection,
    limits: JsonLimits,
    before: DiffTally,
    fault: Fault,
) -> bool {
    ||| side_shown(count, old_side, projection, limits, before, Err(fault))
    ||| exists|shown: Option<JsonView>, first: DiffTally| #[trigger]
        side_shown(count, old_side, projection, limits, before, Ok((shown, first))) && side_shown(
            count,
            new_side,
            projection,
            limits,
            first,
            Err(fault),
        )
}

/// Whether comparing one selector may fail with a fault.
pub open spec fn field_refused<
    C: Fn(&str) -> usize,
    Q: Fn(&str, &str) -> Result<String, SelectorFailure>,
    R: Fn(&str) -> Result<JsonValue, Error>,
>(
    count: C,
    search: Q,
    read: R,
    pair: Compared,
    selector: SelectorView,
    before: DiffTally,
    fault: Fault,
) -> bool {
    ||| exists|said: Result<SelectedJson, Error>| #[trigger]
        select_said(pair.old_value, Some(selector), search, read, said) && selected_result(said)
            == Err::<Option<JsonView>, Fault>(fault)
    ||| exists|said: Result<SelectedJson, Error>| #[trigger]
        select_said(pair.new_value, Some(selector), search, read, said) && selected_result(said)
            == Err::<Option<JsonView>, Fault>(fault)
    ||| exists|old_side: Result<SelectedJson, Error>, new_side: Result<SelectedJson, Error>|
        #[trigger]
        both_selected(search, read, pair, selector, old_side, new_side) && old_side is Ok
            && new_side is Ok && sides_unshown(
            count,
            old_side->Ok_0@,
            new_side->Ok_0@,
            pair.projection,
            pair.limits,
            both_tallied(
                before,
                old_side->Ok_0@,
                new_side->Ok_0@,
                pair.projection,
                pair.limits.array_sample_size,
            ),
            fault,
        )
}

/// Whether the first selectors may be compared so, with these tallies before and
/// after them.
pub open spec fn fields_compared<
    C: Fn(&str) -> usize,
    Q: Fn(&str, &str) -> Result<String, SelectorFailure>,
    R: Fn(&str) -> Result<JsonValue, Error>,
>(
    count: C,
    search: Q,
    read: R,
    pair: Compared,
    selectors: Seq<SelectorView>,
    diffs: Seq<FieldDiffView>,
    tallies: Seq<DiffTally>,
) -> bool {
    &&& diffs.len() <= selectors.len()
    &&& tallies.len() == diffs.len() + 1
    &&& tallies[0] == fresh_tally(pair.limits)
    &&& forall|i: int|
        0 <= i < diffs.len() ==> field_compared(
            count,
            search,
            read,
            pair,
            selectors[i],
            tallies[i],
            #[trigger] diffs[i],
            tallies[i + 1],
        )
}

/// A tally at the end of a comparison.
pub open spec fn tally_finished(
    tally: DiffTally,
    projection: JsonProjection,
    max_items: usize,
) -> DiffTally {
    if projection == JsonProjection::Schema {
        tally
    } else {
        DiffTally {
            returned_items: smaller(tally.total_items, max_items),
            remaining_items: (tally.total_items - smaller(tally.total_items, max_items)) as usize,
            incomplete: !tally.state.complete,
            ..tally
        }
    }
}

/// The answer to a comparison. Numbers of items are told where it is not complete.
pub open spec fn comparison_view(
    old_source: SourceView,
    new_source: SourceView,
    diffs: Seq<FieldDiffView>,
    tally: DiffTally,
    meta: ResponseMeta,
) -> JsonResponseView {
    JsonResponseView {
        kind: "diff_fields"@,
        value: None,
        numeric_summary: None,
        differences: diffs,
        sources: seq![old_source, new_source],
        result_complete: !tally.incomplete,
        total_items: if tally.incomplete {
            Some(tally.total_items)
        } else {
            None
        },
        returned_items: if tally.incomplete {
            Some(tally.returned_items)
        } else {
            None
        },
        remaining_items: if tally.incomplete {
            Some(tally.remaining_items)
        } else {
            None
        },
        incomplete_reason: if tally.incomplete {
            Some(JsonIncompleteReason::MaxItems)
        } else {
            None
        },
        meta: ResponseMeta { next_cursor: None, ..meta },
    }
}

/// Whether a comparison of two files may be answered so.
pub open spec fn files_compared<
    C: Fn(&str) -> usize,
    Q: Fn(&str, &str) -> Result<String, SelectorFailure>,
    R: Fn(&str) -> Result<JsonValue, Error>,
>(
    count: C,
    search: Q,
    read: R,
    old_file: LoadedView,
    new_file: LoadedView,
    selectors: Seq<SelectorView>,
    projection: JsonProjection,
    limits: JsonLimits,
    meta: ResponseMeta,
    outcome: Result<OperationResultView, Fault>,
) -> bool {
    let pair = Compared {
        old_value: old_file.value,
        new_value: new_file.value,
        projection,
        limits,
    };
    match outcome {
        Ok(out) => exists|tallies: Seq<DiffTally>| #[trigger]
            fields_compared(
                count,
                search,
                read,
                pair,
                selectors,
                out.response.differences,
                tallies,
            ) && out.response.differences.len() == selectors.len() && out == (OperationResultView {
                response: comparison_view(
                    old_file.source,
                    new_file.source,
                    out.response.differences,
                    tally_finished(tallies.last(), projection, limits.max_items),
                    meta,
                ),
                baseline_source_tokens: total(old_file.source_tokens, new_file.source_tokens),
                projected_tokens: tallies.last().projected_tokens,
                key_response_fit: None,
            }),
        Err(fault) => exists|diffs: Seq<FieldDiffView>, tallies: Seq<DiffTally>| #[trigger]
            fields_compared(count, search, read, pair, selectors, diffs, tallies) && diffs.len()
                < selectors.len() && field_refused(
                count,
                search,
                read,
                pair,
                selectors[diffs.len() as int],
                tallies.last(),
                fault,
            ),
    }
}

/// Whether a comparison may be answered so, unless it was cancelled.
pub open spec fn comparison_answered<
    L: Fn(&str) -> Result<LoadedJson, Error>,
    C: Fn(&str) -> usize,
    S,
    Q: Fn(&str, &str) -> Result<String, SelectorFailure>,
    R: Fn(&str) -> Result<JsonValue, Error>,
    N,
>(
    ports: JsonPorts<L, C, S, Q, R, N>,
    base_path: Seq<char>,
    head_path: Seq<char>,
    selectors: Seq<SelectorView>,
    projection: JsonProjection,
    limits: JsonLimits,
    meta: ResponseMeta,
    outcome: Result<OperationResultView, Fault>,
) -> bool {
    exists|old_file: Result<LoadedJson, Error>| #[trigger]
        load_said(ports.load, base_path, old_file) && match old_file {
            Err(e) => outcome == Err::<OperationResultView, Fault>(e@),
            Ok(old_file) => head_compared(
                ports,
                old_file@,
                head_path,
                selectors,
                projection,
                limits,
                meta,
                outcome,
            ),
        }
}

/// Whether a comparison with a head may be answered so.
pub open spec fn head_compared<
    L: Fn(&str) -> Result<LoadedJson, Error>,
    C: Fn(&str) -> usize,
    S,
    Q: Fn(&str, &str) -> Result<String, SelectorFailure>,
    R: Fn(&str) -> Result<JsonValue, Error>,
    N,
>(
    ports: JsonPorts<L, C, S, Q, R, N>,
    old_file: LoadedView,
    head_path: Seq<char>,
    selectors: Seq<SelectorView>,
    projection: JsonProjection,
    limits: JsonLimits,
    meta: ResponseMeta,
    outcome: Result<OperationResultView, Fault>,
) -> bool {
    exists|new_file: Result<LoadedJson, Error>| #[trigger]
        load_said(ports.load, head_path, new_file) && match new_file {
            Err(e) => outcome == Err::<OperationResultView, Fault>(e@),
            Ok(new_file) => files_compared(
                ports.count,
                ports.search,
                ports.read,
                old_file,
                new_file@,
                selectors,
                projection,
                limits,
                meta,
                outcome,
            ),
        }
}

/// A result of showing a side, as what it says.
pub open spec fn shown_result(r: Result<(Option<JsonValue>, DiffTally), Error>) -> Result<
    (Option<JsonView>, DiffTally),
    Fault,
> {
    match r {
        Ok(shown) => Ok((value_view(shown.0), shown.1)),
        Err(e) => Err(e@),
    }
}

/// What was selected, as what it says.
pub open spec fn side_view(side: Option<&JsonValue>) -> Option<JsonView> {
    match side {
        Some(value) => Some(value@),
        None => None,
    }
}

fn show_side<C: Fn(&str) -> usize>(
    count: &C,
    side: Option<&JsonValue>,
    projection: JsonProjection,
    limits: JsonLimits,
    before: DiffTally,
) -> (r: Result<(Option<JsonValue>, DiffTally), Error>)
    requires
        counts_all(*count),
    ensures
        side_shown(*count, side_view(side), projection, limits, before, shown_result(r)),
{
    let value = match side {
        Some(value) => value,
        None => {
            return Ok((None, before));
        },
    };
    if projection == JsonProjection::Schema {
        let items: usize = limits.max_items.saturating_sub(before.returned_items);
        let tokens: usize = limits.max_tokens.saturating_sub(before.projected_tokens);
        assert(items == rest_of(limits.max_items, before.returned_items));
        assert(tokens == rest_of(limits.max_tokens, before.projected_tokens));
        if items == 0 || tokens == 0 {
            return Ok((None, before));
        }
        let page = project_schema_page(count, value, items, tokens);
        let ghost told = page;
        assert(schema_said(*count, value@, items, tokens, told));
        match page {
            Ok(page) => {
                let after = DiffTally {
                    state: before.state,
                    total_items: before.total_items,
                    returned_items: before.returned_items.saturating_add(page.returned_items),
                    remaining_items: before.remaining_items.saturating_add(page.remaining_items),
                    projected_tokens: before.projected_tokens.saturating_add(
                        page.projected_tokens,
                    ),
                    incomplete: before.incomplete || page.incomplete_reason.is_some(),
                };
                let r: Result<(Option<JsonValue>, DiffTally), Error> = Ok((Some(page.value), after));
                assert(shown_result(r) == shape_shown(told, before));
                r
            },
            Err(e) => {
                let r: Result<(Option<JsonValue>, DiffTally), Error> = Err(e);
                assert(shown_result(r) == shape_shown(told, before));
                r
            },
        }
    } else {
        let mut state = before.state;
        match project_json(value, projection, &mut state) {
            Ok(shown) => {
                let after = DiffTally {
                    state,
                    total_items: before.total_items,
                    returned_items: before.returned_items,
                    remaining_items: before.remaining_items,
                    projected_tokens: before.projected_tokens,
                    incomplete: before.incomplete,
                };
                Ok((Some(shown), after))
            },
            Err(e) => Err(e),
        }
    }
}

fn count_side<C: Fn(&str) -> usize>(
    count: &C,
    shown: &Option<JsonValue>,
    projection: JsonProjection,
    before: usize,
) -> (r: usize)
    requires
        counts_all(*count),
    ensures
        side_counted(*count, value_view(*shown), projection, before, r),
{
    match shown {
        Some(value) => {
            if projection == JsonProjection::Schema {
                return before;
            }
            let tokens: usize = json_tokens(count, value);
            assert(counted_as(*count, json_text(value@), tokens));
            before.saturating_add(tokens)
        },
        None => before,
    }
}

fn tally_side(
    tally: DiffTally,
    side: Option<&JsonValue>,
    projection: JsonProjection,
    sample: usize,
) -> (r: DiffTally)
    ensures
        r == side_tallied(tally, side_view(side), projection, sample),
{
    match side {
        Some(value) => {
            let items: usize = projection_item_count(value, projection, sample);
            DiffTally {
                state: tally.state,
                total_items: tally.total_items.saturating_add(items),
                returned_items: tally.returned_items,
                remaining_items: tally.remaining_items,
                projected_tokens: tally.projected_tokens,
                incomplete: tally.incomplete,
            }
        },
        None => tally,
    }
}

fn sides_differ(old_side: Option<&JsonValue>, new_side: Option<&JsonValue>) -> (r: bool)
    ensures
        r == (side_view(old_side) != side_view(new_side)),
{
    match (old_side, new_side) {
        (Some(a), Some(b)) => !a.same(b),
        (None, None) => false,
        _ => true,
    }
}

fn compare_sides<C: Fn(&str) -> usize>(
    count: &C,
    old_side: &SelectedJson,
    new_side: &SelectedJson,
    selector: ParsedJsonSelector,
    projection: JsonProjection,
    limits: JsonLimits,
    before: DiffTally,
) -> (r: Result<(JsonFieldDiff, DiffTally), Error>)
    requires
        counts_all(*count),
    ensures
        match r {
            Ok(step) => sides_compared(
                *count,
                old_side@,
                new_side@,
                selector@,
                projection,
                limits,
                before,
                step.0@,
                step.1,
            ),
            Err(e) => sides_unshown(
                *count,
                old_side@,
                new_side@,
                projection,
                limits,
                both_tallied(before, old_side@, new_side@, projection, limits.array_sample_size),
                e@,
            ),
        },
{
    let changed = sides_differ(old_side.value(), new_side.value());
    let sample: usize = limits.array_sample_size;
    let tally = tally_side(before, old_side.value(), projection, sample);
    let tally = tally_side(tally, new_side.value(), projection, sample);
    let (old_shown, first) = match show_side(count, old_side.value(), projection, limits, tally) {
        Ok(shown) => shown,
        Err(e) => {
            return Err(e);
        },
    };
    assert(side_shown(
        *count,
        old_side@,
        projection,
        limits,
        tally,
        Ok((value_view(old_shown), first)),
    ));
    let (new_shown, second) = match show_side(count, new_side.value(), projection, limits, first) {
        Ok(shown) => shown,
        Err(e) => {
            return Err(e);
        },
    };
    let middle: usize = count_side(count, &old_shown, projection, second.projected_tokens);
    let tokens: usize = count_side(count, &new_shown, projection, middle);
    let after = DiffTally {
        state: second.state,
        total_items: second.total_items,
        returned_items: second.returned_items,
        remaining_items: second.remaining_items,
        projected_tokens: tokens,
        incomplete: second.incomplete,
    };
    let diff = JsonFieldDiff {
        selector: selector.into_wire(),
        before_present: old_side.is_present(),
        before: old_shown,
        after_present: new_side.is_present(),
        after: new_shown,
        changed,
    };
    proof {
        assert(side_counted(
            *count,
            diff@.before,
            projection,
            second.projected_tokens,
            middle,
        ));
        assert(sides_counted(*count, diff@, projection, second.projected_tokens, tokens));
        assert(sides_shown(
            *count,
            old_side@,
            new_side@,
            projection,
            limits,
            tally,
            diff@,
            first,
            second,
        ));
        assert(sides_settled(
            *count,
            old_side@,
            new_side@,
            projection,
            limits,
            tally,
            diff@,
            after,
        ));
    }
    Ok((diff, after))
}

fn compare_field<
    C: Fn(&str) -> usize,
    Q: Fn(&str, &str) -> Result<String, SelectorFailure>,
    R: Fn(&str) -> Result<JsonValue, Error>,
>(
    count: &C,
    search: &Q,
    read: &R,
    old_value: &JsonValue,
    new_value: &JsonValue,
    selector: ParsedJsonSelector,
    projection: JsonProjection,
    limits: JsonLimits,
    before: DiffTally,
) -> (r: Result<(JsonFieldDiff, DiffTally), Error>)
    requires
        counts_all(*count),
        finds_all(*search),
        reads_all(*read),
    ensures
        ({
            let pair = Compared {
                old_value: old_value@,
                new_value: new_value@,
                projection,
                limits,
            };
            match r {
                Ok(step) => field_compared(
                    *count,
                    *search,
                    *read,
                    pair,
                    selector@,
                    before,
                    step.0@,
                    step.1,
                ),
                Err(e) => field_refused(*count, *search, *read, pair, selector@, before, e@),
            }
        }),
{
    let ghost pair = Compared {
        old_value: old_value@,
        new_value: new_value@,
        projection,
        limits,
    };
    let old_said = select_json(old_value, Some(&selector), search, read);
    let ghost one = old_said;
    assert(select_said(pair.old_value, Some(selector@), *search, *read, one));
    let old_side = match old_said {
        Ok(side) => side,
        Err(e) => {
            return Err(e);
        },
    };
    let new_said = select_json(new_value, Some(&selector), search, read);
    let ghost two = new_said;
    assert(select_said(pair.new_value, Some(selector@), *search, *read, two));
    let new_side = match new_said {
        Ok(side) => side,
        Err(e) => {
            return Err(e);
        },
    };
    assert(both_selected(*search, *read, pair, selector@, one, two));
    compare_sides(count, &old_side, &new_side, selector, projection, limits, before)
}

fn compare_fields<
    C: Fn(&str) -> usize,
    Q: Fn(&str, &str) -> Result<String, SelectorFailure>,
    R: Fn(&str) -> Result<JsonValue, Error>,
>(
    count: &C,
    search: &Q,
    read: &R,
    old_value: &JsonValue,
    new_value: &JsonValue,
    selectors: Vec<ParsedJsonSelector>,
    projection: JsonProjection,
    limits: JsonLimits,
    cancellation: &CancellationToken,
) -> (r: (Result<(Vec<JsonFieldDiff>, DiffTally), Error>, Ghost<Seq<FieldDiffView>>, Ghost<Seq<DiffTally>>))
    requires
        counts_all(*count),
        finds_all(*search),
        reads_all(*read),
    ensures
        r.0 is Ok && selectors@.len() > 0 ==> answered(*cancellation, false),
        ({
            let pair = Compared {
                old_value: old_value@,
                new_value: new_value@,
                projection,
                limits,
            };
            let all = views(selectors@);
            &&& fields_compared(*count, *search, *read, pair, all, r.1@, r.2@)
            &&& match r.0 {
                Ok(done) => views(done.0@) == r.1@ && r.1@.len() == all.len() && done.1
                    == r.2@.last(),
                Err(e) => stopped(e, *cancellation) || (r.1@.len() < all.len() && field_refused(
                    *count,
                    *search,
                    *read,
                    pair,
                    all[r.1@.len() as int],
                    r.2@.last(),
                    e@,
                )),
            }
        }),
{
    let ghost pair = Compared {
        old_value: old_value@,
        new_value: new_value@,
        projection,
        limits,
    };
    let ghost all = views(selectors@);
    let ghost given = selectors@;
    let mut tally = DiffTally {
        state: ProjectionState::new(limits.max_items, limits.array_sample_size),
        total_items: 0,
        returned_items: 0,
        remaining_items: 0,
        projected_tokens: 0,
        incomplete: false,
    };
    let mut differences: Vec<JsonFieldDiff> = Vec::new();
    let ghost mut tallies = seq![tally];
    let mut rest = selectors;
    let asked: usize = rest.len();
    let mut i: usize = 0;
    assert(rest@ =~= given.subrange(0, given.len() as int));
    while i < asked
        invariant
            counts_all(*count),
            finds_all(*search),
            reads_all(*read),
            i <= asked,
            asked == given.len(),
            given == selectors@,
            all == views(given),
            pair == (Compared {
                old_value: old_value@,
                new_value: new_value@,
                projection,
                limits,
            }),
            rest@ == given.subrange(i as int, given.len() as int),
            differences@.len() == i,
            fields_compared(
                *count,
                *search,
                *read,
                pair,
                all,
                views(differences@),
                tallies,
            ),
            tally == tallies.last(),
            i > 0 ==> answered(*cancellation, false),
        decreases asked - i,
    {
        if let Err(e) = check_cancelled(cancellation) {
            return (Err(e), Ghost(views(differences@)), Ghost(tallies));
        }
        let selector = rest.remove(0);
        assert(selector == given[i as int]);
        assert(all[i as int] == selector@);
        let ghost before = views(differences@);
        let step = compare_field(
            count,
            search,
            read,
            old_value,
            new_value,
            selector,
            projection,
            limits,
            tally,
        );
        match step {
            Ok((diff, after)) => {
                let ghost added = diff@;
                differences.push(diff);
                tally = after;
                proof {
                    let more = tallies.push(after);
                    let shown = views(differences@);
                    assert(shown =~= before.push(added));
                    assert forall|k: int| 0 <= k < shown.len() implies field_compared(
                        *count,
                        *search,
                        *read,
                        pair,
                        all[k],
                        more[k],
                        #[trigger] shown[k],
                        more[k + 1],
                    ) by {
                        if k < before.len() {
                            assert(shown[k] == before[k]);
                            assert(more[k] == tallies[k]);
                            assert(more[k + 1] == tallies[k + 1]);
                        } else {
                            assert(shown[k] == added);
                            assert(more[k] == tallies.last());
                        }
                    }
                    tallies = more;
                }
            },
            Err(e) => {
                return (Err(e), Ghost(before), Ghost(tallies));
            },
        }
        assert(rest@ =~= given.subrange(i + 1, given.len() as int));
        i += 1;
    }
    let ghost shown = views(differences@);
    (Ok((differences, tally)), Ghost(shown), Ghost(tallies))
}

fn finish_tally(tally: DiffTally, projection: JsonProjection, max_items: usize) -> (r: DiffTally)
    ensures
        r == tally_finished(tally, projection, max_items),
{
    if projection == JsonProjection::Schema {
        return tally;
    }
    let returned_items: usize = if tally.total_items < max_items {
        tally.total_items
    } else {
        max_items
    };
    DiffTally {
        state: tally.state,
        total_items: tally.total_items,
        returned_items,
        remaining_items: tally.total_items - returned_items,
        projected_tokens: tally.projected_tokens,
        incomplete: !tally.state.is_complete(),
    }
}

fn comparison_response(
    old_source: JsonSource,
    new_source: JsonSource,
    differences: Vec<JsonFieldDiff>,
    tally: DiffTally,
    meta: ResponseMeta,
) -> (r: JsonResponse)
    ensures
        r@ == comparison_view(old_source@, new_source@, views(differences@), tally, meta),
{
    let ghost one = old_source@;
    let ghost two = new_source@;
    let mut sources: Vec<JsonSource> = Vec::new();
    sources.push(old_source);
    sources.push(new_source);
    assert(views(sources@) =~= seq![one, two]);
    let mut meta = meta;
    meta.next_cursor = None;
    let (total_items, returned_items, remaining_items, incomplete_reason) = if tally.incomplete {
        (
            Some(tally.total_items),
            Some(tally.returned_items),
            Some(tally.remaining_items),
            Some(JsonIncompleteReason::MaxItems),
        )
    } else {
        (None, None, None, None)
    };
    JsonResponse {
        kind: copy_text("diff_fields"),
        value: None,
        numeric_summary: None,
        differences,
        sources,
        result_complete: !tally.incomplete,
        total_items,
        returned_items,
        remaining_items,
        incomplete_reason,
        meta,
    }
}

impl Services {
    /// Compares what selectors select of two files.
    pub fn execute_json_diff<
        L: Fn(&str) -> Result<LoadedJson, Error>,
        C: Fn(&str) -> usize,
        S,
        Q: Fn(&str, &str) -> Result<String, SelectorFailure>,
        R: Fn(&str) -> Result<JsonValue, Error>,
        N,
    >(
        ports: &JsonPorts<L, C, S, Q, R, N>,
        base_path: &str,
        head_path: &str,
        selectors: Vec<ParsedJsonSelector>,
        projection: JsonProjection,
        limits: JsonLimits,
        meta: ResponseMeta,
        cancellation: &CancellationToken,
    ) -> (r: Result<JsonOperationResult, Error>)
        requires
            loads_all(ports.load),
            counts_all(ports.count),
            finds_all(ports.search),
            reads_all(ports.read),
        ensures
            r is Ok ==> answered(*cancellation, false),
            (r is Err && stopped(r->Err_0, *cancellation)) || comparison_answered(
                *ports,
                base_path@,
                head_path@,
                views(selectors@),
                projection,
                limits,
                meta,
                operation_result(r),
            ),
    {
        let old_loaded = load_file(&ports.load, base_path);
        let ghost one = old_loaded;
        assert(load_said(ports.load, base_path@, one));
        let before = match old_loaded {
            Ok(file) => file,
            Err(e) => {
                return Err(e);
            },
        };
        if let Err(e) = check_cancelled(cancellation) {
            return Err(e);
        }
        let new_loaded = load_file(&ports.load, head_path);
        let ghost two = new_loaded;
        assert(load_said(ports.load, head_path@, two));
        let ghost all = views(selectors@);
        let ghost given = meta;
        let after = match new_loaded {
            Ok(file) => file,
            Err(e) => {
                assert(head_compared(
                    *ports,
                    before@,
                    head_path@,
                    all,
                    projection,
                    limits,
                    given,
                    Err(e@),
                ));
                return Err(e);
            },
        };
        let ghost old_view = before@;
        let ghost new_view = after@;
        let baseline: usize = before.source_tokens().saturating_add(after.source_tokens());
        let (compared, Ghost(diffs), Ghost(tallies)) = compare_fields(
            &ports.count,
            &ports.search,
            &ports.read,
            before.value(),
            after.value(),
            selectors,
            projection,
            limits,
            cancellation,
        );
        let r = match compared {
            Ok((differences, tally)) => {
                let projected_tokens: usize = tally.projected_tokens;
                let tally = finish_tally(tally, projection, limits.max_items);
                let response = comparison_response(
                    before.into_source(),
                    after.into_source(),
                    differences,
                    tally,
                    meta,
                );
                Ok(
                    JsonOperationResult {
                        response,
                        baseline_source_tokens: baseline,
                        projected_tokens,
                        key_response_fit: None,
                    },
                )
            },
            Err(e) => Err(e),
        };
        proof {
            if !(r is Err && stopped(r->Err_0, *cancellation)) {
                assert(files_compared(
                    ports.count,
                    ports.search,
                    ports.read,
                    old_view,
                    new_view,
                    all,
                    projection,
                    limits,
                    given,
                    operation_result(r),
                ));
                assert(head_compared(
                    *ports,
                    old_view,
                    head_path@,
                    all,
                    projection,
                    limits,
                    given,
                    operation_result(r),
                ));
            }
        }
        r
    }
}

} // verus!
