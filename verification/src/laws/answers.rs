//! What answers are made of.

use crate::accounting::ServiceCallOptions;
use crate::context::delivery::{focus_blocker, over_fault};
use crate::context::finalize::{decoration_of, reserves_for};
use crate::context::policy::ContextPolicy;
use crate::json::dispatch::limits_of;
use crate::json::numeric::ranks_of;
use crate::json::pointer::pointed;
use crate::json::request::ParsedJsonRequest;
use crate::json::selection::{selector_fault, SelectorView};
use crate::json::source::error_offset;
use crate::json::view::JsonView;
use crate::model::ResponseMeta;
use crate::ordered::{text_lt, texts_are_in_line};
use crate::receipt_resource::{before_key, behind_key, decorated, receipt_resource, with_member};
use crate::response::{ContextFocusCapacityBlocker, ContextFocusPathDiagnostics, ContextView};
use crate::text::{byte_len, only, pieces, pieces_exist};
use crate::validation::is_blank;
use vstd::prelude::*;

verus! {

/// The medians of numbers in order stand in their middle: no more numbers stand on one
/// side than on the other. The ninety-fifth percentile is the first number that at least
/// ninety-five in a hundred do not exceed.
pub proof fn summaries_stand_in_their_places(count: usize)
    requires
        count > 0,
        95 * count + 99 <= usize::MAX,
    ensures
        ranks_of(count) matches Some(ranks) && {
            &&& ranks.lower_median + ranks.upper_median + 1 == count
            &&& ranks.lower_median <= ranks.upper_median <= ranks.lower_median + 1
            &&& ranks.p95 < count
            &&& 100 * (ranks.p95 + 1) >= 95 * count
            &&& 100 * ranks.p95 < 95 * count
        },
        ranks_of(0) is None,
{
}

/// An answer without a receipt stays as it is, and one with a receipt keeps all of its
/// other members and gets a link to the receipt.
pub proof fn an_answer_links_its_receipt(
    members: Seq<(Seq<char>, JsonView)>,
    key: Seq<char>,
    value: JsonView,
    k: int,
)
    requires
        0 <= k < members.len(),
    ensures
        with_member(members, key, value).contains((key, value)),
        members[k].0 != key ==> with_member(members, key, value).contains(members[k]),
        forall|i: int|
            0 <= i < with_member(members, key, value).len() ==> (
            #[trigger] with_member(members, key, value)[i] == (key, value)) || (members.contains(
                with_member(members, key, value)[i],
            ) && with_member(members, key, value)[i].0 != key),
{
    let front = members.filter(before_key(key));
    let back = members.filter(behind_key(key));
    let out = with_member(members, key, value);
    broadcast use vstd::seq_lib::group_filter_ensures;

    assert(out[front.len() as int] == (key, value));
    if members[k].0 != key {
        texts_are_in_line(members[k].0, key, members[k].0);
        if text_lt(members[k].0, key) {
            assert(before_key(key)(members[k]));
            assert(front.contains(members[k]));
            let n = choose|n: int| 0 <= n < front.len() && front[n] == members[k];
            assert(out[n] == members[k]);
        } else {
            assert(behind_key(key)(members[k]));
            assert(back.contains(members[k]));
            let n = choose|n: int| 0 <= n < back.len() && back[n] == members[k];
            assert(out[front.len() + 1 + n] == members[k]);
        }
    }
    assert forall|i: int| 0 <= i < out.len() implies (#[trigger] out[i] == (key, value)) || (
    members.contains(out[i]) && out[i].0 != key) by {
        if i < front.len() {
            assert(front[i] == out[i]);
            assert(before_key(key)(front[i]));
            members.lemma_filter_contains_rev(before_key(key), front[i]);
        } else if i > front.len() {
            assert(back[i - front.len() - 1] == out[i]);
            assert(behind_key(key)(back[i - front.len() - 1]));
            members.lemma_filter_contains_rev(behind_key(key), back[i - front.len() - 1]);
        }
    }
}

/// Only an object that names a receipt by a text is given a link; the link is named after
/// the receipt.
pub proof fn only_receipts_are_linked(answer: JsonView, id: Seq<char>)
    ensures
        !(answer is Object) ==> decorated(answer) == answer,
        pointed(answer, "/meta/receipt_id"@) is None ==> decorated(answer) == answer,
        answer is Object && pointed(answer, "/meta/receipt_id"@) == Some(JsonView::Text(id)) ==> {
            &&& decorated(answer) matches JsonView::Object(members) && members.contains(
                ("receipt_resource"@, receipt_resource(id)),
            )
        },
        receipt_resource(id) matches JsonView::Object(parts) && parts.contains(
            ("id"@, JsonView::Text(id)),
        ) && parts.contains(("uri"@, JsonView::Text("leantoken://receipt/v1/"@ + id))),
{
    if let JsonView::Object(members) = answer {
        let front = members.filter(before_key("receipt_resource"@));
        let out = with_member(members, "receipt_resource"@, receipt_resource(id));
        assert(out[front.len() as int] == ("receipt_resource"@, receipt_resource(id)));
    }
    if let JsonView::Object(parts) = receipt_resource(id) {
        assert(parts[0] == ("id"@, JsonView::Text(id)));
        assert(parts[2] == ("uri"@, JsonView::Text("leantoken://receipt/v1/"@ + id)));
    }
}

/// The place of an error lies within the document; before the first line it is its
/// beginning, and in the first line no further than its column.
pub proof fn an_error_lies_within_its_document(content: Seq<char>, line: usize, column: usize)
    ensures
        error_offset(content, line, column) <= byte_len(content),
        error_offset(content, 0, column) == 0,
        line == 1 && column >= 1 && content.len() > 0 ==> error_offset(content, line, column)
            <= byte_len(content) && error_offset(content, 1, 1) == 0,
{
    let parts = pieces(content, only('\n'));
    pieces_exist(content, only('\n'));
    if parts.len() == 1 && parts[0].len() == 0 && content.len() > 0 {
        whole_is_its_only_piece(content);
    }
}

proof fn whole_is_its_only_piece(content: Seq<char>)
    requires
        pieces(content, only('\n')).len() == 1,
    ensures
        pieces(content, only('\n'))[0] == content,
    decreases content.len(),
{
    if content.len() > 0 {
        let sep = only('\n');
        pieces_exist(content.drop_last(), sep);
        assert(pieces(content.drop_last(), sep).len() == 1);
        whole_is_its_only_piece(content.drop_last());
        assert(content =~= content.drop_last().push(content.last()));
    }
}

/// A pointer is accepted where it is short enough and empty or begins with a slash, and
/// an expression where it is short enough and says something.
pub proof fn selectors_are_accepted_by_their_form(text: Seq<char>, max_bytes: usize)
    ensures
        selector_fault(SelectorView::Pointer(text), max_bytes) is None <==> byte_len(text)
            <= max_bytes && (text.len() == 0 || text[0] == '/'),
        selector_fault(SelectorView::Jmespath(text), max_bytes) is None <==> byte_len(text)
            <= max_bytes && !is_blank(text),
{
}

/// A request has the items and the samples that it asks for, else a thousand items and
/// samples of three.
pub proof fn a_request_has_its_limits(request: ParsedJsonRequest, max_tokens: usize)
    ensures
        limits_of(request, max_tokens).max_tokens == max_tokens,
        request.max_items matches Some(items) ==> limits_of(request, max_tokens).max_items
            == items,
        request.max_items is None ==> limits_of(request, max_tokens).max_items == 1000,
        request.array_sample_size matches Some(size) ==> limits_of(
            request,
            max_tokens,
        ).array_sample_size == size,
        request.array_sample_size is None ==> limits_of(request, max_tokens).array_sample_size
            == 3,
{
}

/// A focus path that is covered is blocked by nothing, and one that is not by something:
/// by having no indexed file before all else, and then by having no eligible one.
pub proof fn an_uncovered_focus_path_is_blocked(
    diagnostics: ContextFocusPathDiagnostics,
    satisfied: bool,
    indexed_paths: usize,
    minimum_fragments: usize,
)
    ensures
        focus_blocker(diagnostics, satisfied, indexed_paths, minimum_fragments) is None
            <==> satisfied,
        !satisfied && indexed_paths == 0 ==> focus_blocker(
            diagnostics,
            satisfied,
            indexed_paths,
            minimum_fragments,
        ) == Some(ContextFocusCapacityBlocker::NoIndexedPaths),
        !satisfied && indexed_paths > 0 && diagnostics.eligible_paths == 0 ==> focus_blocker(
            diagnostics,
            satisfied,
            indexed_paths,
            minimum_fragments,
        ) == Some(ContextFocusCapacityBlocker::PathPolicy),
        !satisfied && indexed_paths > 0 && diagnostics.eligible_paths > 0
            && diagnostics.generated_fragments >= minimum_fragments
            && diagnostics.capacity_blocker is Some ==> focus_blocker(
            diagnostics,
            satisfied,
            indexed_paths,
            minimum_fragments,
        ) == diagnostics.capacity_blocker,
{
}

/// A response within its ceiling, or without one, is no fault; one above it is, and its
/// caller is told what it needs where the caller can be.
pub proof fn a_response_above_its_ceiling_is_a_fault(
    options: ServiceCallOptions,
    meta: ResponseMeta,
)
    ensures
        over_fault(options, meta) is Some <==> options.max_response_tokens is Some
            && meta.total_response_tokens > options.max_response_tokens->0,
        over_fault(options, meta) is Some && options.mcp_response_shape ==> over_fault(
            options,
            meta,
        )->0 is ResponseBudgetExceeded,
        over_fault(options, meta) is Some && !options.mcp_response_shape ==> over_fault(
            options,
            meta,
        )->0 is ResponseAccountingInvariant,
{
}

/// Room for a receipt is kept by all but a plan, and a response in the shape of a protocol
/// is sized with the link to its receipt exactly where it has one.
pub proof fn a_plan_keeps_no_room_for_a_receipt(
    view: ContextView,
    policy: ContextPolicy,
    sized: ContextView,
    shaped: bool,
)
    requires
        reserves_for(view, policy, sized),
    ensures
        sized.fragments == view.fragments,
        policy.delivery is Plan ==> sized.meta == view.meta && sized.warnings == view.warnings,
        !(policy.delivery is Plan) ==> {
            &&& sized.meta.receipt_id is Some
            &&& sized.warnings.len() == view.warnings.len() + 2
            &&& sized.meta.receipt_suppressed_exact == view.fragments.len() as usize
            &&& sized.meta.receipt_near_duplicates == view.fragments.len() as usize
        },
        decoration_of(shaped, sized.meta) is Include <==> shaped && sized.meta.receipt_id is Some,
{
}

} // verus!
