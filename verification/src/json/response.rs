//! Answers to JSON requests.

use crate::fitting::Metered;
use crate::json::key_page::JsonIncompleteReason;
use crate::json::selection::{JsonSelector, SelectorView};
use crate::json::source::{JsonSource, SourceView};
use crate::json::value::JsonValue;
use crate::json::view::JsonView;
use crate::model::ResponseMeta;
use crate::ordered::views;
use crate::text::{copy_optional_text, copy_text};
use vstd::prelude::*;

verus! {

/// What a summary says of the numbers it names.
#[derive(Debug)]
pub struct NumericFigures {
    pub min: Option<String>,
    pub median: Option<String>,
    pub p95: Option<String>,
    pub max: Option<String>,
}

/// A summary of the numbers of a value.
#[derive(Debug)]
pub struct JsonNumericSummary {
    pub count: usize,
    pub non_numeric_count: usize,
    pub figures: NumericFigures,
}

impl JsonNumericSummary {
    /// A copy.
    pub fn duplicate(&self) -> (r: JsonNumericSummary)
        ensures
            r == *self,
    {
        JsonNumericSummary {
            count: self.count,
            non_numeric_count: self.non_numeric_count,
            figures: NumericFigures {
                min: copy_optional_text(&self.figures.min),
                median: copy_optional_text(&self.figures.median),
                p95: copy_optional_text(&self.figures.p95),
                max: copy_optional_text(&self.figures.max),
            },
        }
    }
}

/// What a selector selects of two documents.
#[derive(Debug)]
pub struct JsonFieldDiff {
    pub selector: JsonSelector,
    pub before_present: bool,
    pub before: Option<JsonValue>,
    pub after_present: bool,
    pub after: Option<JsonValue>,
    pub changed: bool,
}

/// What a [`JsonFieldDiff`] says.
#[verifier::ext_equal]
pub struct FieldDiffView {
    pub selector: SelectorView,
    pub before_present: bool,
    pub before: Option<JsonView>,
    pub after_present: bool,
    pub after: Option<JsonView>,
    pub changed: bool,
}

/// The value that an option holds, as what it says.
pub open spec fn value_view(value: Option<JsonValue>) -> Option<JsonView> {
    match value {
        Some(inner) => Some(inner@),
        None => None,
    }
}

fn copy_value(value: &Option<JsonValue>) -> (r: Option<JsonValue>)
    ensures
        value_view(r) == value_view(*value),
{
    match value {
        Some(inner) => Some(inner.duplicate()),
        None => None,
    }
}

impl View for JsonFieldDiff {
    type V = FieldDiffView;

    open spec fn view(&self) -> FieldDiffView {
        FieldDiffView {
            selector: self.selector@,
            before_present: self.before_present,
            before: value_view(self.before),
            after_present: self.after_present,
            after: value_view(self.after),
            changed: self.changed,
        }
    }
}

impl JsonFieldDiff {
    /// A copy.
    pub fn duplicate(&self) -> (r: JsonFieldDiff)
        ensures
            r@ == self@,
    {
        JsonFieldDiff {
            selector: match &self.selector {
                JsonSelector::Pointer { pointer } => JsonSelector::Pointer {
                    pointer: pointer.clone(),
                },
                JsonSelector::Jmespath { expression } => JsonSelector::Jmespath {
                    expression: expression.clone(),
                },
            },
            before_present: self.before_present,
            before: copy_value(&self.before),
            after_present: self.after_present,
            after: copy_value(&self.after),
            changed: self.changed,
        }
    }
}

/// The answer to a JSON request.
#[derive(Debug)]
pub struct JsonResponse {
    pub kind: String,
    pub value: Option<JsonValue>,
    pub numeric_summary: Option<JsonNumericSummary>,
    pub differences: Vec<JsonFieldDiff>,
    pub sources: Vec<JsonSource>,
    pub result_complete: bool,
    pub total_items: Option<usize>,
    pub returned_items: Option<usize>,
    pub remaining_items: Option<usize>,
    pub incomplete_reason: Option<JsonIncompleteReason>,
    pub meta: ResponseMeta,
}

impl Metered for JsonResponse {
    open spec fn held_meta(&self) -> ResponseMeta {
        self.meta
    }

    fn meta_ref(&self) -> (r: &ResponseMeta) {
        &self.meta
    }
}

/// What a [`JsonResponse`] says.
#[verifier::ext_equal]
pub struct JsonResponseView {
    pub kind: Seq<char>,
    pub value: Option<JsonView>,
    pub numeric_summary: Option<JsonNumericSummary>,
    pub differences: Seq<FieldDiffView>,
    pub sources: Seq<SourceView>,
    pub result_complete: bool,
    pub total_items: Option<usize>,
    pub returned_items: Option<usize>,
    pub remaining_items: Option<usize>,
    pub incomplete_reason: Option<JsonIncompleteReason>,
    pub meta: ResponseMeta,
}

impl View for JsonResponse {
    type V = JsonResponseView;

    open spec fn view(&self) -> JsonResponseView {
        JsonResponseView {
            kind: self.kind@,
            value: value_view(self.value),
            numeric_summary: self.numeric_summary,
            differences: views(self.differences@),
            sources: views(self.sources@),
            result_complete: self.result_complete,
            total_items: self.total_items,
            returned_items: self.returned_items,
            remaining_items: self.remaining_items,
            incomplete_reason: self.incomplete_reason,
            meta: self.meta,
        }
    }
}

fn copy_differences(list: &Vec<JsonFieldDiff>) -> (r: Vec<JsonFieldDiff>)
    ensures
        views(r@) == views(list@),
{
    let mut out: Vec<JsonFieldDiff> = Vec::new();
    let mut i: usize = 0;
    assert(views(out@) =~= views(list@).take(0));
    while i < list.len()
        invariant
            i <= list.len(),
            views(out@) == views(list@).take(i as int),
        decreases list.len() - i,
    {
        let ghost before = out@;
        let copy = list[i].duplicate();
        let ghost added = copy;
        out.push(copy);
        proof {
            assert(views(out@) =~= views(before).push(added@));
            assert(views(list@)[i as int] == list@[i as int]@);
            assert(views(list@).take(i + 1) =~= views(list@).take(i as int).push(
                views(list@)[i as int],
            ));
        }
        i += 1;
    }
    assert(views(list@).take(list@.len() as int) =~= views(list@));
    out
}

fn copy_sources(list: &Vec<JsonSource>) -> (r: Vec<JsonSource>)
    ensures
        views(r@) == views(list@),
{
    let mut out: Vec<JsonSource> = Vec::new();
    let mut i: usize = 0;
    assert(views(out@) =~= views(list@).take(0));
    while i < list.len()
        invariant
            i <= list.len(),
            views(out@) == views(list@).take(i as int),
        decreases list.len() - i,
    {
        let ghost before = out@;
        let copy = list[i].duplicate();
        let ghost added = copy;
        out.push(copy);
        proof {
            assert(views(out@) =~= views(before).push(added@));
            assert(views(list@)[i as int] == list@[i as int]@);
            assert(views(list@).take(i + 1) =~= views(list@).take(i as int).push(
                views(list@)[i as int],
            ));
        }
        i += 1;
    }
    assert(views(list@).take(list@.len() as int) =~= views(list@));
    out
}

impl JsonResponse {
    /// A copy.
    pub fn duplicate(&self) -> (r: JsonResponse)
        ensures
            r@ == self@,
    {
        JsonResponse {
            kind: self.kind.clone(),
            value: copy_value(&self.value),
            numeric_summary: match &self.numeric_summary {
                Some(summary) => Some(summary.duplicate()),
                None => None,
            },
            differences: copy_differences(&self.differences),
            sources: copy_sources(&self.sources),
            result_complete: self.result_complete,
            total_items: self.total_items,
            returned_items: self.returned_items,
            remaining_items: self.remaining_items,
            incomplete_reason: self.incomplete_reason,
            meta: self.meta.duplicate(),
        }
    }
}

/// How much there was, how much was returned, how much remains, and why.
#[derive(Debug, Clone, Copy, PartialEq, Eq, Structural)]
pub struct Completeness {
    pub total: usize,
    pub returned: usize,
    pub remaining: usize,
    pub reason: Option<JsonIncompleteReason>,
}

/// The answer to a query. Without numbers of items it is complete.
pub open spec fn query_view(
    source: SourceView,
    value: JsonView,
    completeness: Option<Completeness>,
    meta: ResponseMeta,
) -> JsonResponseView {
    JsonResponseView {
        kind: "query"@,
        value: Some(value),
        numeric_summary: None,
        differences: Seq::empty(),
        sources: seq![source],
        result_complete: match completeness {
            Some(items) => items.remaining == 0,
            None => true,
        },
        total_items: match completeness {
            Some(items) => Some(items.total),
            None => None,
        },
        returned_items: match completeness {
            Some(items) => Some(items.returned),
            None => None,
        },
        remaining_items: match completeness {
            Some(items) => Some(items.remaining),
            None => None,
        },
        incomplete_reason: match completeness {
            Some(items) => items.reason,
            None => None,
        },
        meta,
    }
}

/// The answer to a query.
pub fn query_response(
    source: JsonSource,
    value: JsonValue,
    completeness: Option<Completeness>,
    meta: ResponseMeta,
) -> (r: JsonResponse)
    ensures
        r@ == query_view(source@, value@, completeness, meta),
{
    let mut sources: Vec<JsonSource> = Vec::new();
    let ghost added = source@;
    sources.push(source);
    assert(views(sources@) =~= seq![added]);
    let differences: Vec<JsonFieldDiff> = Vec::new();
    assert(views(differences@) =~= Seq::<FieldDiffView>::empty());
    let (result_complete, total_items, returned_items, remaining_items, incomplete_reason) =
        match completeness {
        Some(items) => (
            items.remaining == 0,
            Some(items.total),
            Some(items.returned),
            Some(items.remaining),
            items.reason,
        ),
        None => (true, None, None, None, None),
    };
    JsonResponse {
        kind: copy_text("query"),
        value: Some(value),
        numeric_summary: None,
        differences,
        sources,
        result_complete,
        total_items,
        returned_items,
        remaining_items,
        incomplete_reason,
        meta,
    }
}

} // verus!
