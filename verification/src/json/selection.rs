//! What is selected of a value, by pointers and JMESPath expressions.

use crate::error::{reports, Error, Fault};
use crate::json::jmespath::{
    compile_jmespath, compile_result, failure_view, jmespath_compiles, jmespath_finds,
    plain_expression, search_jmespath, search_result, SelectorFailure, MAX_DOCUMENT_BYTES,
};
use crate::json::pointer::{find_pointer, pointed};
use crate::json::value::JsonValue;
use crate::json::view::{json_text, write_json, JsonView};
use crate::text::{byte_len, chars_of};
use crate::validation::{blank, blank_fault, too_long, validate_input};
use vstd::prelude::*;

verus! {

/// What is selected of a value, as a request says it.
#[derive(Debug)]
pub enum JsonSelector {
    Pointer { pointer: String },
    Jmespath { expression: String },
}

/// What a [`JsonSelector`] or a [`ParsedJsonSelector`] says.
pub enum SelectorView {
    Pointer(Seq<char>),
    Jmespath(Seq<char>),
}

impl View for JsonSelector {
    type V = SelectorView;

    open spec fn view(&self) -> SelectorView {
        match *self {
            JsonSelector::Pointer { pointer } => SelectorView::Pointer(pointer@),
            JsonSelector::Jmespath { expression } => SelectorView::Jmespath(expression@),
        }
    }
}

/// A selector that was found to be usable.
#[derive(Debug)]
pub enum ParsedJsonSelector {
    Pointer(String),
    Jmespath { expression: String },
}

impl View for ParsedJsonSelector {
    type V = SelectorView;

    open spec fn view(&self) -> SelectorView {
        match *self {
            ParsedJsonSelector::Pointer(pointer) => SelectorView::Pointer(pointer@),
            ParsedJsonSelector::Jmespath { expression } => SelectorView::Jmespath(expression@),
        }
    }
}

/// The selector that an option holds, as what it says.
pub open spec fn selector_view(selector: Option<ParsedJsonSelector>) -> Option<SelectorView> {
    match selector {
        Some(inner) => Some(inner@),
        None => None,
    }
}

/// One more, where there is a larger number.
pub open spec fn counted_from_one(place: usize) -> usize {
    if place == usize::MAX {
        usize::MAX
    } else {
        (place + 1) as usize
    }
}

/// The fault of an expression that failed at a stage. Lines and columns are
/// counted from one.
pub open spec fn expression_fault(
    stage: Seq<char>,
    failure: (usize, usize, usize, Seq<char>),
) -> Fault {
    Fault::InvalidJsonSelector {
        stage,
        offset: failure.0,
        line: counted_from_one(failure.1),
        column: counted_from_one(failure.2),
        detail: failure.3,
    }
}

/// The error of an expression that failed at a stage.
pub fn invalid_json_selector(stage: &'static str, error: SelectorFailure) -> (r: Error)
    ensures
        r@ == expression_fault(stage@, failure_view(error)),
{
    Error::InvalidJsonSelector {
        stage,
        offset: error.offset,
        line: error.line.saturating_add(1),
        column: error.column.saturating_add(1),
        detail: error.reason,
    }
}

/// What is wrong with a selector before its expression is compiled.
pub open spec fn selector_fault(selector: SelectorView, max_bytes: usize) -> Option<Fault> {
    match selector {
        SelectorView::Pointer(pointer) => match too_long(pointer, "JSON Pointer"@, max_bytes) {
            Some(fault) => Some(fault),
            None => if pointer.len() > 0 && pointer[0] != '/' {
                Some(
                    Fault::InvalidInput {
                        field: "JSON Pointer"@,
                        reason: "must be empty or start with a slash"@,
                    },
                )
            } else {
                None
            },
        },
        SelectorView::Jmespath(expression) => match too_long(
            expression,
            "JMESPath expression"@,
            max_bytes,
        ) {
            Some(fault) => Some(fault),
            None => blank_fault(expression, "JMESPath expression"@, "must not be empty"@),
        },
    }
}

/// Whether compiling an expression may say `outcome`. A plain expression is
/// compiled here, another by `compile`.
pub open spec fn compiles_as<K: Fn(&str) -> Result<(), SelectorFailure>>(
    compile: K,
    expression: Seq<char>,
    outcome: Result<(), (usize, usize, usize, Seq<char>)>,
) -> bool {
    if plain_expression(expression) {
        outcome == jmespath_compiles(expression)
    } else {
        exists|text: &str, said: Result<(), SelectorFailure>|
            (#[trigger] call_ensures(compile, (text,), said)) && text@ == expression
                && compile_result(said) == outcome
    }
}

/// Whether every expression can be compiled.
pub open spec fn compiles_all<K: Fn(&str) -> Result<(), SelectorFailure>>(compile: K) -> bool {
    forall|text: &str| call_requires(compile, (text,))
}

/// Whether a selector may be taken, or refused with a fault.
pub open spec fn selector_reads<K: Fn(&str) -> Result<(), SelectorFailure>>(
    selector: SelectorView,
    max_bytes: usize,
    compile: K,
    due: Option<Fault>,
) -> bool {
    let fault = selector_fault(selector, max_bytes);
    match selector {
        SelectorView::Jmespath(expression) if fault is None => exists|
            outcome: Result<(), (usize, usize, usize, Seq<char>)>,
        | #[trigger]
            compiles_as(compile, expression, outcome) && due == match outcome {
                Ok(_) => None,
                Err(failure) => Some(expression_fault("compile"@, failure)),
            },
        _ => due == fault,
    }
}

fn compile_expression<K: Fn(&str) -> Result<(), SelectorFailure>>(
    expression: &str,
    compile: &K,
) -> (r: Result<(), SelectorFailure>)
    requires
        compiles_all(*compile),
    ensures
        compiles_as(*compile, expression@, compile_result(r)),
{
    match compile_jmespath(expression) {
        Some(outcome) => outcome,
        None => compile(expression),
    }
}

/// The verdict on an expression, by what compiling it said.
pub fn expression_verdict(outcome: Result<(), SelectorFailure>) -> (r: Result<(), Error>)
    ensures
        reports(
            r,
            match compile_result(outcome) {
                Ok(_) => None,
                Err(failure) => Some(expression_fault("compile"@, failure)),
            },
        ),
{
    match outcome {
        Ok(_) => Ok(()),
        Err(failure) => Err(invalid_json_selector("compile", failure)),
    }
}

/// Refuses a selector that is too long, whose pointer neither is empty nor starts
/// with a slash, or whose expression is blank or does not compile.
pub fn validate_selector<K: Fn(&str) -> Result<(), SelectorFailure>>(
    selector: &JsonSelector,
    max_bytes: usize,
    compile: &K,
) -> (r: Result<(), Error>)
    requires
        compiles_all(*compile),
    ensures
        selector_reads(
            selector@,
            max_bytes,
            *compile,
            match r {
                Ok(_) => None,
                Err(e) => Some(e@),
            },
        ),
{
    match selector {
        JsonSelector::Pointer { pointer } => {
            match validate_input(pointer.as_str(), "JSON Pointer", max_bytes) {
                Ok(_) => {},
                Err(e) => {
                    return Err(e);
                },
            }
            let chars = chars_of(pointer.as_str());
            if chars.len() > 0 && chars[0] != '/' {
                return Err(
                    Error::InvalidInput {
                        field: "JSON Pointer",
                        reason: "must be empty or start with a slash",
                    },
                );
            }
            Ok(())
        },
        JsonSelector::Jmespath { expression } => {
            match validate_input(expression.as_str(), "JMESPath expression", max_bytes) {
                Ok(_) => {},
                Err(e) => {
                    return Err(e);
                },
            }
            if blank(expression.as_str()) {
                return Err(
                    Error::InvalidInput {
                        field: "JMESPath expression",
                        reason: "must not be empty",
                    },
                );
            }
            let outcome = compile_expression(expression.as_str(), compile);
            assert(compiles_as(*compile, expression@, compile_result(outcome)));
            expression_verdict(outcome)
        },
    }
}

impl ParsedJsonSelector {
    /// Takes a selector that can be used.
    pub fn parse<K: Fn(&str) -> Result<(), SelectorFailure>>(
        selector: JsonSelector,
        max_bytes: usize,
        compile: &K,
    ) -> (r: Result<ParsedJsonSelector, Error>)
        requires
            compiles_all(*compile),
        ensures
            match r {
                Ok(parsed) => parsed@ == selector@ && selector_reads(
                    selector@,
                    max_bytes,
                    *compile,
                    None,
                ),
                Err(e) => selector_reads(selector@, max_bytes, *compile, Some(e@)),
            },
    {
        match validate_selector(&selector, max_bytes, compile) {
            Ok(_) => {},
            Err(e) => {
                return Err(e);
            },
        }
        match selector {
            JsonSelector::Pointer { pointer } => Ok(ParsedJsonSelector::Pointer(pointer)),
            JsonSelector::Jmespath { expression } => Ok(ParsedJsonSelector::Jmespath { expression }),
        }
    }

    /// The selector as a response says it.
    pub fn into_wire(self) -> (r: JsonSelector)
        ensures
            r@ == self@,
    {
        match self {
            ParsedJsonSelector::Pointer(pointer) => JsonSelector::Pointer { pointer },
            ParsedJsonSelector::Jmespath { expression } => JsonSelector::Jmespath { expression },
        }
    }
}

/// What was selected of a value, if anything.
#[derive(Debug)]
pub struct SelectedJson {
    pub selected: Option<JsonValue>,
}

impl View for SelectedJson {
    type V = Option<JsonView>;

    open spec fn view(&self) -> Option<JsonView> {
        match self.selected {
            Some(value) => Some(value@),
            None => None,
        }
    }
}

impl SelectedJson {
    /// Whether anything was selected.
    pub fn is_present(&self) -> (r: bool)
        ensures
            r == (self@ is Some),
    {
        self.selected.is_some()
    }

    /// What was selected.
    pub fn value(&self) -> (r: Option<&JsonValue>)
        ensures
            self@ == match r {
                Some(value) => Some(value@),
                None => None,
            },
    {
        match &self.selected {
            Some(value) => Some(value),
            None => None,
        }
    }

    /// What was selected, which must be something.
    pub fn into_required_value(self) -> (r: Result<JsonValue, Error>)
        ensures
            reports(
                r,
                if self@ is Some {
                    None
                } else {
                    Some(nothing_selected())
                },
            ),
            r is Ok ==> self@ == Some(r->Ok_0@),
    {
        match self.selected {
            Some(value) => Ok(value),
            None => Err(
                Error::InvalidInput {
                    field: "selector",
                    reason: "did not match a JSON value",
                },
            ),
        }
    }
}

/// The fault of a selector that matches nothing.
pub open spec fn nothing_selected() -> Fault {
    Fault::InvalidInput { field: "selector"@, reason: "did not match a JSON value"@ }
}

/// Whether evaluating an expression on a document may say `outcome`. A plain
/// expression is evaluated here on a document of moderate size, another by
/// `search`.
pub open spec fn finds_as<S: Fn(&str, &str) -> Result<String, SelectorFailure>>(
    search: S,
    expression: Seq<char>,
    document: Seq<char>,
    outcome: Result<String, SelectorFailure>,
) -> bool {
    if plain_expression(expression) && byte_len(document) <= MAX_DOCUMENT_BYTES {
        search_result(outcome) == jmespath_finds(expression, document)
    } else {
        exists|text: &str, whole: &str|
            (#[trigger] call_ensures(search, (text, whole), outcome)) && text@ == expression
                && whole@ == document
    }
}

/// Whether every expression can be evaluated on every document.
pub open spec fn finds_all<S: Fn(&str, &str) -> Result<String, SelectorFailure>>(search: S) -> bool {
    forall|text: &str, whole: &str| call_requires(search, (text, whole))
}

/// Whether reading a text as JSON may say `outcome`.
pub open spec fn read_as<R: Fn(&str) -> Result<JsonValue, Error>>(
    read: R,
    text: Seq<char>,
    outcome: Result<JsonValue, Error>,
) -> bool {
    exists|part: &str| (#[trigger] call_ensures(read, (part,), outcome)) && part@ == text
}

/// Whether every text can be read.
pub open spec fn reads_all<R: Fn(&str) -> Result<JsonValue, Error>>(read: R) -> bool {
    forall|part: &str| call_requires(read, (part,))
}

/// A result, as what it says.
pub open spec fn selected_result(r: Result<SelectedJson, Error>) -> Result<
    Option<JsonView>,
    Fault,
> {
    match r {
        Ok(selected) => Ok(selected@),
        Err(e) => Err(e@),
    }
}

/// Whether what an expression found may select `said`.
pub open spec fn found_selects<R: Fn(&str) -> Result<JsonValue, Error>>(
    found: Result<String, SelectorFailure>,
    read: R,
    said: Result<Option<JsonView>, Fault>,
) -> bool {
    match found {
        Ok(text) => exists|outcome: Result<JsonValue, Error>| #[trigger]
            read_as(read, text@, outcome) && said == match outcome {
                Ok(value) => Ok(Some(value@)),
                Err(e) => Err(e@),
            },
        Err(failure) => said == Err::<Option<JsonView>, Fault>(
            expression_fault("evaluate"@, failure_view(failure)),
        ),
    }
}

/// Whether evaluating an expression on a document may select `said`.
pub open spec fn document_selects<
    S: Fn(&str, &str) -> Result<String, SelectorFailure>,
    R: Fn(&str) -> Result<JsonValue, Error>,
>(
    document: Seq<char>,
    expression: Seq<char>,
    search: S,
    read: R,
    said: Result<Option<JsonView>, Fault>,
) -> bool {
    exists|found: Result<String, SelectorFailure>| #[trigger]
        finds_as(search, expression, document, found) && found_selects(found, read, said)
}

/// Whether selecting of a value may say `said`. Without a selector the whole value
/// is selected, by a pointer what it leads to, and by an expression what it finds.
pub open spec fn selects<
    S: Fn(&str, &str) -> Result<String, SelectorFailure>,
    R: Fn(&str) -> Result<JsonValue, Error>,
>(
    value: JsonView,
    selector: Option<SelectorView>,
    search: S,
    read: R,
    said: Result<Option<JsonView>, Fault>,
) -> bool {
    match selector {
        None => said == Ok::<Option<JsonView>, Fault>(Some(value)),
        Some(SelectorView::Pointer(pointer)) => said == Ok::<Option<JsonView>, Fault>(
            pointed(value, pointer),
        ),
        Some(SelectorView::Jmespath(expression)) => document_selects(
            json_text(value),
            expression,
            search,
            read,
            said,
        ),
    }
}

fn search_document<S: Fn(&str, &str) -> Result<String, SelectorFailure>>(
    expression: &str,
    document: &str,
    search: &S,
) -> (r: Result<String, SelectorFailure>)
    requires
        finds_all(*search),
    ensures
        finds_as(*search, expression@, document@, r),
{
    match search_jmespath(expression, document) {
        Some(outcome) => outcome,
        None => search(expression, document),
    }
}

/// What is selected by what an expression found.
pub fn select_found<R: Fn(&str) -> Result<JsonValue, Error>>(
    found: Result<String, SelectorFailure>,
    read: &R,
) -> (r: Result<SelectedJson, Error>)
    requires
        reads_all(*read),
    ensures
        found_selects(found, *read, selected_result(r)),
{
    match found {
        Ok(text) => {
            let outcome = read(text.as_str());
            assert(read_as(*read, text@, outcome));
            match outcome {
                Ok(value) => Ok(SelectedJson { selected: Some(value) }),
                Err(e) => Err(e),
            }
        },
        Err(failure) => Err(invalid_json_selector("evaluate", failure)),
    }
}

/// Selects of a value.
pub fn select_json<
    S: Fn(&str, &str) -> Result<String, SelectorFailure>,
    R: Fn(&str) -> Result<JsonValue, Error>,
>(value: &JsonValue, selector: Option<&ParsedJsonSelector>, search: &S, read: &R) -> (r: Result<
    SelectedJson,
    Error,
>)
    requires
        finds_all(*search),
        reads_all(*read),
    ensures
        selects(
            value@,
            match selector {
                Some(inner) => Some(inner@),
                None => None,
            },
            *search,
            *read,
            selected_result(r),
        ),
{
    match selector {
        None => Ok(SelectedJson { selected: Some(value.duplicate()) }),
        Some(ParsedJsonSelector::Pointer(pointer)) => match find_pointer(value, pointer.as_str()) {
            Some(inner) => Ok(SelectedJson { selected: Some(inner.duplicate()) }),
            None => Ok(SelectedJson { selected: None }),
        },
        Some(ParsedJsonSelector::Jmespath { expression }) => {
            let document = write_json(value);
            let found = search_document(expression.as_str(), document.as_str(), search);
            assert(finds_as(*search, expression@, document@, found));
            let ghost heard = found;
            let r = select_found(found, read);
            assert(found_selects(heard, *read, selected_result(r)));
            assert(document_selects(
                document@,
                expression@,
                *search,
                *read,
                selected_result(r),
            ));
            r
        },
    }
}

} // verus!
