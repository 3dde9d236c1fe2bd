//! Counting the work of a context request, where diagnostics are collected.

use crate::error::Error;
use crate::ordered::views;
use crate::text::{appended, copy_text, decimal, decimal_text};
use vstd::prelude::*;

verus! {

/// Whether the work of a request is counted.
#[derive(Debug, Clone, Copy, PartialEq, Eq, Structural)]
pub enum CandidateDiagnostics {
    Omit,
    Collect,
}

/// A part of the work that is timed.
#[derive(Debug, Clone, Copy, PartialEq, Eq, Structural)]
pub enum ContextTimedPhase {
    ExactSymbolLookup,
    SymbolSearch,
    ReferenceSearch,
    LexicalSearch,
    LexicalVerify,
    EnclosingLookup,
    AdaptiveExcerpt,
    StoredExcerpt,
}

/// How often something was done.
#[derive(Debug, Clone, Copy, PartialEq, Eq, Structural)]
pub struct ContextPhaseCounters {
    pub queries_planned: usize,
    pub queries_executed: usize,
    pub exact_symbol_names: usize,
    pub exact_symbol_batches: usize,
    pub exact_symbol_hits: usize,
    pub symbol_candidates: usize,
    pub reference_candidates: usize,
    pub lexical_candidate_chunks: usize,
    pub lexical_chunks_verified: usize,
    pub lexical_matches: usize,
    pub enclosing_location_batches: usize,
    pub enclosing_location_requests: usize,
    pub unique_enclosing_locations: usize,
    pub adaptive_excerpt_batches: usize,
    pub adaptive_excerpt_requests: usize,
    pub unique_adaptive_excerpt_requests: usize,
    pub stored_excerpt_batches: usize,
    pub stored_excerpt_requests: usize,
    pub unique_stored_excerpt_requests: usize,
    pub generated_candidates: usize,
}

impl Default for ContextPhaseCounters {
    fn default() -> (r: ContextPhaseCounters)
        ensures
            r == no_counters(),
    {
        ContextPhaseCounters {
            queries_planned: 0,
            queries_executed: 0,
            exact_symbol_names: 0,
            exact_symbol_batches: 0,
            exact_symbol_hits: 0,
            symbol_candidates: 0,
            reference_candidates: 0,
            lexical_candidate_chunks: 0,
            lexical_chunks_verified: 0,
            lexical_matches: 0,
            enclosing_location_batches: 0,
            enclosing_location_requests: 0,
            unique_enclosing_locations: 0,
            adaptive_excerpt_batches: 0,
            adaptive_excerpt_requests: 0,
            unique_adaptive_excerpt_requests: 0,
            stored_excerpt_batches: 0,
            stored_excerpt_requests: 0,
            unique_stored_excerpt_requests: 0,
            generated_candidates: 0,
        }
    }
}

/// Counters that have counted nothing.
pub open spec fn no_counters() -> ContextPhaseCounters {
    ContextPhaseCounters {
        queries_planned: 0,
        queries_executed: 0,
        exact_symbol_names: 0,
        exact_symbol_batches: 0,
        exact_symbol_hits: 0,
        symbol_candidates: 0,
        reference_candidates: 0,
        lexical_candidate_chunks: 0,
        lexical_chunks_verified: 0,
        lexical_matches: 0,
        enclosing_location_batches: 0,
        enclosing_location_requests: 0,
        unique_enclosing_locations: 0,
        adaptive_excerpt_batches: 0,
        adaptive_excerpt_requests: 0,
        unique_adaptive_excerpt_requests: 0,
        stored_excerpt_batches: 0,
        stored_excerpt_requests: 0,
        unique_stored_excerpt_requests: 0,
        generated_candidates: 0,
    }
}

/// How long the parts of the work took, in microseconds.
#[derive(Debug, Clone, Copy, PartialEq, Eq, Structural)]
pub struct ContextPhaseTimings {
    pub exact_symbol_lookup: u64,
    pub symbol_search: u64,
    pub reference_search: u64,
    pub lexical_search: u64,
    pub lexical_verify: u64,
    pub enclosing_lookup: u64,
    pub adaptive_excerpt: u64,
    pub stored_excerpt: u64,
    pub workflow_generation: u64,
    pub candidate_generation: u64,
    pub ranking_finalize: u64,
    pub total: u64,
}

impl Default for ContextPhaseTimings {
    fn default() -> (r: ContextPhaseTimings)
        ensures
            r == no_timings(),
    {
        ContextPhaseTimings {
            exact_symbol_lookup: 0,
            symbol_search: 0,
            reference_search: 0,
            lexical_search: 0,
            lexical_verify: 0,
            enclosing_lookup: 0,
            adaptive_excerpt: 0,
            stored_excerpt: 0,
            workflow_generation: 0,
            candidate_generation: 0,
            ranking_finalize: 0,
            total: 0,
        }
    }
}

/// Timings of no work.
pub open spec fn no_timings() -> ContextPhaseTimings {
    ContextPhaseTimings {
        exact_symbol_lookup: 0,
        symbol_search: 0,
        reference_search: 0,
        lexical_search: 0,
        lexical_verify: 0,
        enclosing_lookup: 0,
        adaptive_excerpt: 0,
        stored_excerpt: 0,
        workflow_generation: 0,
        candidate_generation: 0,
        ranking_finalize: 0,
        total: 0,
    }
}

/// A sum that stops at the largest number.
pub open spec fn lengthened(time: u64, more: u64) -> u64 {
    if time + more > u64::MAX {
        u64::MAX
    } else {
        (time + more) as u64
    }
}

/// The time between two instants, or none where the clock went back.
pub open spec fn span(started: u64, ended: u64) -> u64 {
    if ended > started {
        (ended - started) as u64
    } else {
        0
    }
}

/// Timings with more time in one phase.
pub open spec fn with_time(
    timings: ContextPhaseTimings,
    phase: ContextTimedPhase,
    more: u64,
) -> ContextPhaseTimings {
    match phase {
        ContextTimedPhase::ExactSymbolLookup => ContextPhaseTimings {
            exact_symbol_lookup: lengthened(timings.exact_symbol_lookup, more),
            ..timings
        },
        ContextTimedPhase::SymbolSearch => ContextPhaseTimings {
            symbol_search: lengthened(timings.symbol_search, more),
            ..timings
        },
        ContextTimedPhase::ReferenceSearch => ContextPhaseTimings {
            reference_search: lengthened(timings.reference_search, more),
            ..timings
        },
        ContextTimedPhase::LexicalSearch => ContextPhaseTimings {
            lexical_search: lengthened(timings.lexical_search, more),
            ..timings
        },
        ContextTimedPhase::LexicalVerify => ContextPhaseTimings {
            lexical_verify: lengthened(timings.lexical_verify, more),
            ..timings
        },
        ContextTimedPhase::EnclosingLookup => ContextPhaseTimings {
            enclosing_lookup: lengthened(timings.enclosing_lookup, more),
            ..timings
        },
        ContextTimedPhase::AdaptiveExcerpt => ContextPhaseTimings {
            adaptive_excerpt: lengthened(timings.adaptive_excerpt, more),
            ..timings
        },
        ContextTimedPhase::StoredExcerpt => ContextPhaseTimings {
            stored_excerpt: lengthened(timings.stored_excerpt, more),
            ..timings
        },
    }
}

/// A line of a stored file.
#[derive(Debug, Clone, Copy, PartialEq, Eq, Structural)]
pub struct FileLine {
    pub file_id: i64,
    pub line: usize,
}

/// A request for an excerpt of a declaration round a line: what the excerpt may cost,
/// and, where the excerpt is one of many, what all of them may.
#[derive(Debug, Clone, Copy, PartialEq, Eq, Structural)]
pub struct AdaptiveExcerptRequest {
    pub file_id: i64,
    pub declaration_start: usize,
    pub declaration_end: usize,
    pub matched_line: usize,
    pub token_budget: usize,
    pub selection_budget: Option<usize>,
}

/// A request for stored lines.
#[derive(Debug, Clone, Copy, PartialEq, Eq, Structural)]
pub struct StoredExcerptRequest {
    pub file_id: i64,
    pub desired_start_line: usize,
    pub desired_end_line: usize,
    pub required_start_line: usize,
    pub required_end_line: usize,
    pub max_lines: usize,
}

/// One lookup, by generation, kind and inputs.
#[derive(Debug)]
pub struct PrimitiveKey {
    pub generation: u64,
    pub kind: String,
    pub inputs: String,
}

/// What a [`PrimitiveKey`] says.
pub struct PrimitiveView {
    pub generation: u64,
    pub kind: Seq<char>,
    pub inputs: Seq<char>,
}

impl View for PrimitiveKey {
    type V = PrimitiveView;

    open spec fn view(&self) -> PrimitiveView {
        PrimitiveView { generation: self.generation, kind: self.kind@, inputs: self.inputs@ }
    }
}

/// A whole number in decimal digits, with a sign where it is negative.
pub open spec fn signed_text(n: i64) -> Seq<char> {
    if n < 0 {
        "-"@ + decimal_text((-n) as nat)
    } else {
        decimal_text(n as nat)
    }
}

pub(crate) fn signed(n: i64) -> (r: String)
    ensures
        r@ == signed_text(n),
{
    if n < 0 {
        let magnitude: u64 = (-(n + 1)) as u64 + 1;
        appended(copy_text("-"), decimal(magnitude).as_str())
    } else {
        decimal(n as u64)
    }
}

fn joined(start: String, n: usize) -> (r: String)
    ensures
        r@ == start@ + ":"@ + decimal_text(n as nat),
{
    appended(appended(start, ":"), decimal(n as u64).as_str())
}

/// A list with those of another that it lacks, each once.
pub open spec fn united<A>(list: Seq<A>, more: Seq<A>) -> Seq<A>
    decreases more.len(),
{
    if more.len() == 0 {
        list
    } else {
        let front = united(list, more.drop_last());
        if front.contains(more.last()) {
            front
        } else {
            front.push(more.last())
        }
    }
}

/// A list of distinct elements stays one where another is joined to it, and
/// holds what either held.
pub proof fn united_is_a_set<A>(list: Seq<A>, more: Seq<A>)
    requires
        list.no_duplicates(),
    ensures
        united(list, more).no_duplicates(),
        forall|x: A|
            united(list, more).contains(x) <==> #[trigger] list.contains(x) || more.contains(x),
    decreases more.len(),
{
    if more.len() > 0 {
        let rest = more.drop_last();
        let front = united(list, rest);
        let last = more.last();
        united_is_a_set(list, rest);
        assert(more =~= rest.push(last));
        rest_or_last(rest, last);
        rest_or_last(front, last);
    }
}

proof fn rest_or_last<A>(list: Seq<A>, last: A)
    ensures
        forall|x: A| #[trigger] list.push(last).contains(x) <==> list.contains(x) || x == last,
{
    let grown = list.push(last);
    assert(grown[list.len() as int] == last);
    assert forall|x: A| #[trigger] grown.contains(x) <==> list.contains(x) || x == last by {
        if list.contains(x) {
            let i = choose|i: int| 0 <= i < list.len() && list[i] == x;
            assert(grown[i] == x);
        }
        if grown.contains(x) {
            let i = choose|i: int| 0 <= i < grown.len() && grown[i] == x;
            if i < list.len() {
                assert(list[i] == x);
            }
        }
    }
}

proof fn united_push<A>(list: Seq<A>, more: Seq<A>, i: int)
    requires
        0 <= i < more.len(),
    ensures
        united(list, more.take(i + 1)) == if united(list, more.take(i)).contains(more[i]) {
            united(list, more.take(i))
        } else {
            united(list, more.take(i)).push(more[i])
        },
{
    assert(more.take(i + 1).drop_last() =~= more.take(i));
}

/// What a request has done so far.
#[derive(Debug)]
pub struct ContextPhaseTracker {
    pub enabled: bool,
    pub generation: u64,
    pub counters: ContextPhaseCounters,
    pub timings: ContextPhaseTimings,
    pub started: Option<u64>,
    pub enclosing_locations: Vec<FileLine>,
    pub adaptive_excerpts: Vec<AdaptiveExcerptRequest>,
    pub stored_excerpts: Vec<StoredExcerptRequest>,
    pub primitive_keys: Vec<PrimitiveKey>,
}

/// What a [`ContextPhaseTracker`] says.
pub struct TrackerView {
    pub enabled: bool,
    pub generation: u64,
    pub counters: ContextPhaseCounters,
    pub timings: ContextPhaseTimings,
    pub started: Option<u64>,
    pub enclosing_locations: Seq<FileLine>,
    pub adaptive_excerpts: Seq<AdaptiveExcerptRequest>,
    pub stored_excerpts: Seq<StoredExcerptRequest>,
    pub primitive_keys: Seq<PrimitiveView>,
}

impl View for ContextPhaseTracker {
    type V = TrackerView;

    open spec fn view(&self) -> TrackerView {
        TrackerView {
            enabled: self.enabled,
            generation: self.generation,
            counters: self.counters,
            timings: self.timings,
            started: self.started,
            enclosing_locations: self.enclosing_locations@,
            adaptive_excerpts: self.adaptive_excerpts@,
            stored_excerpts: self.stored_excerpts@,
            primitive_keys: views(self.primitive_keys@),
        }
    }
}

/// A count with one more where something was asked for.
pub open spec fn batches(count: usize, asked: nat) -> usize {
    if asked > 0 && count < usize::MAX {
        (count + 1) as usize
    } else {
        count
    }
}

/// A count with more, at most the largest number.
pub open spec fn counted(count: usize, more: nat) -> usize {
    if count + more > usize::MAX {
        usize::MAX
    } else {
        (count + more) as usize
    }
}

/// The inputs of a lookup of what encloses a line.
pub open spec fn location_inputs(location: FileLine) -> Seq<char> {
    signed_text(location.file_id) + ":"@ + decimal_text(location.line as nat)
}

/// The inputs of a lookup of an excerpt of a declaration.
pub open spec fn adaptive_inputs(request: AdaptiveExcerptRequest) -> Seq<char> {
    signed_text(request.file_id) + ":"@ + decimal_text(request.declaration_start as nat) + ":"@
        + decimal_text(request.declaration_end as nat) + ":"@ + decimal_text(
        request.matched_line as nat,
    ) + ":"@ + decimal_text(request.token_budget as nat)
}

/// The inputs of a lookup of stored lines.
pub open spec fn stored_inputs(request: StoredExcerptRequest) -> Seq<char> {
    signed_text(request.file_id) + ":"@ + decimal_text(request.desired_start_line as nat) + ":"@
        + decimal_text(request.desired_end_line as nat) + ":"@ + decimal_text(
        request.required_start_line as nat,
    ) + ":"@ + decimal_text(request.required_end_line as nat) + ":"@ + decimal_text(
        request.max_lines as nat,
    )
}

/// The keys of lookups of what encloses lines.
pub open spec fn location_keys(generation: u64, list: Seq<FileLine>) -> Seq<PrimitiveView> {
    Seq::new(
        list.len(),
        |i: int|
            PrimitiveView {
                generation,
                kind: "enclosing_symbol"@,
                inputs: location_inputs(list[i]),
            },
    )
}

/// A request as it is counted: what all excerpts may cost does not tell it from another.
pub open spec fn told_request(request: AdaptiveExcerptRequest) -> AdaptiveExcerptRequest {
    AdaptiveExcerptRequest { selection_budget: None, ..request }
}

/// Requests as they are counted.
pub open spec fn told_requests(list: Seq<AdaptiveExcerptRequest>) -> Seq<AdaptiveExcerptRequest> {
    Seq::new(list.len(), |i: int| told_request(list[i]))
}

/// The keys of lookups of excerpts of declarations.
pub open spec fn adaptive_keys(generation: u64, list: Seq<AdaptiveExcerptRequest>) -> Seq<
    PrimitiveView,
> {
    Seq::new(
        list.len(),
        |i: int|
            PrimitiveView {
                generation,
                kind: "adaptive_excerpt"@,
                inputs: adaptive_inputs(list[i]),
            },
    )
}

/// The keys of lookups of stored lines.
pub open spec fn stored_keys(generation: u64, list: Seq<StoredExcerptRequest>) -> Seq<
    PrimitiveView,
> {
    Seq::new(
        list.len(),
        |i: int|
            PrimitiveView { generation, kind: "stored_excerpt"@, inputs: stored_inputs(list[i]) },
    )
}

/// A tracker after one more lookup.
pub open spec fn noted(tracker: TrackerView, kind: Seq<char>, inputs: Seq<char>) -> TrackerView {
    TrackerView {
        primitive_keys: if tracker.enabled {
            tracker.primitive_keys.push(
                PrimitiveView { generation: tracker.generation, kind, inputs },
            )
        } else {
            tracker.primitive_keys
        },
        ..tracker
    }
}

/// A tracker after lookups of what encloses lines.
pub open spec fn after_locations(tracker: TrackerView, list: Seq<FileLine>) -> TrackerView {
    if !tracker.enabled {
        tracker
    } else {
        TrackerView {
            counters: ContextPhaseCounters {
                enclosing_location_batches: batches(
                    tracker.counters.enclosing_location_batches,
                    list.len(),
                ),
                enclosing_location_requests: counted(
                    tracker.counters.enclosing_location_requests,
                    list.len(),
                ),
                ..tracker.counters
            },
            enclosing_locations: united(tracker.enclosing_locations, list),
            primitive_keys: tracker.primitive_keys + location_keys(tracker.generation, list),
            ..tracker
        }
    }
}

/// A tracker after lookups of excerpts of declarations.
pub open spec fn after_adaptive(tracker: TrackerView, list: Seq<AdaptiveExcerptRequest>) ->
    TrackerView {
    if !tracker.enabled {
        tracker
    } else {
        TrackerView {
            counters: ContextPhaseCounters {
                adaptive_excerpt_batches: batches(
                    tracker.counters.adaptive_excerpt_batches,
                    list.len(),
                ),
                adaptive_excerpt_requests: counted(
                    tracker.counters.adaptive_excerpt_requests,
                    list.len(),
                ),
                ..tracker.counters
            },
            adaptive_excerpts: united(tracker.adaptive_excerpts, told_requests(list)),
            primitive_keys: tracker.primitive_keys + adaptive_keys(tracker.generation, list),
            ..tracker
        }
    }
}

/// A tracker after lookups of stored lines.
pub open spec fn after_stored(tracker: TrackerView, list: Seq<StoredExcerptRequest>) ->
    TrackerView {
    if !tracker.enabled {
        tracker
    } else {
        TrackerView {
            counters: ContextPhaseCounters {
                stored_excerpt_batches: batches(
                    tracker.counters.stored_excerpt_batches,
                    list.len(),
                ),
                stored_excerpt_requests: counted(
                    tracker.counters.stored_excerpt_requests,
                    list.len(),
                ),
                ..tracker.counters
            },
            stored_excerpts: united(tracker.stored_excerpts, list),
            primitive_keys: tracker.primitive_keys + stored_keys(tracker.generation, list),
            ..tracker
        }
    }
}

fn one_if(held: bool) -> (r: usize)
    ensures
        r == if held {
            1usize
        } else {
            0usize
        },
{
    if held {
        1
    } else {
        0
    }
}

fn has_line(list: &Vec<FileLine>, item: FileLine) -> (r: bool)
    ensures
        r == list@.contains(item),
{
    let mut i: usize = 0;
    while i < list.len()
        invariant
            i <= list.len(),
            forall|k: int| 0 <= k < i ==> list@[k] != item,
        decreases list.len() - i,
    {
        if list[i] == item {
            return true;
        }
        i += 1;
    }
    false
}

fn has_adaptive(list: &Vec<AdaptiveExcerptRequest>, item: AdaptiveExcerptRequest) -> (r: bool)
    ensures
        r == list@.contains(item),
{
    let mut i: usize = 0;
    while i < list.len()
        invariant
            i <= list.len(),
            forall|k: int| 0 <= k < i ==> list@[k] != item,
        decreases list.len() - i,
    {
        if list[i] == item {
            return true;
        }
        i += 1;
    }
    false
}

fn has_stored(list: &Vec<StoredExcerptRequest>, item: StoredExcerptRequest) -> (r: bool)
    ensures
        r == list@.contains(item),
{
    let mut i: usize = 0;
    while i < list.len()
        invariant
            i <= list.len(),
            forall|k: int| 0 <= k < i ==> list@[k] != item,
        decreases list.len() - i,
    {
        if list[i] == item {
            return true;
        }
        i += 1;
    }
    false
}

impl ContextPhaseTracker {
    /// A tracker of a request that starts at an instant.
    pub fn new(diagnostics: CandidateDiagnostics, generation: u64, now: u64) -> (r:
        ContextPhaseTracker)
        ensures
            r@ == (TrackerView {
                enabled: diagnostics is Collect,
                generation,
                counters: no_counters(),
                timings: no_timings(),
                started: if diagnostics is Collect {
                    Some(now)
                } else {
                    None
                },
                enclosing_locations: Seq::empty(),
                adaptive_excerpts: Seq::empty(),
                stored_excerpts: Seq::empty(),
                primitive_keys: Seq::empty(),
            }),
    {
        let enabled = diagnostics == CandidateDiagnostics::Collect;
        let r = ContextPhaseTracker {
            enabled,
            generation,
            counters: ContextPhaseCounters::default(),
            timings: ContextPhaseTimings::default(),
            started: if enabled {
                Some(now)
            } else {
                None
            },
            enclosing_locations: Vec::new(),
            adaptive_excerpts: Vec::new(),
            stored_excerpts: Vec::new(),
            primitive_keys: Vec::new(),
        };
        assert(r@.primitive_keys =~= Seq::<PrimitiveView>::empty());
        r
    }

    /// Does a piece of work, and counts its time where it succeeds and times are
    /// collected.
    pub fn measure<T, F: FnOnce() -> Result<T, Error>, C: Fn() -> u64>(
        &mut self,
        phase: ContextTimedPhase,
        operation: F,
        clock: &C,
    ) -> (r: Result<T, Error>)
        requires
            call_requires(operation, ()),
            call_requires(*clock, ()),
        ensures
            call_ensures(operation, (), r),
            !old(self).enabled || r is Err ==> *final(self) == *old(self),
            old(self).enabled && r is Ok ==> exists|started: u64, ended: u64|
                {
                    &&& #[trigger] call_ensures(*clock, (), started)
                    &&& #[trigger] call_ensures(*clock, (), ended)
                    &&& *final(self) == (ContextPhaseTracker {
                        timings: with_time(old(self).timings, phase, span(started, ended)),
                        ..*old(self)
                    })
                },
    {
        if !self.enabled {
            return operation();
        }
        let started: u64 = clock();
        match operation() {
            Ok(output) => {
                let ended: u64 = clock();
                self.record_elapsed(phase, Some(started), ended);
                Ok(output)
            },
            Err(e) => Err(e),
        }
    }

    /// Counts the time since a start, where there was one.
    pub fn record_elapsed(&mut self, phase: ContextTimedPhase, started: Option<u64>, now: u64)
        ensures
            *final(self) == (ContextPhaseTracker {
                timings: match started {
                    Some(start) => with_time(old(self).timings, phase, span(start, now)),
                    None => old(self).timings,
                },
                ..*old(self)
            }),
    {
        let start: u64 = match started {
            Some(start) => start,
            None => {
                return;
            },
        };
        let more: u64 = now.saturating_sub(start);
        let mut timings = self.timings;
        match phase {
            ContextTimedPhase::ExactSymbolLookup => {
                timings.exact_symbol_lookup = timings.exact_symbol_lookup.saturating_add(more);
            },
            ContextTimedPhase::SymbolSearch => {
                timings.symbol_search = timings.symbol_search.saturating_add(more);
            },
            ContextTimedPhase::ReferenceSearch => {
                timings.reference_search = timings.reference_search.saturating_add(more);
            },
            ContextTimedPhase::LexicalSearch => {
                timings.lexical_search = timings.lexical_search.saturating_add(more);
            },
            ContextTimedPhase::LexicalVerify => {
                timings.lexical_verify = timings.lexical_verify.saturating_add(more);
            },
            ContextTimedPhase::EnclosingLookup => {
                timings.enclosing_lookup = timings.enclosing_lookup.saturating_add(more);
            },
            ContextTimedPhase::AdaptiveExcerpt => {
                timings.adaptive_excerpt = timings.adaptive_excerpt.saturating_add(more);
            },
            ContextTimedPhase::StoredExcerpt => {
                timings.stored_excerpt = timings.stored_excerpt.saturating_add(more);
            },
        }
        self.timings = timings;
    }

    /// The start of a piece of work, where times are collected.
    pub fn timer(&self, now: u64) -> (r: Option<u64>)
        ensures
            r == if self.enabled {
                Some(now)
            } else {
                None
            },
    {
        if self.enabled {
            Some(now)
        } else {
            None
        }
    }

    /// Notes a lookup, where lookups are collected.
    pub fn record_primitive(&mut self, kind: &str, normalized_inputs: String)
        ensures
            final(self)@ == noted(old(self)@, kind@, normalized_inputs@),
    {
        if self.enabled {
            let ghost before = views(self.primitive_keys@);
            let key = PrimitiveKey {
                generation: self.generation,
                kind: copy_text(kind),
                inputs: normalized_inputs,
            };
            let ghost added = key@;
            self.primitive_keys.push(key);
            assert(views(self.primitive_keys@) =~= before.push(added));
        }
    }

    /// Notes lookups of what encloses lines.
    pub fn record_enclosing_locations(&mut self, locations: &Vec<FileLine>)
        ensures
            final(self)@ == after_locations(old(self)@, locations@),
    {
        if !self.enabled {
            return;
        }
        let ghost start = self@;
        self.counters.enclosing_location_batches =
        self.counters.enclosing_location_batches.saturating_add(one_if(locations.len() > 0));
        self.counters.enclosing_location_requests =
        self.counters.enclosing_location_requests.saturating_add(locations.len());
        let ghost base = self@;
        let ghost keys = location_keys(start.generation, locations@);
        let mut i: usize = 0;
        proof {
            assert(self@.enclosing_locations =~= united(
                start.enclosing_locations,
                locations@.take(0),
            ));
            assert(self@.primitive_keys =~= start.primitive_keys + keys.take(0));
        }
        while i < locations.len()
            invariant
                i <= locations.len(),
                self.enabled,
                base.enabled,
                self.generation == start.generation,
                keys == location_keys(start.generation, locations@),
                self@ == (TrackerView {
                    enclosing_locations: united(
                        start.enclosing_locations,
                        locations@.take(i as int),
                    ),
                    primitive_keys: start.primitive_keys + keys.take(i as int),
                    ..base
                }),
            decreases locations.len() - i,
        {
            let location = locations[i];
            proof {
                united_push(start.enclosing_locations, locations@, i as int);
            }
            if !has_line(&self.enclosing_locations, location) {
                self.enclosing_locations.push(location);
            }
            let inputs = joined(signed(location.file_id), location.line);
            self.record_primitive("enclosing_symbol", inputs);
            assert(self@.primitive_keys =~= start.primitive_keys + keys.take(i + 1));
            i += 1;
        }
        proof {
            assert(locations@.take(locations@.len() as int) =~= locations@);
            assert(keys.take(keys.len() as int) =~= keys);
        }
    }

    /// Notes lookups of excerpts of declarations.
    pub fn record_adaptive_excerpts(&mut self, requests: &Vec<AdaptiveExcerptRequest>)
        ensures
            final(self)@ == after_adaptive(old(self)@, requests@),
    {
        if !self.enabled {
            return;
        }
        let ghost start = self@;
        self.counters.adaptive_excerpt_batches =
        self.counters.adaptive_excerpt_batches.saturating_add(one_if(requests.len() > 0));
        self.counters.adaptive_excerpt_requests =
        self.counters.adaptive_excerpt_requests.saturating_add(requests.len());
        let ghost base = self@;
        let ghost told = told_requests(requests@);
        let ghost keys = adaptive_keys(start.generation, requests@);
        let mut i: usize = 0;
        proof {
            assert(self@.adaptive_excerpts =~= united(start.adaptive_excerpts, told.take(0)));
            assert(self@.primitive_keys =~= start.primitive_keys + keys.take(0));
        }
        while i < requests.len()
            invariant
                i <= requests.len(),
                self.enabled,
                base.enabled,
                self.generation == start.generation,
                told == told_requests(requests@),
                keys == adaptive_keys(start.generation, requests@),
                self@ == (TrackerView {
                    adaptive_excerpts: united(start.adaptive_excerpts, told.take(i as int)),
                    primitive_keys: start.primitive_keys + keys.take(i as int),
                    ..base
                }),
            decreases requests.len() - i,
        {
            let request = requests[i];
            proof {
                united_push(start.adaptive_excerpts, told, i as int);
            }
            let counted = AdaptiveExcerptRequest { selection_budget: None, ..request };
            if !has_adaptive(&self.adaptive_excerpts, counted) {
                self.adaptive_excerpts.push(counted);
            }
            let declared = joined(
                joined(signed(request.file_id), request.declaration_start),
                request.declaration_end,
            );
            let inputs = joined(joined(declared, request.matched_line), request.token_budget);
            self.record_primitive("adaptive_excerpt", inputs);
            assert(self@.primitive_keys =~= start.primitive_keys + keys.take(i + 1));
            i += 1;
        }
        proof {
            assert(told.take(told.len() as int) =~= told);
            assert(keys.take(keys.len() as int) =~= keys);
        }
    }

    /// Notes lookups of stored lines.
    pub fn record_stored_excerpts(&mut self, requests: &Vec<StoredExcerptRequest>)
        ensures
            final(self)@ == after_stored(old(self)@, requests@),
    {
        if !self.enabled {
            return;
        }
        let ghost start = self@;
        self.counters.stored_excerpt_batches =
        self.counters.stored_excerpt_batches.saturating_add(one_if(requests.len() > 0));
        self.counters.stored_excerpt_requests =
        self.counters.stored_excerpt_requests.saturating_add(requests.len());
        let ghost base = self@;
        let ghost keys = stored_keys(start.generation, requests@);
        let mut i: usize = 0;
        proof {
            assert(self@.stored_excerpts =~= united(start.stored_excerpts, requests@.take(0)));
            assert(self@.primitive_keys =~= start.primitive_keys + keys.take(0));
        }
        while i < requests.len()
            invariant
                i <= requests.len(),
                self.enabled,
                base.enabled,
                self.generation == start.generation,
                keys == stored_keys(start.generation, requests@),
                self@ == (TrackerView {
                    stored_excerpts: united(start.stored_excerpts, requests@.take(i as int)),
                    primitive_keys: start.primitive_keys + keys.take(i as int),
                    ..base
                }),
            decreases requests.len() - i,
        {
            let request = requests[i];
            proof {
                united_push(start.stored_excerpts, requests@, i as int);
            }
            if !has_stored(&self.stored_excerpts, request) {
                self.stored_excerpts.push(request);
            }
            let desired = joined(
                joined(signed(request.file_id), request.desired_start_line),
                request.desired_end_line,
            );
            let required = joined(
                joined(desired, request.required_start_line),
                request.required_end_line,
            );
            self.record_primitive("stored_excerpt", joined(required, request.max_lines));
            assert(self@.primitive_keys =~= start.primitive_keys + keys.take(i + 1));
            i += 1;
        }
        proof {
            assert(requests@.take(requests@.len() as int) =~= requests@);
            assert(keys.take(keys.len() as int) =~= keys);
        }
    }

    /// What was counted, timed and noted; nothing where nothing is collected.
    pub fn finish(self, generated_candidates: usize, now: u64) -> (r: (
        ContextPhaseCounters,
        ContextPhaseTimings,
        Vec<PrimitiveKey>,
    ))
        ensures
            !self.enabled ==> r.0 == no_counters() && r.1 == no_timings() && r.2@.len() == 0,
            self.enabled ==> {
                &&& r.0 == (ContextPhaseCounters {
                    unique_enclosing_locations: self.enclosing_locations@.len() as usize,
                    unique_adaptive_excerpt_requests: self.adaptive_excerpts@.len() as usize,
                    unique_stored_excerpt_requests: self.stored_excerpts@.len() as usize,
                    generated_candidates,
                    ..self.counters
                })
                &&& r.1 == (ContextPhaseTimings {
                    total: match self.started {
                        Some(started) => span(started, now),
                        None => 0,
                    },
                    ..self.timings
                })
                &&& views(r.2@) == self@.primitive_keys
            },
    {
        if !self.enabled {
            return (ContextPhaseCounters::default(), ContextPhaseTimings::default(), Vec::new());
        }
        let mut counters = self.counters;
        counters.unique_enclosing_locations = self.enclosing_locations.len();
        counters.unique_adaptive_excerpt_requests = self.adaptive_excerpts.len();
        counters.unique_stored_excerpt_requests = self.stored_excerpts.len();
        counters.generated_candidates = generated_candidates;
        let mut timings = self.timings;
        timings.total =
        match self.started {
            Some(started) => now.saturating_sub(started),
            None => 0,
        };
        (counters, timings, self.primitive_keys)
    }
}

} // verus!
