//! Serialized response sizing and caller-ceiling enforcement.
//!
//! Exact inclusive accounting is a self-referential equation: the accounting
//! fields are part of the payload that is counted. The accountant measures a
//! response again until the counts it holds are the counts it measures.

use crate::error::{Error, ResponseBudgetBreakdown};
use crate::model::{ContextResponseProfile, ResponseMeta};
use crate::text::copy_text;
use vstd::prelude::*;

verus! {

/// The most measurements of one response.
pub const MAX_ACCOUNTING_PASSES: usize = 64;

/// The text that stands for a receipt identity that is not known yet, as this library
/// defines it: as long as any identity of a receipt.
pub const RECEIPT_ID_RESPONSE_RESERVE: &'static str = "rcpt_00000000000000000000000000000000";

/// Whether the measured payload names the receipt as a resource.
#[derive(Debug, Clone, Copy, PartialEq, Eq, Structural)]
pub enum ReceiptResourceDecoration {
    Omit,
    Include,
}

/// The token counts of a serialized response.
#[derive(Debug, Clone, Copy, PartialEq, Eq, Structural)]
pub struct ResponseTokenAccounting {
    pub protocol_tokens: usize,
    pub path_and_metadata_tokens: usize,
    pub total_response_tokens: usize,
}

/// What measuring a response gives: its counts, or why it has none.
pub type Measurement = Result<ResponseTokenAccounting, Error>;

/// The serialized-response controls of one call.
#[derive(Debug, Clone, Copy, PartialEq, Eq, Structural)]
pub struct ServiceCallOptions {
    pub max_response_tokens: Option<usize>,
    pub context_response_profile: Option<ContextResponseProfile>,
    pub mcp_response_shape: bool,
}

/// The counts that metadata holds.
pub open spec fn counts(meta: ResponseMeta) -> ResponseTokenAccounting {
    ResponseTokenAccounting {
        protocol_tokens: meta.protocol_tokens,
        path_and_metadata_tokens: meta.path_and_metadata_tokens,
        total_response_tokens: meta.total_response_tokens,
    }
}

/// Metadata with other counts.
pub open spec fn with_counts(meta: ResponseMeta, value: ResponseTokenAccounting) -> ResponseMeta {
    ResponseMeta {
        protocol_tokens: value.protocol_tokens,
        path_and_metadata_tokens: value.path_and_metadata_tokens,
        total_response_tokens: value.total_response_tokens,
        ..meta
    }
}

/// No tokens at all.
pub open spec fn no_counts() -> ResponseTokenAccounting {
    ResponseTokenAccounting {
        protocol_tokens: 0,
        path_and_metadata_tokens: 0,
        total_response_tokens: 0,
    }
}

/// What may be said of the size of a response with the given metadata.
pub type Sizing = spec_fn(
    ResponseMeta,
    ReceiptResourceDecoration,
    Result<ResponseTokenAccounting, Error>,
) -> bool;

/// What `measure` may say.
pub open spec fn said_by<
    M: Fn(&ResponseMeta, ReceiptResourceDecoration) -> Result<ResponseTokenAccounting, Error>,
>(measure: M) -> Sizing {
    |
        meta: ResponseMeta,
        decoration: ReceiptResourceDecoration,
        outcome: Result<ResponseTokenAccounting, Error>,
    |
        call_ensures(measure, (&meta, decoration), outcome)
}

/// The counts that a response holds when it is measured for the `k`th time:
/// none at first, then those that were measured last.
pub open spec fn held_at(observed: Seq<ResponseTokenAccounting>, k: int) -> ResponseTokenAccounting {
    if k <= 0 {
        no_counts()
    } else {
        observed[k - 1]
    }
}

/// Whether the `k`th of `observed` was measured of a response that held the
/// counts measured before it, the first of one that held none.
pub open spec fn measured_at(
    said: Sizing,
    meta: ResponseMeta,
    decoration: ReceiptResourceDecoration,
    observed: Seq<ResponseTokenAccounting>,
    k: int,
) -> bool {
    said(with_counts(meta, held_at(observed, k)), decoration, Ok(observed[k]))
}

/// Whether `observed` are successive measurements of one response.
pub open spec fn measured(
    said: Sizing,
    meta: ResponseMeta,
    decoration: ReceiptResourceDecoration,
    observed: Seq<ResponseTokenAccounting>,
) -> bool {
    forall|k: int|
        0 <= k < observed.len() ==> #[trigger] measured_at(said, meta, decoration, observed, k)
}

/// Whether measuring ends with the `k`th measurement: it gave back the counts
/// that the response held, or counts that were seen before.
pub open spec fn ends_at(observed: Seq<ResponseTokenAccounting>, k: int) -> bool {
    observed[k] == held_at(observed, k) || observed.take(k).contains(observed[k])
}

/// Whether none of `observed` ended the measuring.
pub open spec fn goes_on(observed: Seq<ResponseTokenAccounting>) -> bool {
    forall|k: int| 0 <= k < observed.len() ==> !#[trigger] ends_at(observed, k)
}

/// Whether `value` is the largest total of a list, the last of the largest.
pub open spec fn largest(observed: Seq<ResponseTokenAccounting>, value: ResponseTokenAccounting) -> bool {
    exists|i: int|
        {
            &&& 0 <= i < observed.len()
            &&& #[trigger] observed[i] == value
            &&& forall|j: int|
                0 <= j < observed.len() ==> (#[trigger] observed[j]).total_response_tokens
                    <= value.total_response_tokens && (j > i ==> observed[j].total_response_tokens
                    < value.total_response_tokens)
        }
}

/// Whether `observed` is what was measured of a response, from no counts on
/// until measuring ended, and `value` the counts that it then holds: those that
/// measure as themselves or, where measuring runs in a cycle, the largest that
/// were seen.
pub open spec fn reached(
    said: Sizing,
    meta: ResponseMeta,
    decoration: ReceiptResourceDecoration,
    observed: Seq<ResponseTokenAccounting>,
    value: ResponseTokenAccounting,
) -> bool {
    let last = observed.len() - 1;
    &&& 1 <= observed.len() <= MAX_ACCOUNTING_PASSES
    &&& measured(said, meta, decoration, observed)
    &&& goes_on(observed.drop_last())
    &&& ends_at(observed, last)
    &&& if observed[last] == held_at(observed, last) {
        value == observed[last]
    } else {
        largest(observed, value)
    }
}

/// Whether `done` is `meta` with the counts that measuring reaches. What counts
/// `meta` held does not matter.
pub open spec fn finalized(
    said: Sizing,
    meta: ResponseMeta,
    decoration: ReceiptResourceDecoration,
    done: ResponseMeta,
) -> bool {
    &&& done == with_counts(meta, counts(done))
    &&& exists|observed: Seq<ResponseTokenAccounting>|
        #[trigger] reached(said, meta, decoration, observed, counts(done))
}

/// Whether `e` is an error of a measurement that measuring came to, or says
/// that measuring found no end.
pub open spec fn accounting_failure(
    said: Sizing,
    meta: ResponseMeta,
    decoration: ReceiptResourceDecoration,
    e: Error,
) -> bool {
    exists|observed: Seq<ResponseTokenAccounting>|
        {
            &&& #[trigger] measured(said, meta, decoration, observed)
            &&& goes_on(observed)
            &&& {
                ||| observed.len() < MAX_ACCOUNTING_PASSES && said(
                    with_counts(meta, held_at(observed, observed.len() as int)),
                    decoration,
                    Err(e),
                )
                ||| observed.len() == MAX_ACCOUNTING_PASSES && e@
                    == crate::error::Fault::ResponseAccountingInvariant(
                    "serialized response accounting did not reach a fixed point"@,
                )
            }
        }
}

/// Whether measuring the same metadata gives the same outcome every time.
pub open spec fn says_one_thing(said: Sizing) -> bool {
    forall|
        meta: ResponseMeta,
        decoration: ReceiptResourceDecoration,
        first: Result<ResponseTokenAccounting, Error>,
        second: Result<ResponseTokenAccounting, Error>,
    |
        #[trigger] said(meta, decoration, first) && #[trigger] said(meta, decoration, second)
            ==> first == second
}

/// Two runs of measuring agree as far as both go.
proof fn lemma_same_measurements(
    said: Sizing,
    meta: ResponseMeta,
    other: ResponseMeta,
    decoration: ReceiptResourceDecoration,
    first: Seq<ResponseTokenAccounting>,
    second: Seq<ResponseTokenAccounting>,
    k: int,
)
    requires
        says_one_thing(said),
        other == with_counts(meta, counts(other)),
        measured(said, meta, decoration, first),
        measured(said, other, decoration, second),
        0 <= k <= first.len(),
        k <= second.len(),
    ensures
        first.take(k) == second.take(k),
    decreases k,
{
    if k > 0 {
        lemma_same_measurements(said, meta, other, decoration, first, second, k - 1);
        assert(measured_at(said, meta, decoration, first, k - 1));
        assert(measured_at(said, other, decoration, second, k - 1));
        if k > 1 {
            assert(first.take(k - 1)[k - 2] == second.take(k - 1)[k - 2]);
        }
        assert(with_counts(meta, held_at(first, k - 1)) == with_counts(
            other,
            held_at(second, k - 1),
        ));
        assert(Ok::<ResponseTokenAccounting, Error>(first[k - 1]) == Ok::<
            ResponseTokenAccounting,
            Error,
        >(second[k - 1]));
        assert forall|i: int| 0 <= i < k implies first.take(k)[i] == second.take(k)[i] by {
            if i < k - 1 {
                assert(first.take(k - 1)[i] == second.take(k - 1)[i]);
            }
        }
    }
    assert(first.take(k) =~= second.take(k));
}

/// A list holds one largest total that no later one reaches.
proof fn lemma_one_largest(
    observed: Seq<ResponseTokenAccounting>,
    first: ResponseTokenAccounting,
    second: ResponseTokenAccounting,
)
    requires
        largest(observed, first),
        largest(observed, second),
    ensures
        first == second,
{
    let i = choose|i: int|
        {
            &&& 0 <= i < observed.len()
            &&& #[trigger] observed[i] == first
            &&& forall|j: int|
                0 <= j < observed.len() ==> (#[trigger] observed[j]).total_response_tokens
                    <= first.total_response_tokens && (j > i ==> observed[j].total_response_tokens
                    < first.total_response_tokens)
        };
    let j = choose|i: int|
        {
            &&& 0 <= i < observed.len()
            &&& #[trigger] observed[i] == second
            &&& forall|j: int|
                0 <= j < observed.len() ==> (#[trigger] observed[j]).total_response_tokens
                    <= second.total_response_tokens && (j > i ==> observed[j].total_response_tokens
                    < second.total_response_tokens)
        };
    assert(observed[i] == first && observed[j] == second);
}

/// Whether measuring ends at a place is told by what was measured up to it.
proof fn lemma_ends_at_prefix(
    first: Seq<ResponseTokenAccounting>,
    second: Seq<ResponseTokenAccounting>,
    k: int,
)
    requires
        0 <= k < first.len(),
        k < second.len(),
        first.take(k + 1) == second.take(k + 1),
    ensures
        ends_at(first, k) == ends_at(second, k),
{
    assert(first[k] == first.take(k + 1)[k]);
    assert(second[k] == second.take(k + 1)[k]);
    if k > 0 {
        assert(first[k - 1] == first.take(k + 1)[k - 1]);
        assert(second[k - 1] == second.take(k + 1)[k - 1]);
    }
    assert(first.take(k) =~= first.take(k + 1).take(k));
    assert(second.take(k) =~= second.take(k + 1).take(k));
}

/// The counts that a response settles at are told by the response alone: the
/// counts that it held before do not matter, and settling a settled response
/// again changes nothing. This needs that measuring gives one outcome.
pub proof fn settling_is_stable(
    said: Sizing,
    meta: ResponseMeta,
    other: ResponseMeta,
    decoration: ReceiptResourceDecoration,
    done: ResponseMeta,
    again: ResponseMeta,
)
    requires
        says_one_thing(said),
        other == with_counts(meta, counts(other)),
        finalized(said, meta, decoration, done),
        finalized(said, other, decoration, again),
    ensures
        again == done,
        finalized(said, done, decoration, done),
{
    let first = choose|observed: Seq<ResponseTokenAccounting>|
        #[trigger] reached(said, meta, decoration, observed, counts(done));
    let second = choose|observed: Seq<ResponseTokenAccounting>|
        #[trigger] reached(said, other, decoration, observed, counts(again));
    let common = if first.len() < second.len() {
        first.len() as int
    } else {
        second.len() as int
    };
    lemma_same_measurements(said, meta, other, decoration, first, second, common);
    lemma_ends_at_prefix(first, second, common - 1);
    if first.len() < second.len() {
        assert(!ends_at(second.drop_last(), common - 1));
        assert(second.drop_last().take(common) =~= second.take(common));
        lemma_ends_at_prefix(second, second.drop_last(), common - 1);
    }
    if second.len() < first.len() {
        assert(!ends_at(first.drop_last(), common - 1));
        assert(first.drop_last().take(common) =~= first.take(common));
        lemma_ends_at_prefix(first, first.drop_last(), common - 1);
    }
    assert(first.take(common) =~= first);
    assert(second.take(common) =~= second);
    if first.last() != held_at(first, common - 1) {
        lemma_one_largest(first, counts(done), counts(again));
    }
    assert forall|k: int| 0 <= k < first.len() implies #[trigger] measured_at(
        said,
        done,
        decoration,
        first,
        k,
    ) by {
        assert(measured_at(said, meta, decoration, first, k));
        assert(with_counts(meta, held_at(first, k)) == with_counts(done, held_at(first, k)));
    }
    assert(reached(said, done, decoration, first, counts(done)));
}

/// What one sizing reaches, another that says at least as much reaches too.
pub proof fn lemma_settles_alike(
    said: Sizing,
    wider: Sizing,
    meta: ResponseMeta,
    decoration: ReceiptResourceDecoration,
)
    requires
        forall|
            held: ResponseMeta,
            naming: ReceiptResourceDecoration,
            outcome: Result<ResponseTokenAccounting, Error>,
        |
            #[trigger] said(held, naming, outcome) ==> wider(held, naming, outcome),
    ensures
        forall|done: ResponseMeta|
            #[trigger] finalized(said, meta, decoration, done) ==> finalized(
                wider,
                meta,
                decoration,
                done,
            ),
        forall|e: Error|
            #[trigger] accounting_failure(said, meta, decoration, e) ==> accounting_failure(
                wider,
                meta,
                decoration,
                e,
            ),
{
    assert forall|observed: Seq<ResponseTokenAccounting>|
        #[trigger] measured(said, meta, decoration, observed) implies measured(
        wider,
        meta,
        decoration,
        observed,
    ) by {
        assert forall|k: int| 0 <= k < observed.len() implies #[trigger] measured_at(
            wider,
            meta,
            decoration,
            observed,
            k,
        ) by {
            assert(measured_at(said, meta, decoration, observed, k));
        }
    }
    assert forall|done: ResponseMeta| #[trigger]
        finalized(said, meta, decoration, done) implies finalized(wider, meta, decoration, done) by {
        let observed = choose|observed: Seq<ResponseTokenAccounting>|
            #[trigger] reached(said, meta, decoration, observed, counts(done));
        assert(reached(wider, meta, decoration, observed, counts(done)));
    }
}

/// The decoration that metadata asks for: a receipt is named where there is one.
pub open spec fn receipt_decoration(meta: ResponseMeta) -> ReceiptResourceDecoration {
    if meta.receipt_id is None {
        ReceiptResourceDecoration::Omit
    } else {
        ReceiptResourceDecoration::Include
    }
}

/// Metadata with the room that a receipt may take.
pub open spec fn reserves(meta: ResponseMeta, returned_items: usize, sized: ResponseMeta) -> bool {
    &&& sized == ResponseMeta {
        receipt_id: sized.receipt_id,
        receipt_suppressed_exact: returned_items,
        receipt_suppressed_overlap: returned_items,
        receipt_near_duplicates: returned_items,
        ..meta
    }
    &&& sized.receipt_id is Some
    &&& sized.receipt_id->0@ == match meta.receipt_id {
        Some(id) => id@,
        None => RECEIPT_ID_RESPONSE_RESERVE@,
    }
}

/// What is reported of a response that does not fit.
pub open spec fn budget_fault(
    meta: ResponseMeta,
    provided: usize,
    minimum: usize,
) -> crate::error::Fault {
    crate::error::Fault::ResponseBudgetExceeded {
        provided_max_response_tokens: provided,
        minimum_required_response_tokens: minimum,
        retry_with_at_least: minimum,
        breakdown: ResponseBudgetBreakdown {
            mandatory_response_tokens: meta.total_response_tokens,
            source_tokens: meta.source_tokens,
            protocol_tokens: meta.protocol_tokens,
            path_and_metadata_tokens: meta.path_and_metadata_tokens,
            receipt_reserve_tokens: if minimum > meta.total_response_tokens {
                (minimum - meta.total_response_tokens) as usize
            } else {
                0
            },
        },
    }
}

proof fn lemma_measured_push(
    said: Sizing,
    meta: ResponseMeta,
    decoration: ReceiptResourceDecoration,
    observed: Seq<ResponseTokenAccounting>,
    value: ResponseTokenAccounting,
)
    requires
        measured(said, meta, decoration, observed),
        goes_on(observed),
        said(
            with_counts(meta, held_at(observed, observed.len() as int)),
            decoration,
            Ok(value),
        ),
    ensures
        measured(said, meta, decoration, observed.push(value)),
        observed.push(value).drop_last() == observed,
        ends_at(observed.push(value), observed.len() as int) == (value == held_at(
            observed,
            observed.len() as int,
        ) || observed.contains(value)),
        !ends_at(observed.push(value), observed.len() as int) ==> goes_on(observed.push(value)),
{
    let all = observed.push(value);
    assert forall|k: int| 0 <= k < all.len() implies #[trigger] measured_at(
        said,
        meta,
        decoration,
        all,
        k,
    ) by {
        if k < observed.len() {
            assert(measured_at(said, meta, decoration, observed, k));
        }
    }
    assert(all.drop_last() =~= observed);
    assert(all.take(observed.len() as int) =~= observed);
    assert forall|k: int| 0 <= k < observed.len() implies !#[trigger] ends_at(all, k) by {
        assert(!ends_at(observed, k));
        assert(all.take(k + 1) =~= observed.take(k + 1));
        lemma_ends_at_prefix(observed, all, k);
    }
}

/// Whether counts were seen before, and the largest total seen so far.
fn cycle_fallback(
    observed: &Vec<ResponseTokenAccounting>,
    accounting: ResponseTokenAccounting,
) -> (r: (bool, ResponseTokenAccounting))
    ensures
        r.0 == observed@.contains(accounting),
        largest(observed@.push(accounting), r.1),
{
    let mut seen = false;
    let mut fallback = accounting;
    let mut i: usize = observed.len();
    let ghost all = observed@.push(accounting);
    let ghost mut best: int = observed@.len() as int;
    while i > 0
        invariant
            i <= observed.len(),
            all == observed@.push(accounting),
            i <= best < all.len(),
            all[best] == fallback,
            seen ==> observed@.contains(accounting),
            !seen ==> forall|j: int| i <= j < observed.len() ==> observed@[j] != accounting,
            forall|j: int|
                i <= j < all.len() ==> (#[trigger] all[j]).total_response_tokens
                    <= fallback.total_response_tokens,
            forall|j: int|
                best < j < all.len() ==> (#[trigger] all[j]).total_response_tokens
                    < fallback.total_response_tokens,
        decreases i,
    {
        i -= 1;
        assert(all[i as int] == observed@[i as int]);
        if observed[i] == accounting {
            seen = true;
        }
        if observed[i].total_response_tokens > fallback.total_response_tokens {
            fallback = observed[i];
            proof {
                best = i as int;
            }
        }
    }
    (seen, fallback)
}

/// Owns serialized response sizing and caller-ceiling enforcement.
///
/// `measure` counts the tokens of the response as it would be serialized with
/// the given metadata.
pub struct ResponseAccountant<
    M: Fn(&ResponseMeta, ReceiptResourceDecoration) -> Result<ResponseTokenAccounting, Error>,
> {
    pub measure: M,
}

impl<
    M: Fn(&ResponseMeta, ReceiptResourceDecoration) -> Result<ResponseTokenAccounting, Error>,
> ResponseAccountant<M> {
    /// Whether every response can be measured.
    pub open spec fn total(self) -> bool {
        forall|meta: &ResponseMeta, decoration: ReceiptResourceDecoration|
            call_requires(self.measure, (meta, decoration))
    }

    /// An accountant that measures with `measure`.
    pub fn new(measure: M) -> (r: Self)
        ensures
            r.measure == measure,
    {
        ResponseAccountant { measure }
    }

    /// Settles the counts of a response.
    pub fn finalize(&self, meta: &mut ResponseMeta) -> (r: Result<(), Error>)
        requires
            self.total(),
        ensures
            *final(meta) == with_counts(*old(meta), counts(*final(meta))),
            match r {
                Ok(_) => finalized(
                    said_by(self.measure),
                    *old(meta),
                    ReceiptResourceDecoration::Omit,
                    *final(meta),
                ),
                Err(e) => accounting_failure(
                    said_by(self.measure),
                    *old(meta),
                    ReceiptResourceDecoration::Omit,
                    e,
                ),
            },
    {
        self.finalize_for(meta)
    }

    /// Settles the counts of a response that names no receipt resource.
    pub fn finalize_for(&self, meta: &mut ResponseMeta) -> (r: Result<(), Error>)
        requires
            self.total(),
        ensures
            *final(meta) == with_counts(*old(meta), counts(*final(meta))),
            match r {
                Ok(_) => finalized(
                    said_by(self.measure),
                    *old(meta),
                    ReceiptResourceDecoration::Omit,
                    *final(meta),
                ),
                Err(e) => accounting_failure(
                    said_by(self.measure),
                    *old(meta),
                    ReceiptResourceDecoration::Omit,
                    e,
                ),
            },
    {
        self.finalize_accounting(meta, ReceiptResourceDecoration::Omit)
    }

    /// The tokens of a response that names no receipt resource.
    pub fn finalized_tokens_for(&self, meta: &ResponseMeta) -> (r: Result<usize, Error>)
        requires
            self.total(),
        ensures
            match r {
                Ok(tokens) => exists|done: ResponseMeta|
                    #[trigger] finalized(
                        said_by(self.measure),
                        *meta,
                        ReceiptResourceDecoration::Omit,
                        done,
                    ) && tokens == done.total_response_tokens,
                Err(e) => accounting_failure(
                    said_by(self.measure),
                    *meta,
                    ReceiptResourceDecoration::Omit,
                    e,
                ),
            },
    {
        let mut sized = meta.duplicate();
        match self.finalize_for(&mut sized) {
            Ok(_) => Ok(sized.total_response_tokens),
            Err(e) => Err(e),
        }
    }

    /// The tokens of a response that names its receipt, where it has one.
    pub fn finalized_tokens_with_receipt_resource(&self, meta: &ResponseMeta) -> (r: Result<
        usize,
        Error,
    >)
        requires
            self.total(),
        ensures
            match r {
                Ok(tokens) => exists|done: ResponseMeta|
                    #[trigger] finalized(
                        said_by(self.measure),
                        *meta,
                        receipt_decoration(*meta),
                        done,
                    ) && tokens == done.total_response_tokens,
                Err(e) => accounting_failure(said_by(self.measure), *meta, receipt_decoration(*meta), e),
            },
    {
        let mut sized = meta.duplicate();
        match self.finalize_with_receipt_resource(&mut sized) {
            Ok(_) => Ok(sized.total_response_tokens),
            Err(e) => Err(e),
        }
    }

    /// Settles the counts of a response that names its receipt, where it has one.
    pub fn finalize_with_receipt_resource(&self, meta: &mut ResponseMeta) -> (r: Result<(), Error>)
        requires
            self.total(),
        ensures
            *final(meta) == with_counts(*old(meta), counts(*final(meta))),
            match r {
                Ok(_) => finalized(
                    said_by(self.measure),
                    *old(meta),
                    receipt_decoration(*old(meta)),
                    *final(meta),
                ),
                Err(e) => accounting_failure(
                    said_by(self.measure),
                    *old(meta),
                    receipt_decoration(*old(meta)),
                    e,
                ),
            },
    {
        if meta.receipt_id.is_none() {
            return self.finalize_for(meta);
        }
        self.finalize_accounting(meta, ReceiptResourceDecoration::Include)
    }

    /// Measures a response from no counts on until its counts hold of
    /// themselves. Only the three counts change, whether it succeeds or fails.
    #[verifier::rlimit(40)]
    pub fn finalize_accounting(
        &self,
        meta: &mut ResponseMeta,
        receipt_resource: ReceiptResourceDecoration,
    ) -> (r: Result<(), Error>)
        requires
            self.total(),
        ensures
            *final(meta) == with_counts(*old(meta), counts(*final(meta))),
            match r {
                Ok(_) => finalized(said_by(self.measure), *old(meta), receipt_resource, *final(meta)),
                Err(e) => accounting_failure(said_by(self.measure), *old(meta), receipt_resource, e),
            },
    {
        let ghost start = *meta;
        let ghost said = said_by(self.measure);
        meta.protocol_tokens = 0;
        meta.path_and_metadata_tokens = 0;
        meta.total_response_tokens = 0;
        let mut observed: Vec<ResponseTokenAccounting> = Vec::new();
        let mut pass: usize = 0;
        while pass < MAX_ACCOUNTING_PASSES
            invariant
                self.total(),
                said == said_by(self.measure),
                start == *old(meta),
                pass <= MAX_ACCOUNTING_PASSES,
                observed.len() == pass,
                *meta == with_counts(start, held_at(observed@, pass as int)),
                measured(said, start, receipt_resource, observed@),
                goes_on(observed@),
            decreases MAX_ACCOUNTING_PASSES - pass,
        {
            let accounting = match (self.measure)(&*meta, receipt_resource) {
                Ok(accounting) => accounting,
                Err(e) => {
                    assert(said(*meta, receipt_resource, Err(e)));
                    assert(*meta == with_counts(start, counts(*meta)));
                    return Err(e);
                },
            };
            let (seen, fallback) = cycle_fallback(&observed, accounting);
            let ghost all = observed@.push(accounting);
            proof {
                assert(said(*meta, receipt_resource, Ok(accounting)));
                lemma_measured_push(said, start, receipt_resource, observed@, accounting);
            }
            if meta.protocol_tokens == accounting.protocol_tokens && meta.path_and_metadata_tokens
                == accounting.path_and_metadata_tokens && meta.total_response_tokens
                == accounting.total_response_tokens {
                proof {
                    assert(accounting == held_at(observed@, pass as int));
                    assert(held_at(all, pass as int) == held_at(observed@, pass as int));
                    assert(counts(*meta) == accounting);
                    assert(reached(said, start, receipt_resource, all, counts(*meta)));
                }
                return Ok(());
            }
            if seen {
                meta.protocol_tokens = fallback.protocol_tokens;
                meta.path_and_metadata_tokens = fallback.path_and_metadata_tokens;
                meta.total_response_tokens = fallback.total_response_tokens;
                proof {
                    assert(held_at(all, pass as int) == held_at(observed@, pass as int));
                    assert(fallback == counts(*meta));
                    assert(reached(said, start, receipt_resource, all, counts(*meta)));
                }
                return Ok(());
            }
            observed.push(accounting);
            meta.protocol_tokens = accounting.protocol_tokens;
            meta.path_and_metadata_tokens = accounting.path_and_metadata_tokens;
            meta.total_response_tokens = accounting.total_response_tokens;
            pass += 1;
        }
        assert(*meta == with_counts(start, counts(*meta)));
        Err(
            Error::ResponseAccountingInvariant(
                copy_text("serialized response accounting did not reach a fixed point"),
            ),
        )
    }

    /// Whether a response fits the caller's ceiling. Without one everything fits.
    pub fn fits(&self, meta: &ResponseMeta, options: ServiceCallOptions) -> (r: Result<bool, Error>)
        requires
            self.total(),
        ensures
            match (options.max_response_tokens, r) {
                (None, Ok(answer)) => answer,
                (Some(limit), Ok(answer)) => exists|done: ResponseMeta|
                    #[trigger] finalized(
                        said_by(self.measure),
                        *meta,
                        ReceiptResourceDecoration::Omit,
                        done,
                    ) && answer == (done.total_response_tokens <= limit),
                (Some(_), Err(e)) => accounting_failure(
                    said_by(self.measure),
                    *meta,
                    ReceiptResourceDecoration::Omit,
                    e,
                ),
                (None, Err(_)) => false,
            },
    {
        match options.max_response_tokens {
            None => Ok(true),
            Some(limit) => match self.finalized_tokens_for(meta) {
                Ok(tokens) => Ok(tokens <= limit),
                Err(e) => Err(e),
            },
        }
    }

    /// Whether a response fits the caller's ceiling with room for a receipt.
    pub fn fits_with_receipt_reserve(
        &self,
        meta: &ResponseMeta,
        returned_items: usize,
        options: ServiceCallOptions,
    ) -> (r: Result<bool, Error>)
        requires
            self.total(),
        ensures
            match (options.max_response_tokens, r) {
                (None, Ok(answer)) => answer,
                (Some(limit), Ok(answer)) => exists|sized: ResponseMeta, done: ResponseMeta|
                    #[trigger] reserves(*meta, returned_items, sized) && #[trigger] finalized(
                        said_by(self.measure),
                        sized,
                        ReceiptResourceDecoration::Include,
                        done,
                    ) && answer == (done.total_response_tokens <= limit),
                (Some(_), Err(e)) => exists|sized: ResponseMeta|
                    #[trigger] reserves(*meta, returned_items, sized) && accounting_failure(
                        said_by(self.measure),
                        sized,
                        ReceiptResourceDecoration::Include,
                        e,
                    ),
                (None, Err(_)) => false,
            },
    {
        match options.max_response_tokens {
            None => Ok(true),
            Some(limit) => match self.finalized_tokens_with_receipt_reserve(meta, returned_items) {
                Ok(tokens) => Ok(tokens <= limit),
                Err(e) => Err(e),
            },
        }
    }

    /// The tokens of a response with room for a receipt.
    pub fn finalized_tokens_with_receipt_reserve(
        &self,
        meta: &ResponseMeta,
        returned_items: usize,
    ) -> (r: Result<usize, Error>)
        requires
            self.total(),
        ensures
            match r {
                Ok(tokens) => exists|sized: ResponseMeta, done: ResponseMeta|
                    #[trigger] reserves(*meta, returned_items, sized) && #[trigger] finalized(
                        said_by(self.measure),
                        sized,
                        ReceiptResourceDecoration::Include,
                        done,
                    ) && tokens == done.total_response_tokens,
                Err(e) => exists|sized: ResponseMeta|
                    #[trigger] reserves(*meta, returned_items, sized) && accounting_failure(
                        said_by(self.measure),
                        sized,
                        ReceiptResourceDecoration::Include,
                        e,
                    ),
            },
    {
        let mut sized = meta.duplicate();
        if sized.receipt_id.is_none() {
            sized.receipt_id = Some(copy_text(RECEIPT_ID_RESPONSE_RESERVE));
        }
        sized.receipt_suppressed_exact = returned_items;
        sized.receipt_suppressed_overlap = returned_items;
        sized.receipt_near_duplicates = returned_items;
        assert(reserves(*meta, returned_items, sized));
        match self.finalize_with_receipt_resource(&mut sized) {
            Ok(_) => Ok(sized.total_response_tokens),
            Err(e) => Err(e),
        }
    }

    /// The error that tells what a response would have needed.
    pub fn budget_exceeded(
        meta: &ResponseMeta,
        provided_max_response_tokens: usize,
        minimum_required_response_tokens: usize,
    ) -> (r: Error)
        ensures
            r@ == budget_fault(
                *meta,
                provided_max_response_tokens,
                minimum_required_response_tokens,
            ),
    {
        Error::ResponseBudgetExceeded {
            provided_max_response_tokens,
            minimum_required_response_tokens,
            retry_with_at_least: minimum_required_response_tokens,
            breakdown: ResponseBudgetBreakdown {
                mandatory_response_tokens: meta.total_response_tokens,
                source_tokens: meta.source_tokens,
                protocol_tokens: meta.protocol_tokens,
                path_and_metadata_tokens: meta.path_and_metadata_tokens,
                receipt_reserve_tokens: minimum_required_response_tokens.saturating_sub(
                    meta.total_response_tokens,
                ),
            },
        }
    }

    /// The error of a response that does not fit.
    pub fn budget_error(&self, meta: &ResponseMeta, provided_max_response_tokens: usize) -> (r:
        Result<Error, Error>)
        requires
            self.total(),
        ensures
            match r {
                Ok(error) => exists|done: ResponseMeta|
                    #[trigger] finalized(
                        said_by(self.measure),
                        *meta,
                        ReceiptResourceDecoration::Omit,
                        done,
                    ) && error@ == budget_fault(
                        done,
                        provided_max_response_tokens,
                        done.total_response_tokens,
                    ),
                Err(e) => accounting_failure(
                    said_by(self.measure),
                    *meta,
                    ReceiptResourceDecoration::Omit,
                    e,
                ),
            },
    {
        let mut mandatory = meta.duplicate();
        match self.finalize_for(&mut mandatory) {
            Ok(_) => Ok(
                Self::budget_exceeded(
                    &mandatory,
                    provided_max_response_tokens,
                    mandatory.total_response_tokens,
                ),
            ),
            Err(e) => Err(e),
        }
    }

    /// The error of a response that does not fit with room for a receipt.
    pub fn budget_error_with_receipt_reserve(
        &self,
        meta: &ResponseMeta,
        returned_items: usize,
        provided_max_response_tokens: usize,
    ) -> (r: Result<Error, Error>)
        requires
            self.total(),
        ensures
            match r {
                Ok(error) => exists|sized: ResponseMeta, reserved: ResponseMeta, done: ResponseMeta|
                    {
                        &&& #[trigger] reserves(*meta, returned_items, sized)
                        &&& #[trigger] finalized(
                            said_by(self.measure),
                            sized,
                            ReceiptResourceDecoration::Include,
                            reserved,
                        )
                        &&& #[trigger] finalized(
                            said_by(self.measure),
                            *meta,
                            ReceiptResourceDecoration::Omit,
                            done,
                        )
                        &&& error@ == budget_fault(
                            done,
                            provided_max_response_tokens,
                            reserved.total_response_tokens,
                        )
                    },
                Err(e) => accounting_failure(
                    said_by(self.measure),
                    *meta,
                    ReceiptResourceDecoration::Omit,
                    e,
                ) || exists|sized: ResponseMeta|
                    #[trigger] reserves(*meta, returned_items, sized) && accounting_failure(
                        said_by(self.measure),
                        sized,
                        ReceiptResourceDecoration::Include,
                        e,
                    ),
            },
    {
        let minimum: usize = match self.finalized_tokens_with_receipt_reserve(
            meta,
            returned_items,
        ) {
            Ok(tokens) => tokens,
            Err(e) => {
                return Err(e);
            },
        };
        let mut mandatory = meta.duplicate();
        match self.finalize_for(&mut mandatory) {
            Ok(_) => Ok(Self::budget_exceeded(&mandatory, provided_max_response_tokens, minimum)),
            Err(e) => Err(e),
        }
    }

    /// Settles the counts of a response and refuses one above the ceiling.
    pub fn finalize_bounded(&self, meta: &mut ResponseMeta, options: ServiceCallOptions) -> (r:
        Result<(), Error>)
        requires
            self.total(),
        ensures
            *final(meta) == with_counts(*old(meta), counts(*final(meta))),
            match r {
                Ok(_) => finalized(
                    said_by(self.measure),
                    *old(meta),
                    ReceiptResourceDecoration::Omit,
                    *final(meta),
                ) && (options.max_response_tokens matches Some(limit)
                    ==> final(meta).total_response_tokens <= limit),
                Err(e) => accounting_failure(
                    said_by(self.measure),
                    *old(meta),
                    ReceiptResourceDecoration::Omit,
                    e,
                ) || {
                    &&& finalized(
                        said_by(self.measure),
                        *old(meta),
                        ReceiptResourceDecoration::Omit,
                        *final(meta),
                    )
                    &&& options.max_response_tokens is Some
                    &&& final(meta).total_response_tokens > options.max_response_tokens->0
                    &&& e@ == budget_fault(
                        *final(meta),
                        options.max_response_tokens->0,
                        final(meta).total_response_tokens,
                    )
                },
            },
    {
        match self.finalize_for(meta) {
            Ok(_) => {},
            Err(e) => {
                return Err(e);
            },
        }
        if let Some(limit) = options.max_response_tokens {
            if meta.total_response_tokens > limit {
                let minimum: usize = meta.total_response_tokens;
                return Err(Self::budget_exceeded(&*meta, limit, minimum));
            }
        }
        Ok(())
    }
}

/// A ceiling on the tokens of a serialized response.
#[derive(Debug, Clone, Copy, PartialEq, Eq, Structural)]
pub struct ResponseBudget {
    pub max_tokens: usize,
}

/// Tells how many tokens a response takes with only its first items.
pub trait PrefixSizing {
    /// Whether a size can be asked for.
    spec fn ready(&self) -> bool;

    /// Whether `outcome` may be said of the first `keep` items.
    spec fn says(&self, keep: usize, outcome: Result<usize, Error>) -> bool;

    /// The tokens of the response with its first `keep` items.
    fn tokens(&self, keep: usize) -> (r: Result<usize, Error>)
        requires
            self.ready(),
        ensures
            self.says(keep, r),
    ;
}

/// Whether the first `keep` items may be said to fit.
pub open spec fn prefix_fits<P: PrefixSizing>(sizing: P, max_tokens: usize, keep: usize) -> bool {
    exists|tokens: usize| tokens <= max_tokens && #[trigger] sizing.says(keep, Ok(tokens))
}

/// Whether the first `keep` items may be said not to fit.
pub open spec fn prefix_exceeds<P: PrefixSizing>(sizing: P, max_tokens: usize, keep: usize) -> bool {
    exists|tokens: usize| tokens > max_tokens && #[trigger] sizing.says(keep, Ok(tokens))
}

impl ResponseBudget {
    /// A ceiling.
    pub fn new(max_tokens: usize) -> (r: ResponseBudget)
        ensures
            r.max_tokens == max_tokens,
    {
        ResponseBudget { max_tokens }
    }

    /// A number of items that fits where one more does not, found by bisection.
    /// Where a longer prefix never takes fewer tokens it is the largest that
    /// fits.
    pub fn largest_fitting_prefix<P: PrefixSizing>(&self, items: usize, sizing: &P) -> (r: Result<
        Option<usize>,
        Error,
    >)
        requires
            sizing.ready(),
        ensures
            match r {
                Ok(Some(keep)) => {
                    &&& keep <= items
                    &&& prefix_fits(*sizing, self.max_tokens, keep)
                    &&& keep < items ==> prefix_exceeds(
                        *sizing,
                        self.max_tokens,
                        (keep + 1) as usize,
                    )
                },
                Ok(None) => prefix_exceeds(*sizing, self.max_tokens, 0),
                Err(e) => exists|keep: usize|
                    keep <= items && #[trigger] sizing.says(keep, Err::<usize, Error>(e)),
            },
    {
        match sizing.tokens(0) {
            Ok(tokens) => {
                if tokens > self.max_tokens {
                    return Ok(None);
                }
            },
            Err(e) => {
                return Err(e);
            },
        }
        let mut low: usize = 0;
        let mut high: usize = items;
        while low < high
            invariant
                low <= high <= items,
                sizing.ready(),
                prefix_fits(*sizing, self.max_tokens, low),
                high < items ==> prefix_exceeds(*sizing, self.max_tokens, (high + 1) as usize),
            decreases high - low,
        {
            let middle: usize = low + (high - low) / 2 + (high - low) % 2;
            match sizing.tokens(middle) {
                Ok(tokens) => {
                    if tokens <= self.max_tokens {
                        low = middle;
                    } else {
                        high = middle - 1;
                    }
                },
                Err(e) => {
                    return Err(e);
                },
            }
        }
        Ok(Some(low))
    }
}

/// Where a longer prefix never takes fewer tokens, a prefix that fits and whose
/// successor does not is the largest that fits.
pub proof fn fitting_prefix_is_largest(tokens: spec_fn(nat) -> nat, max_tokens: nat, items: nat, keep: nat)
    requires
        forall|i: nat, j: nat| i <= j <= items ==> #[trigger] tokens(i) <= #[trigger] tokens(j),
        keep <= items,
        tokens(keep) <= max_tokens,
        keep < items ==> tokens(keep + 1) > max_tokens,
    ensures
        forall|other: nat| other <= items && #[trigger] tokens(other) <= max_tokens ==> other <= keep,
{
    assert forall|other: nat| other <= items && #[trigger] tokens(other) <= max_tokens implies other
        <= keep by {
        if other > keep {
            assert(tokens(keep + 1) <= tokens(other));
        }
    }
}

/// The parts of a budget error add up: the mandatory tokens and the reserve
/// make the minimum that a retry needs.
pub proof fn budget_parts_sum(meta: ResponseMeta, provided: usize, minimum: usize)
    requires
        minimum >= meta.total_response_tokens,
    ensures
        budget_fault(meta, provided, minimum) matches crate::error::Fault::ResponseBudgetExceeded {
            retry_with_at_least,
            breakdown,
            ..
        } && retry_with_at_least == breakdown.mandatory_response_tokens
            + breakdown.receipt_reserve_tokens,
{
}

} // verus!
