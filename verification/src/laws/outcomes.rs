//! What is found at a revision.

use crate::change_receipt::ParserSymbol;
use crate::error::{Error, Fault};
use crate::history::compare::{minus, result_reason};
use crate::history::request::{operation_reads, results_fault, OperationView};
use crate::history::revision::{
    historical_view, optional_outcome, required_outcome, without_text, GitBlob,
};
use crate::history::types::{DiffSymbolsStatus, HistoryOperation};
use crate::profile::{last_at, ticks_told};
use crate::text::{number_of, stands_at, trimmed, words};
use vstd::prelude::*;

verus! {

/// A file that is missing at a revision is no error where it need not be there, and every
/// other failure is told as it is. A symbol that has to be there and is not is not found.
pub proof fn a_missing_file_is_no_error_where_it_may_be_missing(
    path: Seq<char>,
    name: Seq<char>,
    error: Error,
    blob: Result<GitBlob, Error>,
)
    ensures
        error@ == (Fault::InvalidInput {
            field: "path"@,
            reason: "file does not exist at revision"@,
        }) ==> optional_outcome(path, name, Err(error)) is Ok && optional_outcome(
            path,
            name,
            Err(error),
        )->Ok_0 is None,
        !(error@ is InvalidInput) ==> (optional_outcome(path, name, Err(error)) matches Err(fault)
            && fault == error@),
        required_outcome(path, name, Err(error)) matches Err(fault) && fault == error@,
        blob is Ok ==> {
            let maybe = optional_outcome(path, name, blob);
            let must = required_outcome(path, name, blob);
            &&& maybe is Err ==> must is Err && must->Err_0 == maybe->Err_0
            &&& (maybe matches Ok(Some(found)) ==> must is Ok && must->Ok_0 == found)
            &&& (maybe matches Ok(None) ==> must is Err && must->Err_0 is SymbolNotFound)
        },
{
}

/// A symbol at a revision is told by its own lines, in full, with the fingerprint of its
/// text and without the text itself.
pub proof fn a_historical_symbol_is_told_by_its_lines(
    revision: Seq<char>,
    path: Seq<char>,
    symbol: ParserSymbol,
    content: Seq<char>,
)
    ensures
        ({
            let told = historical_view(revision, path, symbol, content);
            &&& told.symbol.revision == revision
            &&& told.symbol.path == path
            &&& told.symbol.name == symbol.name@
            &&& told.symbol.kind == symbol.kind@
            &&& told.symbol.target_start_line == symbol.start_line
            &&& told.symbol.target_end_line == symbol.end_line
            &&& told.symbol.returned_end_line == symbol.end_line
            &&& !told.symbol.truncated
            &&& told.content == content
            &&& without_text(told.symbol).content is None
            &&& without_text(told.symbol).returned_end_line == 0
            &&& without_text(told.symbol).content_hash == told.symbol.content_hash
            &&& without_text(told.symbol).target_end_line == symbol.end_line
        }),
{
}

/// A result gives a reason exactly where its symbol was found at neither end or its
/// difference is cut off, the first before the second.
pub proof fn a_result_gives_a_reason_where_something_is_missing(
    status: DiffSymbolsStatus,
    truncated: bool,
    a: usize,
    b: nat,
)
    ensures
        result_reason(status, truncated) is None <==> !(status is NotFound) && !truncated,
        status is NotFound ==> result_reason(status, truncated) == Some(
            "symbol_not_found_at_both_revisions"@,
        ),
        !(status is NotFound) && truncated ==> result_reason(status, truncated) == Some(
            "diff_truncated"@,
        ),
        b <= a ==> minus(a, b) == a - b,
        b > a ==> minus(a, b) == 0,
{
}

/// A request for a symbol is read into the same operation with its texts trimmed, each in
/// its own place.
pub proof fn an_operation_is_read_as_it_was_asked(
    operation: HistoryOperation,
    path: Seq<char>,
    max_bytes: usize,
)
    ensures
        operation_reads(operation, Ok(path), max_bytes) matches Ok(read) ==> match (
            operation,
            read,
        ) {
            (
                HistoryOperation::ReadSymbol { symbol, revision, .. },
                OperationView::ReadSymbol { path: p, symbol: s, revision: r },
            ) => p == path && s == trimmed(symbol@) && r == trimmed(revision@),
            (
                HistoryOperation::SymbolLog { symbol, revision, .. },
                OperationView::SymbolLog { path: p, symbol: s, revision: r },
            ) => p == path && s == trimmed(symbol@) && (r is Some <==> revision is Some) && (
            revision is Some ==> r->0 == trimmed((revision->0)@)),
            (
                HistoryOperation::DiffSymbol { symbol, base_revision, head_revision, .. },
                OperationView::DiffSymbol {
                    path: p,
                    symbol: s,
                    base_revision: b,
                    head_revision: h,
                },
            ) => p == path && s == trimmed(symbol@) && b == trimmed(base_revision@) && h == trimmed(
                head_revision@,
            ),
            _ => false,
        },
        results_fault(None, max_bytes) is None,
{
}

/// The last place of a text in another is no earlier than any of its places.
pub proof fn the_last_place_is_no_earlier_than_any(
    hay: Seq<char>,
    needle: Seq<char>,
    from: int,
    at: int,
)
    requires
        0 <= at <= from,
        stands_at(hay, needle, at),
    ensures
        last_at(hay, needle, from) matches Some(last) && at <= last <= from && stands_at(
            hay,
            needle,
            last,
        ),
    decreases from,
{
    if !stands_at(hay, needle, from) {
        the_last_place_is_no_earlier_than_any(hay, needle, from - 1, at);
    }
}

/// The time of a process is that of its program and that of the system together, its
/// twelfth and thirteenth figures behind its name.
pub proof fn ticks_are_those_of_program_and_system(stat: Seq<char>, at: int)
    requires
        last_at(stat, ") "@, stat.len() as int) == Some(at),
    ensures
        ({
            let fields = words(stat.subrange(at + ") "@.len(), stat.len() as int));
            &&& fields.len() < 13 ==> ticks_told(stat) is None
            &&& ticks_told(stat) matches Some(ticks) ==> fields.len() >= 13 && number_of(
                fields[11],
                u64::MAX as nat,
            ) is Some && number_of(fields[12], u64::MAX as nat) is Some && ticks == number_of(
                fields[11],
                u64::MAX as nat,
            )->0 + number_of(fields[12], u64::MAX as nat)->0
        }),
{
}

} // verus!
