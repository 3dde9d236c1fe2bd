//! Answering requests for paths.

use crate::accounting::{
    budget_fault, counts, with_counts, Measurement, ReceiptResourceDecoration, ServiceCallOptions,
};
use crate::cancellation::{answered, asked_first, check_cancelled, stopped};
use crate::error::Error;
use crate::files::{
    can_continue, cursor_text, files_fitted, files_unfit, paths_fitted, paths_unfit, EntryView,
    FileCursor, FileEntry, FileOperation, FilePage, FilesPathsResponse, FilesResponse,
};
use crate::context::finalize::exceeded_error;
use crate::fitting::{settle_meta, settle_says, settles_all, Metered};
use crate::model::ResponseMeta;
use crate::ordered::views;
use crate::services::Services;
use crate::text::{optional_text, texts};
use tokio_util::sync::CancellationToken;
use vstd::prelude::*;

verus! {

/// The text of the cursor behind a page, where there is one.
pub open spec fn next_text(next: Option<FileCursor>, generation: u64) -> Option<Seq<char>> {
    match next {
        Some(cursor) => Some(cursor_text(cursor@, generation)),
        None => None,
    }
}

/// Whether metadata tells where a page goes on.
pub open spec fn meta_continues(
    meta: ResponseMeta,
    next: Option<FileCursor>,
    generation: u64,
    out: ResponseMeta,
) -> bool {
    &&& out == (ResponseMeta { next_cursor: out.next_cursor, ..meta })
    &&& optional_text(out.next_cursor) == next_text(next, generation)
}

fn continue_meta(meta: ResponseMeta, next: &Option<FileCursor>, generation: u64) -> (r: ResponseMeta)
    ensures
        meta_continues(meta, *next, generation, r),
{
    let mut meta = meta;
    meta.next_cursor = match next {
        Some(cursor) => Some(cursor.encode(generation)),
        None => None,
    };
    meta
}

/// Whether `start` is the answer that holds a whole page.
pub open spec fn holds_page(
    page: FilePage,
    generation: u64,
    meta: ResponseMeta,
    start: FilesResponse,
) -> bool {
    start.entries == page.entries && meta_continues(meta, page.next, generation, start.meta)
}

/// The paths of entries.
pub open spec fn entry_paths(entries: Seq<EntryView>) -> Seq<Seq<char>> {
    Seq::new(entries.len(), |i: int| entries[i].path)
}

/// Whether `start` is the answer that holds the paths of a whole page.
pub open spec fn holds_paths(
    page: FilePage,
    generation: u64,
    meta: ResponseMeta,
    start: FilesPathsResponse,
) -> bool {
    texts(start.paths@) == entry_paths(views(page.entries@)) && meta_continues(
        meta,
        page.next,
        generation,
        start.meta,
    )
}

/// Whether settled metadata is within a ceiling.
pub open spec fn within(meta: ResponseMeta, max: Option<usize>) -> bool {
    max matches Some(limit) ==> meta.total_response_tokens <= limit
}

/// Whether an answer that was fitted may go out with this metadata, or an error
/// tell why not.
pub open spec fn settled_outcome<
    A: Metered,
    S: Fn(&A, &ResponseMeta, ReceiptResourceDecoration) -> Measurement,
>(measure: S, fitted: A, max: Option<usize>, outcome: Result<ResponseMeta, Error>) -> bool {
    match outcome {
        Ok(meta) => settle_says(measure, fitted, Ok(meta)) && meta == with_counts(
            fitted.held_meta(),
            counts(meta),
        ) && within(meta, max),
        Err(e) => {
            ||| settle_says(measure, fitted, Err(e))
            ||| exists|meta: ResponseMeta| #[trigger]
                settle_says(measure, fitted, Ok(meta)) && !within(meta, max) && e@
                    == budget_fault(meta, max->0, meta.total_response_tokens)
        },
    }
}

fn settle_within<
    A: Metered,
    S: Fn(&A, &ResponseMeta, ReceiptResourceDecoration) -> Measurement,
>(response: &A, max: Option<usize>, measure: &S) -> (r: Result<ResponseMeta, Error>)
    requires
        settles_all::<A, S>(*measure),
    ensures
        settled_outcome(*measure, *response, max, r),
{
    match settle_meta(response, measure) {
        Ok(meta) => {
            if let Some(limit) = max {
                if meta.total_response_tokens > limit {
                    let minimum: usize = meta.total_response_tokens;
                    return Err(exceeded_error(&meta, limit, minimum));
                }
            }
            Ok(meta)
        },
        Err(e) => Err(e),
    }
}

/// Whether a page may be answered so.
pub open spec fn page_answered<
    S: Fn(&FilesResponse, &ResponseMeta, ReceiptResourceDecoration) -> Measurement,
>(
    page: FilePage,
    operation: FileOperation,
    generation: u64,
    meta: ResponseMeta,
    max: Option<usize>,
    measure: S,
    r: Result<FilesResponse, Error>,
) -> bool {
    exists|start: FilesResponse| #[trigger]
        holds_page(page, generation, meta, start) && match r {
            Ok(out) => fitted_answer(measure, start, operation, generation, max, out),
            Err(e) => files_unfit(measure, start, operation, generation, max, e) || refused_answer(
                measure,
                start,
                operation,
                generation,
                max,
                e,
            ),
        }
}

/// Whether a page may go out so after it was fitted.
pub open spec fn fitted_answer<
    S: Fn(&FilesResponse, &ResponseMeta, ReceiptResourceDecoration) -> Measurement,
>(
    measure: S,
    start: FilesResponse,
    operation: FileOperation,
    generation: u64,
    max: Option<usize>,
    out: FilesResponse,
) -> bool {
    exists|fitted: FilesResponse| #[trigger]
        files_fitted(measure, start, operation, generation, max, fitted) && out.entries
            == fitted.entries && settled_outcome(measure, fitted, max, Ok(out.meta))
}

/// Whether a page may be refused after it was fitted.
pub open spec fn refused_answer<
    S: Fn(&FilesResponse, &ResponseMeta, ReceiptResourceDecoration) -> Measurement,
>(
    measure: S,
    start: FilesResponse,
    operation: FileOperation,
    generation: u64,
    max: Option<usize>,
    e: Error,
) -> bool {
    exists|fitted: FilesResponse| #[trigger]
        files_fitted(measure, start, operation, generation, max, fitted) && settled_outcome(
            measure,
            fitted,
            max,
            Err(e),
        )
}

/// Whether the paths of a page may be answered so.
pub open spec fn paths_answered<
    S: Fn(&FilesPathsResponse, &ResponseMeta, ReceiptResourceDecoration) -> Measurement,
>(
    page: FilePage,
    operation: FileOperation,
    generation: u64,
    meta: ResponseMeta,
    max: Option<usize>,
    measure: S,
    r: Result<FilesPathsResponse, Error>,
) -> bool {
    let entries = views(page.entries@);
    exists|start: FilesPathsResponse| #[trigger]
        holds_paths(page, generation, meta, start) && match r {
            Ok(out) => fitted_paths(measure, start, entries, operation, generation, max, out),
            Err(e) => paths_unfit(measure, start, entries, operation, generation, max, e)
                || refused_paths(measure, start, entries, operation, generation, max, e),
        }
}

/// Whether paths may go out so after they were fitted.
pub open spec fn fitted_paths<
    S: Fn(&FilesPathsResponse, &ResponseMeta, ReceiptResourceDecoration) -> Measurement,
>(
    measure: S,
    start: FilesPathsResponse,
    entries: Seq<EntryView>,
    operation: FileOperation,
    generation: u64,
    max: Option<usize>,
    out: FilesPathsResponse,
) -> bool {
    exists|fitted: FilesPathsResponse| #[trigger]
        paths_fitted(measure, start, entries, operation, generation, max, fitted) && out.paths
            == fitted.paths && settled_outcome(measure, fitted, max, Ok(out.meta))
}

/// Whether paths may be refused after they were fitted.
pub open spec fn refused_paths<
    S: Fn(&FilesPathsResponse, &ResponseMeta, ReceiptResourceDecoration) -> Measurement,
>(
    measure: S,
    start: FilesPathsResponse,
    entries: Seq<EntryView>,
    operation: FileOperation,
    generation: u64,
    max: Option<usize>,
    e: Error,
) -> bool {
    exists|fitted: FilesPathsResponse| #[trigger]
        paths_fitted(measure, start, entries, operation, generation, max, fitted)
            && settled_outcome(measure, fitted, max, Err(e))
}

fn paths_of(entries: &Vec<FileEntry>) -> (r: Vec<String>)
    ensures
        texts(r@) == entry_paths(views(entries@)),
{
    let mut out: Vec<String> = Vec::new();
    let mut i: usize = 0;
    let ghost all = entry_paths(views(entries@));
    assert(texts(out@) =~= all.take(0));
    while i < entries.len()
        invariant
            i <= entries.len(),
            all == entry_paths(views(entries@)),
            texts(out@) == all.take(i as int),
        decreases entries.len() - i,
    {
        let ghost before = texts(out@);
        out.push(entries[i].path.clone());
        proof {
            assert(all[i as int] == entries@[i as int]@.path);
            assert(texts(out@) =~= before.push(all[i as int]));
            assert(all.take(i + 1) =~= all.take(i as int).push(all[i as int]));
        }
        i += 1;
    }
    assert(all.take(all.len() as int) =~= all);
    out
}

impl Services {
    /// Answers with a page of entries, fitted to the ceiling of the call.
    pub fn files_sync<
        S: Fn(&FilesResponse, &ResponseMeta, ReceiptResourceDecoration) -> Measurement + Copy,
    >(
        page: FilePage,
        operation: FileOperation,
        generation: u64,
        meta: ResponseMeta,
        options: ServiceCallOptions,
        measure: S,
        cancellation: &CancellationToken,
    ) -> (r: Result<FilesResponse, Error>)
        requires
            can_continue(operation, views(page.entries@)),
            settles_all::<FilesResponse, S>(measure),
        ensures
            asked_first(r, *cancellation),
            (r is Err && stopped(r->Err_0, *cancellation)) || page_answered(
                page,
                operation,
                generation,
                meta,
                options.max_response_tokens,
                measure,
                r,
            ),
    {
        if let Err(e) = check_cancelled(cancellation) {
            return Err(e);
        }
        let ghost given = page;
        let ghost told = meta;
        let max = options.max_response_tokens;
        let meta = continue_meta(meta, &page.next, generation);
        let mut response = FilesResponse { entries: page.entries, meta };
        let ghost start = response;
        assert(holds_page(given, generation, told, start));
        match Services::fit_files_response(&mut response, operation, generation, max, measure) {
            Ok(_) => {},
            Err(e) => {
                return Err(e);
            },
        }
        let ghost fitted = response;
        assert(files_fitted(measure, start, operation, generation, max, fitted));
        let settled = settle_within(&response, max, &measure);
        match settled {
            Ok(meta) => {
                response.meta = meta;
                assert(fitted_answer(measure, start, operation, generation, max, response));
                Ok(response)
            },
            Err(e) => {
                assert(refused_answer(measure, start, operation, generation, max, e));
                Err(e)
            },
        }
    }

    /// Answers with the bare paths of a page, fitted to the ceiling of the call.
    pub fn files_paths_sync<
        S: Fn(&FilesPathsResponse, &ResponseMeta, ReceiptResourceDecoration) -> Measurement + Copy,
    >(
        page: FilePage,
        operation: FileOperation,
        generation: u64,
        meta: ResponseMeta,
        options: ServiceCallOptions,
        measure: S,
        cancellation: &CancellationToken,
    ) -> (r: Result<FilesPathsResponse, Error>)
        requires
            can_continue(operation, views(page.entries@)),
            settles_all::<FilesPathsResponse, S>(measure),
        ensures
            asked_first(r, *cancellation),
            (r is Err && stopped(r->Err_0, *cancellation)) || paths_answered(
                page,
                operation,
                generation,
                meta,
                options.max_response_tokens,
                measure,
                r,
            ),
    {
        if let Err(e) = check_cancelled(cancellation) {
            return Err(e);
        }
        let ghost given = page;
        let ghost told = meta;
        let max = options.max_response_tokens;
        let meta = continue_meta(meta, &page.next, generation);
        let entries = page.entries;
        let ghost listed = views(entries@);
        let mut response = FilesPathsResponse { paths: paths_of(&entries), meta };
        let ghost start = response;
        assert(holds_paths(given, generation, told, start));
        match Services::fit_files_paths_response(
            &mut response,
            &entries,
            operation,
            generation,
            max,
            measure,
        ) {
            Ok(_) => {},
            Err(e) => {
                return Err(e);
            },
        }
        let ghost fitted = response;
        assert(paths_fitted(measure, start, listed, operation, generation, max, fitted));
        let settled = settle_within(&response, max, &measure);
        match settled {
            Ok(meta) => {
                response.meta = meta;
                assert(fitted_paths(measure, start, listed, operation, generation, max, response));
                Ok(response)
            },
            Err(e) => {
                assert(refused_paths(measure, start, listed, operation, generation, max, e));
                Err(e)
            },
        }
    }
}

} // verus!
