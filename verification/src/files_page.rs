//! Reading the page that a request for paths asks for.

use crate::cancellation::{answered, check_cancelled, stopped};
use crate::candidate_scan::rows;
use crate::error::Error;
use crate::files::{
    all_scorable, can_score_all, check_glob, cursor_path, first_of_matches, first_of_tree,
    fuzzy_entries, fuzzy_paged, glob_accepted, glob_refused, glob_scanned, has_backslash,
    is_plain_glob, match_page, optional_cursor, path_after, plain_glob, says_no_glob, scan_glob,
    sql_forms, sql_glob_patterns, tree_page, FileCursor, FileCursorView, FileOperation, FilePage,
    FilePathRecord, FilesInput, FilesQuery, TreePathRecord,
};
use crate::text::optional_text;
use tokio_util::sync::CancellationToken;
use vstd::prelude::*;

verus! {

/// Whether the rows of a tree may be these: below a root, down to a depth, behind a
/// path, and no more than a limit.
pub open spec fn rows_said<
    R: Fn(&str, usize, &Option<String>, usize) -> Result<Vec<TreePathRecord>, Error>,
>(
    rows: R,
    root: Seq<char>,
    depth: usize,
    after: Option<Seq<char>>,
    limit: usize,
    said: Result<Vec<TreePathRecord>, Error>,
) -> bool {
    exists|top: &str, behind: &Option<String>|
        {
            &&& #[trigger] call_ensures(rows, (top, depth, behind, limit), said)
            &&& top@ == root
            &&& optional_text(*behind) == after
        }
}

/// How deep a tree is read.
pub open spec fn tree_depth(depth: Option<usize>) -> usize {
    match depth {
        Some(depth) => depth,
        None => usize::MAX,
    }
}

/// How many rows of a tree are read: one beyond the page, where that can be said.
pub open spec fn rows_read(limit: usize) -> usize {
    if limit < usize::MAX {
        (limit + 1) as usize
    } else {
        usize::MAX
    }
}

/// Whether a page may hold the rows of a tree.
pub open spec fn tree_paged<
    R: Fn(&str, usize, &Option<String>, usize) -> Result<Vec<TreePathRecord>, Error>,
>(
    rows: R,
    root: Seq<char>,
    depth: Option<usize>,
    cursor: Option<FileCursorView>,
    limit: usize,
    page: FilePage,
) -> bool {
    &&& cursor is None || cursor->0 is Path
    &&& exists|found: Vec<TreePathRecord>|
        {
            &&& #[trigger] rows_said(
                rows,
                root,
                tree_depth(depth),
                path_after(cursor),
                rows_read(limit),
                Ok(found),
            )
            &&& first_of_tree(found@, limit, page)
        }
}

/// The rows of a tree, in the order of paths.
pub fn tree_entries<
    R: Fn(&str, usize, &Option<String>, usize) -> Result<Vec<TreePathRecord>, Error>,
>(
    rows: &R,
    root: &str,
    depth: Option<usize>,
    cursor: Option<FileCursor>,
    limit: usize,
    cancellation: &CancellationToken,
) -> (r: Result<FilePage, Error>)
    requires
        forall|top: &str, deep: usize, behind: &Option<String>, most: usize|
            call_requires(*rows, (top, deep, behind, most)),
    ensures
        match r {
            Ok(page) => answered(*cancellation, false) && tree_paged(
                *rows,
                root@,
                depth,
                optional_cursor(cursor),
                limit,
                page,
            ),
            Err(e) => {
                ||| stopped(e, *cancellation)
                ||| {
                    &&& e is StaleCursor
                    &&& optional_cursor(cursor) is Some && optional_cursor(cursor)->0 is Fuzzy
                }
                ||| answered(*cancellation, false) && rows_said(
                    *rows,
                    root@,
                    tree_depth(depth),
                    path_after(optional_cursor(cursor)),
                    rows_read(limit),
                    Err(e),
                )
            },
        },
{
    let ghost given = optional_cursor(cursor);
    let max_depth: usize = match depth {
        Some(depth) => depth,
        None => usize::MAX,
    };
    let after = match cursor_path(cursor) {
        Ok(after) => after,
        Err(e) => {
            return Err(e);
        },
    };
    match check_cancelled(cancellation) {
        Ok(_) => {},
        Err(e) => {
            return Err(e);
        },
    }
    let said = rows(root, max_depth, &after, limit.saturating_add(1));
    let ghost told = said;
    assert(rows_said(
        *rows,
        root@,
        tree_depth(depth),
        path_after(given),
        rows_read(limit),
        told,
    ));
    match said {
        Ok(found) => Ok(tree_page(&found, limit)),
        Err(e) => Err(e),
    }
}

/// How many files are read at once.
pub const FILE_LIST_PAGE_SIZE: usize = 1000;

/// The last file of the pages that were read, where there is one.
pub open spec fn last_id(pages: Seq<Vec<FilePathRecord>>) -> Option<i64> {
    if pages.len() == 0 {
        None
    } else {
        Some(pages.last()@.last().id)
    }
}

/// Whether `pages` may be all files, each page behind the last file of the one
/// before, up to a page without files.
pub open spec fn walked<P: Fn(usize, Option<i64>) -> Result<Vec<FilePathRecord>, Error>>(
    read: P,
    pages: Seq<Vec<FilePathRecord>>,
) -> bool {
    forall|k: int|
        0 <= k < pages.len() ==> {
            &&& pages[k]@.len() > 0
            &&& call_ensures(
                read,
                (FILE_LIST_PAGE_SIZE, last_id(#[trigger] pages.take(k))),
                Ok(pages[k]),
            )
        }
}

/// Whether the files may end behind `pages`.
pub open spec fn walk_ends<P: Fn(usize, Option<i64>) -> Result<Vec<FilePathRecord>, Error>>(
    read: P,
    pages: Seq<Vec<FilePathRecord>>,
) -> bool {
    exists|end: Vec<FilePathRecord>|
        {
            &&& #[trigger] call_ensures(read, (FILE_LIST_PAGE_SIZE, last_id(pages)), Ok(end))
            &&& end@.len() == 0
        }
}

/// Whether these may be all files of the index.
pub open spec fn files_listed<P: Fn(usize, Option<i64>) -> Result<Vec<FilePathRecord>, Error>>(
    read: P,
    files: Seq<FilePathRecord>,
) -> bool {
    exists|pages: Seq<Vec<FilePathRecord>>|
        {
            &&& #[trigger] walked(read, pages)
            &&& walk_ends(read, pages)
            &&& files == rows(pages)
        }
}

/// Whether some page of files could not be read.
pub open spec fn listing_failed<P: Fn(usize, Option<i64>) -> Result<Vec<FilePathRecord>, Error>>(
    read: P,
    error: Error,
) -> bool {
    exists|after: Option<i64>|
        #[trigger] call_ensures(
            read,
            (FILE_LIST_PAGE_SIZE, after),
            Err::<Vec<FilePathRecord>, Error>(error),
        )
}

/// Whether pages of files come in the order of their identities.
pub open spec fn reads_files<P: Fn(usize, Option<i64>) -> Result<Vec<FilePathRecord>, Error>>(
    read: P,
) -> bool {
    &&& forall|size: usize, after: Option<i64>| call_requires(read, (size, after))
    &&& forall|after: Option<i64>, page: Vec<FilePathRecord>| #[trigger]
        call_ensures(read, (FILE_LIST_PAGE_SIZE, after), Ok::<Vec<FilePathRecord>, Error>(page))
            ==> (after is Some && page@.len() > 0 ==> page@.last().id > after->0)
}

/// All files of the index, read page by page.
pub fn list_file_paths<P: Fn(usize, Option<i64>) -> Result<Vec<FilePathRecord>, Error>>(
    read: &P,
    cancellation: &CancellationToken,
) -> (r: Result<Vec<FilePathRecord>, Error>)
    requires
        reads_files(*read),
    ensures
        match r {
            Ok(files) => answered(*cancellation, false) && files_listed(*read, files@),
            Err(e) => stopped(e, *cancellation) || (answered(*cancellation, false)
                && listing_failed(*read, e)),
        },
{
    let mut files: Vec<FilePathRecord> = Vec::new();
    let ghost mut pages: Seq<Vec<FilePathRecord>> = Seq::empty();
    let mut cursor: Option<i64> = None;
    assert(rows(pages) =~= Seq::<FilePathRecord>::empty());
    loop
        invariant
            reads_files(*read),
            walked(*read, pages),
            files@ == rows(pages),
            cursor == last_id(pages),
        decreases
            match cursor {
                Some(id) => i64::MAX - id,
                None => i64::MAX - i64::MIN + 1,
            },
    {
        match check_cancelled(cancellation) {
            Ok(_) => {},
            Err(e) => {
                return Err(e);
            },
        }
        let page = match read(FILE_LIST_PAGE_SIZE, cursor) {
            Ok(page) => page,
            Err(e) => {
                return Err(e);
            },
        };
        if page.len() == 0 {
            assert(walk_ends(*read, pages));
            return Ok(files);
        }
        let ghost before = pages;
        let ghost known = files@;
        cursor = Some(page[page.len() - 1].id);
        proof {
            pages = pages.push(page);
            assert(pages.drop_last() =~= before);
            assert forall|k: int| 0 <= k < pages.len() implies {
                &&& pages[k]@.len() > 0
                &&& call_ensures(
                    *read,
                    (FILE_LIST_PAGE_SIZE, last_id(#[trigger] pages.take(k))),
                    Ok(pages[k]),
                )
            } by {
                assert(pages.take(k) =~= before.take(k));
                if k == before.len() {
                    assert(before.take(k) =~= before);
                }
            }
        }
        let ghost added = page@;
        let mut page = page;
        files.append(&mut page);
        assert(files@ =~= known + added);
    }
}

/// Whether the rows that match an SQL pattern, or its alternate, may be these: behind
/// a path, and no more than a limit.
pub open spec fn matches_said<
    Q: Fn(&str, &Option<String>, &Option<String>, usize) -> Result<Vec<TreePathRecord>, Error>,
>(
    matches: Q,
    primary: Seq<char>,
    alternate: Option<Seq<char>>,
    after: Option<Seq<char>>,
    limit: usize,
    said: Result<Vec<TreePathRecord>, Error>,
) -> bool {
    exists|text: &str, other: &Option<String>, behind: &Option<String>|
        {
            &&& #[trigger] call_ensures(matches, (text, other, behind, limit), said)
            &&& text@ == primary
            &&& optional_text(*other) == alternate
            &&& optional_text(*behind) == after
        }
}

/// Whether a pattern may be said to be this for the repository, or to be none.
pub open spec fn pattern_said<N: Fn(&str) -> Result<String, Error>>(
    normalize: N,
    pattern: Seq<char>,
    said: Result<String, Error>,
) -> bool {
    exists|text: &str| (#[trigger] call_ensures(normalize, (text,), said)) && text@ == pattern
}

/// Whether a page may hold the files that a glob matches: those that the index finds
/// by its SQL patterns, where it has such, or else by a scan of all files.
pub open spec fn glob_read<
    Q: Fn(&str, &Option<String>, &Option<String>, usize) -> Result<Vec<TreePathRecord>, Error>,
    P: Fn(usize, Option<i64>) -> Result<Vec<FilePathRecord>, Error>,
>(
    matches: Q,
    read: P,
    pattern: Seq<char>,
    cursor: Option<FileCursorView>,
    limit: usize,
    page: FilePage,
) -> bool {
    &&& cursor is None || cursor->0 is Path
    &&& match sql_forms(pattern) {
        Some(forms) => exists|found: Vec<TreePathRecord>|
            {
                &&& #[trigger] matches_said(
                    matches,
                    forms.0,
                    forms.1,
                    path_after(cursor),
                    rows_read(limit),
                    Ok(found),
                )
                &&& first_of_matches(found@, limit, page)
            },
        None => exists|files: Seq<FilePathRecord>|
            #[trigger] files_listed(read, files) && glob_scanned(
                pattern,
                files,
                path_after(cursor),
                limit,
                page,
            ),
    }
}

/// Whether a result is what comes of a glob that was normalized.
pub open spec fn glob_outcome<
    Q: Fn(&str, &Option<String>, &Option<String>, usize) -> Result<Vec<TreePathRecord>, Error>,
    P: Fn(usize, Option<i64>) -> Result<Vec<FilePathRecord>, Error>,
>(
    matches: Q,
    read: P,
    pattern: Seq<char>,
    cursor: Option<FileCursorView>,
    limit: usize,
    cancellation: CancellationToken,
    r: Result<FilePage, Error>,
) -> bool {
    &&& !has_backslash(pattern) && !glob_accepted(pattern) ==> glob_refused(r)
    &&& match r {
        Ok(page) => answered(cancellation, false) && glob_read(
            matches,
            read,
            pattern,
            cursor,
            limit,
            page,
        ),
        Err(e) => {
            ||| stopped(e, cancellation)
            ||| says_no_glob(e) && (has_backslash(pattern) || !glob_accepted(pattern))
            ||| e is StaleCursor && cursor is Some && cursor->0 is Fuzzy
            ||| answered(cancellation, false) && match sql_forms(pattern) {
                Some(forms) => matches_said(
                    matches,
                    forms.0,
                    forms.1,
                    path_after(cursor),
                    rows_read(limit),
                    Err(e),
                ),
                None => listing_failed(read, e),
            }
        },
    }
}

/// Whether a result is what comes of a pattern: of the glob that it is for the
/// repository, or why it is none. Nothing comes of one that is not plain.
pub open spec fn glob_answered<
    Q: Fn(&str, &Option<String>, &Option<String>, usize) -> Result<Vec<TreePathRecord>, Error>,
    P: Fn(usize, Option<i64>) -> Result<Vec<FilePathRecord>, Error>,
    N: Fn(&str) -> Result<String, Error>,
>(
    matches: Q,
    read: P,
    normalize: N,
    pattern: Seq<char>,
    cursor: Option<FileCursorView>,
    limit: usize,
    cancellation: CancellationToken,
    r: Option<Result<FilePage, Error>>,
) -> bool {
    exists|said: Result<String, Error>|
        {
            &&& #[trigger] pattern_said(normalize, pattern, said)
            &&& match said {
                Err(e) => r == Some(Err::<FilePage, Error>(e)),
                Ok(text) => if plain_glob(text@) {
                    r is Some && glob_outcome(
                        matches,
                        read,
                        text@,
                        cursor,
                        limit,
                        cancellation,
                        r->0,
                    )
                } else {
                    r is None
                },
            }
        }
}

/// The files that a pattern matches. `normalize` gives the glob that it is for the
/// repository, `matches` reads the rows of SQL patterns, and `read` a page of the
/// files of the index. A text that is no glob is refused, whether or not it has SQL
/// patterns. Tells nothing where the glob is not plain.
pub fn glob_entries<
    Q: Fn(&str, &Option<String>, &Option<String>, usize) -> Result<Vec<TreePathRecord>, Error>,
    P: Fn(usize, Option<i64>) -> Result<Vec<FilePathRecord>, Error>,
    N: Fn(&str) -> Result<String, Error>,
>(
    matches: &Q,
    read: &P,
    normalize: &N,
    pattern: &str,
    cursor: Option<FileCursor>,
    limit: usize,
    cancellation: &CancellationToken,
) -> (r: Option<Result<FilePage, Error>>)
    requires
        forall|text: &str, other: &Option<String>, behind: &Option<String>, most: usize|
            call_requires(*matches, (text, other, behind, most)),
        reads_files(*read),
        forall|text: &str| call_requires(*normalize, (text,)),
    ensures
        glob_answered(
            *matches,
            *read,
            *normalize,
            pattern@,
            optional_cursor(cursor),
            limit,
            *cancellation,
            r,
        ),
{
    let said = normalize(pattern);
    assert(pattern_said(*normalize, pattern@, said));
    let text = match said {
        Ok(text) => text,
        Err(e) => {
            return Some(Err(e));
        },
    };
    if !is_plain_glob(text.as_str()) {
        return None;
    }
    Some(find_glob(matches, read, text.as_str(), cursor, limit, cancellation))
}

fn find_glob<
    Q: Fn(&str, &Option<String>, &Option<String>, usize) -> Result<Vec<TreePathRecord>, Error>,
    P: Fn(usize, Option<i64>) -> Result<Vec<FilePathRecord>, Error>,
>(
    matches: &Q,
    read: &P,
    pattern: &str,
    cursor: Option<FileCursor>,
    limit: usize,
    cancellation: &CancellationToken,
) -> (r: Result<FilePage, Error>)
    requires
        forall|text: &str, other: &Option<String>, behind: &Option<String>, most: usize|
            call_requires(*matches, (text, other, behind, most)),
        reads_files(*read),
        plain_glob(pattern@),
    ensures
        glob_outcome(
            *matches,
            *read,
            pattern@,
            optional_cursor(cursor),
            limit,
            *cancellation,
            r,
        ),
{
    let ghost given = optional_cursor(cursor);
    match check_glob(pattern) {
        Ok(_) => {},
        Err(e) => {
            return Err(e);
        },
    }
    let after = match cursor_path(cursor) {
        Ok(after) => after,
        Err(e) => {
            return Err(e);
        },
    };
    match sql_glob_patterns(pattern) {
        Some((primary, alternate)) => {
            match check_cancelled(cancellation) {
                Ok(_) => {},
                Err(e) => {
                    return Err(e);
                },
            }
            let said = matches(primary.as_str(), &alternate, &after, limit.saturating_add(1));
            let ghost told = said;
            assert(matches_said(
                *matches,
                primary@,
                optional_text(alternate),
                path_after(given),
                rows_read(limit),
                told,
            ));
            match said {
                Ok(found) => {
                    let page = match_page(&found, limit);
                    assert(told == Ok::<Vec<TreePathRecord>, Error>(found));
                    let ghost forms = sql_forms(pattern@)->0;
                    assert(matches_said(
                        *matches,
                        forms.0,
                        forms.1,
                        path_after(given),
                        rows_read(limit),
                        Ok(found),
                    ) && first_of_matches(found@, limit, page));
                    assert(glob_read(*matches, *read, pattern@, given, limit, page));
                    Ok(page)
                },
                Err(e) => Err(e),
            }
        },
        None => {
            let files = match list_file_paths(read, cancellation) {
                Ok(files) => files,
                Err(e) => {
                    return Err(e);
                },
            };
            let ghost listed = files@;
            let found = scan_glob(pattern, &files, after, limit, cancellation);
            assert(files_listed(*read, listed));
            found
        },
    }
}

/// Whether a query can be searched for: a glob is plain, and what is looked for
/// fuzzily can be scored against the files of the index, however they are listed.
pub open spec fn searchable<
    P: Fn(usize, Option<i64>) -> Result<Vec<FilePathRecord>, Error>,
    N: Fn(&str) -> Result<String, Error>,
>(read: P, normalize: N, query: FilesQuery) -> bool {
    match query {
        FilesQuery::Tree { .. } => true,
        FilesQuery::Find { query } => forall|files: Seq<FilePathRecord>|
            #[trigger] files_listed(read, files) ==> all_scorable(query@, files),
        FilesQuery::Glob { pattern } => forall|text: String|
            #[trigger] pattern_said(normalize, pattern@, Ok(text)) ==> plain_glob(text@),
    }
}

/// The cursor of a request, where it belongs to the generation at hand.
pub open spec fn live_cursor(input: FilesInput, generation: u64) -> Option<FileCursorView> {
    match input.cursor {
        Some(found) => if found.0 == generation {
            Some(found.1@)
        } else {
            None
        },
        None => None,
    }
}

/// Whether the cursor of a request belongs to another generation.
pub open spec fn outdated(input: FilesInput, generation: u64) -> bool {
    input.cursor is Some && (input.cursor->0).0 != generation
}

/// What reads the index for a page: `rows` the rows of a tree, `matches` those of SQL
/// patterns, `read` a page of all files, and `normalize` the glob that a pattern is
/// for the repository.
pub struct FilesPorts<R, P, Q, N> {
    pub rows: R,
    pub read: P,
    pub matches: Q,
    pub normalize: N,
}

/// Whether everything can be asked, and files come in the order of their identities.
pub open spec fn files_answer<
    R: Fn(&str, usize, &Option<String>, usize) -> Result<Vec<TreePathRecord>, Error>,
    P: Fn(usize, Option<i64>) -> Result<Vec<FilePathRecord>, Error>,
    Q: Fn(&str, &Option<String>, &Option<String>, usize) -> Result<Vec<TreePathRecord>, Error>,
    N: Fn(&str) -> Result<String, Error>,
>(ports: FilesPorts<R, P, Q, N>) -> bool {
    &&& forall|top: &str, deep: usize, behind: &Option<String>, most: usize|
        call_requires(ports.rows, (top, deep, behind, most))
    &&& reads_files(ports.read)
    &&& forall|text: &str, other: &Option<String>, behind: &Option<String>, most: usize|
        call_requires(ports.matches, (text, other, behind, most))
    &&& forall|text: &str| call_requires(ports.normalize, (text,))
}

/// Whether a result is what comes of a search for files by a text.
pub open spec fn find_outcome<P: Fn(usize, Option<i64>) -> Result<Vec<FilePathRecord>, Error>>(
    read: P,
    query: Seq<char>,
    cursor: Option<FileCursorView>,
    limit: usize,
    cancellation: CancellationToken,
    r: Result<FilePage, Error>,
) -> bool {
    match r {
        Ok(page) => answered(cancellation, false) && exists|files: Seq<FilePathRecord>|
            #[trigger] files_listed(read, files) && fuzzy_paged(
                query,
                files,
                cursor,
                limit,
                page,
            ),
        Err(e) => {
            ||| stopped(e, cancellation)
            ||| e is StaleCursor && cursor is Some && cursor->0 is Path
            ||| answered(cancellation, false) && listing_failed(read, e)
        },
    }
}

/// Whether a result is what comes of a request for the rows of a tree.
pub open spec fn tree_outcome<
    R: Fn(&str, usize, &Option<String>, usize) -> Result<Vec<TreePathRecord>, Error>,
>(
    rows: R,
    root: Seq<char>,
    depth: Option<usize>,
    cursor: Option<FileCursorView>,
    limit: usize,
    cancellation: CancellationToken,
    r: Result<FilePage, Error>,
) -> bool {
    match r {
        Ok(page) => answered(cancellation, false) && tree_paged(
            rows,
            root,
            depth,
            cursor,
            limit,
            page,
        ),
        Err(e) => {
            ||| stopped(e, cancellation)
            ||| e is StaleCursor && cursor is Some && cursor->0 is Fuzzy
            ||| answered(cancellation, false) && rows_said(
                rows,
                root,
                tree_depth(depth),
                path_after(cursor),
                rows_read(limit),
                Err(e),
            )
        },
    }
}

/// The page of an outcome.
pub open spec fn page_of(r: Result<(FilePage, FileOperation), Error>) -> Result<FilePage, Error> {
    match r {
        Ok(found) => Ok(found.0),
        Err(e) => Err(e),
    }
}

/// The operation that answers a query.
pub open spec fn query_operation(query: FilesQuery) -> FileOperation {
    match query {
        FilesQuery::Tree { .. } => FileOperation::Tree,
        FilesQuery::Find { .. } => FileOperation::Find,
        FilesQuery::Glob { .. } => FileOperation::Glob,
    }
}

/// Whether a result is what comes of a request for a page.
pub open spec fn page_outcome<
    R: Fn(&str, usize, &Option<String>, usize) -> Result<Vec<TreePathRecord>, Error>,
    P: Fn(usize, Option<i64>) -> Result<Vec<FilePathRecord>, Error>,
    Q: Fn(&str, &Option<String>, &Option<String>, usize) -> Result<Vec<TreePathRecord>, Error>,
    N: Fn(&str) -> Result<String, Error>,
>(
    ports: FilesPorts<R, P, Q, N>,
    input: FilesInput,
    generation: u64,
    limit: usize,
    cancellation: CancellationToken,
    r: Result<(FilePage, FileOperation), Error>,
) -> bool {
    let cursor = live_cursor(input, generation);
    if outdated(input, generation) {
        r is Err && r->Err_0 is StaleCursor
    } else {
        &&& r matches Ok(found) ==> found.1 == query_operation(input.query)
        &&& match input.query {
            FilesQuery::Tree { root, depth } => tree_outcome(
                ports.rows,
                root@,
                depth,
                cursor,
                limit,
                cancellation,
                page_of(r),
            ),
            FilesQuery::Find { query } => find_outcome(
                ports.read,
                query@,
                cursor,
                limit,
                cancellation,
                page_of(r),
            ),
            FilesQuery::Glob { pattern } => glob_answered(
                ports.matches,
                ports.read,
                ports.normalize,
                pattern@,
                cursor,
                limit,
                cancellation,
                Some(page_of(r)),
            ),
        }
    }
}

/// Reads the page that a request asks for, where its query can be searched for.
pub fn search_page<
    R: Fn(&str, usize, &Option<String>, usize) -> Result<Vec<TreePathRecord>, Error>,
    P: Fn(usize, Option<i64>) -> Result<Vec<FilePathRecord>, Error>,
    Q: Fn(&str, &Option<String>, &Option<String>, usize) -> Result<Vec<TreePathRecord>, Error>,
    N: Fn(&str) -> Result<String, Error>,
>(
    input: &FilesInput,
    generation: u64,
    ports: &FilesPorts<R, P, Q, N>,
    limit: usize,
    cancellation: &CancellationToken,
) -> (r: Option<Result<(FilePage, FileOperation), Error>>)
    requires
        files_answer(*ports),
    ensures
        match r {
            Some(page) => page_outcome(*ports, *input, generation, limit, *cancellation, page),
            None => !outdated(*input, generation) && !searchable(
                ports.read,
                ports.normalize,
                input.query,
            ),
        },
{
    let cursor = match input.cursor(generation) {
        Ok(cursor) => cursor,
        Err(e) => {
            return Some(Err(e));
        },
    };
    let operation = input.query.operation();
    let page = match &input.query {
        FilesQuery::Tree { root, depth } => tree_entries(
            &ports.rows,
            root.as_str(),
            *depth,
            cursor,
            limit,
            cancellation,
        ),
        FilesQuery::Find { query } => {
            if let Some(FileCursor::Path { .. }) = cursor {
                return Some(Err(Error::StaleCursor));
            }
            let files = match list_file_paths(&ports.read, cancellation) {
                Ok(files) => files,
                Err(e) => {
                    return Some(Err(e));
                },
            };
            if !can_score_all(query.as_str(), &files) {
                return None;
            }
            fuzzy_entries(query.as_str(), &files, cursor, limit, cancellation)
        },
        FilesQuery::Glob { pattern } => {
            let found = glob_entries(
                &ports.matches,
                &ports.read,
                &ports.normalize,
                pattern.as_str(),
                cursor,
                limit,
                cancellation,
            );
            match found {
                Some(page) => page,
                None => {
                    return None;
                },
            }
        },
    };
    match page {
        Ok(page) => Some(Ok((page, operation))),
        Err(e) => Some(Err(e)),
    }
}

/// Reads the page that a request asks for.
pub fn files_page<
    R: Fn(&str, usize, &Option<String>, usize) -> Result<Vec<TreePathRecord>, Error>,
    P: Fn(usize, Option<i64>) -> Result<Vec<FilePathRecord>, Error>,
    Q: Fn(&str, &Option<String>, &Option<String>, usize) -> Result<Vec<TreePathRecord>, Error>,
    N: Fn(&str) -> Result<String, Error>,
>(
    input: &FilesInput,
    generation: u64,
    ports: &FilesPorts<R, P, Q, N>,
    limit: usize,
    cancellation: &CancellationToken,
) -> (r: Result<(FilePage, FileOperation), Error>)
    requires
        files_answer(*ports),
        searchable(ports.read, ports.normalize, input.query),
    ensures
        page_outcome(*ports, *input, generation, limit, *cancellation, r),
{
    match search_page(input, generation, ports, limit, cancellation) {
        Some(page) => page,
        None => vstd::pervasive::unreached(),
    }
}

} // verus!
