//! Pages of paths.

use leantoken::accounting::{
    Measurement, ReceiptResourceDecoration, ResponseTokenAccounting, ServiceCallOptions,
};
use leantoken::error::Error;
use leantoken::files::{
    can_score_all, decode_files_cursor, fuzzy_entries, is_plain_glob, scan_glob, tree_page,
    FileCursor, FileOperation, FilePage, FilePathRecord, FilesInput, FilesPathsResponse, FilesQuery,
    FilesResponse, PathOperation, TreePathRecord,
};
use leantoken::files_page::{
    files_page, glob_entries, search_page, FilesPorts, FILE_LIST_PAGE_SIZE,
};
use leantoken::model::{Freshness, ResponseMeta};
use leantoken::services::Services;
use tokio_util::sync::CancellationToken;

fn record(id: i64, path: &str) -> FilePathRecord {
    FilePathRecord { id, path: path.into(), language: Some("rust".into()), size_bytes: 10 }
}

fn records() -> Vec<FilePathRecord> {
    vec![
        record(1, "src/main.rs"),
        record(2, "src/lib.rs"),
        record(3, "docs/readme.md"),
        record(4, "src/library/mod.rs"),
        record(5, "lib.rs"),
    ]
}

fn options(max_response_tokens: Option<usize>) -> ServiceCallOptions {
    ServiceCallOptions {
        max_response_tokens,
        context_response_profile: None,
        mcp_response_shape: false,
    }
}

fn meta() -> ResponseMeta {
    ResponseMeta {
        repository_id: "repository".into(),
        repository_generation: 7,
        freshness: Freshness::Stale,
        source_tokens: 0,
        protocol_tokens: 0,
        path_and_metadata_tokens: 0,
        total_response_tokens: 0,
        next_cursor: None,
        receipt_id: None,
        receipt_suppressed_exact: 0,
        receipt_suppressed_overlap: 0,
        receipt_near_duplicates: 0,
    }
}

fn globbed(pattern: &str, cursor: Option<FileCursor>, limit: usize) -> (Vec<String>, Option<FileCursor>) {
    let after = cursor.map(|cursor| match cursor {
        FileCursor::Path { path, .. } => path,
        FileCursor::Fuzzy { .. } => panic!("a glob has no score"),
    });
    let page = scan_glob(pattern, &records(), after, limit, &CancellationToken::new())
        .expect("glob page");
    (page.entries.into_iter().map(|entry| entry.path).collect(), page.next)
}

#[test]
fn globs_match_paths_in_order() {
    let (paths, next) = globbed("src/{main,lib}.rs", None, 10);
    assert_eq!(paths, ["src/lib.rs", "src/main.rs"]);
    assert!(next.is_none());
    let (paths, _) = globbed("**/*.md", None, 10);
    assert_eq!(paths, ["docs/readme.md"]);
    let (paths, _) = globbed("*.toml", None, 10);
    assert!(paths.is_empty());
}

#[test]
fn glob_pages_follow_one_another() {
    let (all, _) = globbed("*.rs", None, 10);
    assert_eq!(all, ["lib.rs", "src/lib.rs", "src/library/mod.rs", "src/main.rs"]);
    let mut seen: Vec<String> = Vec::new();
    let mut cursor: Option<FileCursor> = None;
    loop {
        let (paths, next) = globbed("*.rs", cursor, 3);
        seen.extend(paths);
        match next {
            Some(next) => cursor = Some(next),
            None => break,
        }
    }
    assert_eq!(seen, all);
}

fn same_pattern(pattern: &str) -> Result<String, Error> {
    if pattern.is_empty() {
        return Err(Error::InvalidInput { field: "pattern", reason: "is empty" });
    }
    Ok(pattern.trim_start_matches("./").to_owned())
}

fn matched_rows(
    primary: &str,
    alternate: &Option<String>,
    after: &Option<String>,
    limit: usize,
) -> Result<Vec<TreePathRecord>, Error> {
    if primary == "broken" {
        return Err(Error::OperationFailure("no such table".into()));
    }
    assert_eq!((primary, alternate.as_deref()), ("lib.rs", Some("*/lib.rs")));
    Ok(["lib.rs", "src/lib.rs", "tests/lib.rs"]
        .iter()
        .filter(|name| after.as_ref().is_none_or(|after| **name > after.as_str()))
        .take(limit)
        .map(|name| TreePathRecord {
            path: name.to_string(),
            is_directory: false,
            language: Some("rust".into()),
            size_bytes: Some(3),
        })
        .collect())
}

fn unread(_: usize, _: Option<i64>) -> Result<Vec<FilePathRecord>, Error> {
    panic!("nothing is scanned")
}

#[test]
fn globs_that_sql_can_express_are_not_scanned() {
    let token = CancellationToken::new();
    let find = |pattern: &str, cursor: Option<FileCursor>, limit: usize| {
        glob_entries(&matched_rows, &unread, &same_pattern, pattern, cursor, limit, &token)
            .expect("searched")
    };
    let page = find("./**/lib.rs", None, 2).expect("page");
    let paths = page.entries.iter().map(|entry| entry.path.as_str()).collect::<Vec<_>>();
    assert_eq!(paths, ["lib.rs", "src/lib.rs"]);
    assert!(page.entries.iter().all(|entry| entry.size_bytes == Some(3) && entry.score.is_none()));
    let page = find("**/lib.rs", page.next, 2).expect("page");
    assert_eq!(page.entries[0].path, "tests/lib.rs");
    assert!(page.next.is_none());
    let page = find("**/lib.rs", None, 0).expect("page");
    assert!(page.entries.is_empty() && page.next.is_none());
    assert!(matches!(find("broken", None, 2), Err(Error::OperationFailure(_))));
    assert!(matches!(find("", None, 2), Err(Error::InvalidInput { reason: "is empty", .. })));
    let gone = CancellationToken::new();
    gone.cancel();
    let stopped =
        glob_entries(&matched_rows, &unread, &same_pattern, "**/lib.rs", None, 2, &gone);
    assert!(matches!(stopped, Some(Err(Error::Cancelled))));
}

#[test]
fn globs_refuse_what_they_cannot_read() {
    let all = |size: usize, after: Option<i64>| indexed(size, after);
    let token = CancellationToken::new();
    let find = |pattern: &str, cursor: Option<FileCursor>| {
        glob_entries(&matched_rows, &all, &same_pattern, pattern, cursor, 10, &token)
            .expect("searched")
    };
    assert!(matches!(
        find("src/{main", None),
        Err(Error::InvalidInput { field: "pattern", reason: "is not a valid glob" })
    ));
    let fuzzy = || FileCursor::Fuzzy { score: 1, path: "lib.rs".into() };
    assert!(matches!(
        find("src/{main", Some(fuzzy())),
        Err(Error::InvalidInput { field: "pattern", .. })
    ));
    assert!(matches!(find("*.rs", Some(fuzzy())), Err(Error::StaleCursor)));
    assert!(matches!(find("[", None), Err(Error::InvalidInput { field: "pattern", .. })));
    let cancellation = CancellationToken::new();
    cancellation.cancel();
    let refused = scan_glob("*.rs", &records(), None, 10, &cancellation);
    assert!(matches!(refused, Err(Error::Cancelled)));
}

#[test]
fn plain_globs_are_matched_however_large_and_deep() {
    let token = CancellationToken::new();
    let found = |pattern: &str| {
        glob_entries(&matched_rows, &indexed, &same_pattern, pattern, None, 10, &token)
            .expect("searched")
            .expect("page")
            .entries
            .len()
    };
    assert_eq!(found(&format!("{}lib.rs{}", "{".repeat(64), "}".repeat(64))), 1);
    assert_eq!(found(&format!("{}lib.rs{}", "{a,".repeat(64), "}".repeat(64))), 1);
    assert_eq!(found(&"{a,b}".repeat(3_276)), 0);
    assert_eq!(found(&format!("{{{}}}", "**/a,".repeat(3_000))), 0);
    assert_eq!(found(&format!("{{{}}}", "[!é],".repeat(3_000))), 0);
}

#[test]
fn only_large_and_deep_globs_are_not_plain() {
    assert!(is_plain_glob("src/{main,lib}.rs"));
    assert!(is_plain_glob(&"a".repeat(16_384)));
    assert!(!is_plain_glob(&"a".repeat(16_385)));
    assert!(is_plain_glob(&"{a}".repeat(65)));
    assert!(is_plain_glob(&"{".repeat(64)));
    assert!(!is_plain_glob(&"{".repeat(65)));
    assert!(is_plain_glob(&format!("[{}]", "{".repeat(65))));
    assert!(!is_plain_glob(&format!("\\{}", "{a}".repeat(65))));
}

fn found(query: &str, cursor: Option<FileCursor>, limit: usize) -> (Vec<(u32, String)>, Option<FileCursor>) {
    let page = fuzzy_entries(query, &records(), cursor, limit, &CancellationToken::new())
        .expect("fuzzy page");
    let entries = page
        .entries
        .into_iter()
        .map(|entry| (entry.score.expect("score"), entry.path))
        .collect();
    (entries, page.next)
}

#[test]
fn fuzzy_search_ranks_what_it_finds() {
    let (entries, next) = found("LIB", None, 10);
    assert!(next.is_none());
    assert_eq!(entries.len(), 3);
    assert!(entries.iter().all(|(_, path)| path.contains("lib")));
    assert!(entries.windows(2).all(|pair| pair[0].0 >= pair[1].0));
    let (entries, _) = found("zzz", None, 10);
    assert!(entries.is_empty());
}

#[test]
fn fuzzy_pages_follow_one_another() {
    let (all, _) = found("s", None, 10);
    assert!(all.len() > 3);
    let mut seen: Vec<(u32, String)> = Vec::new();
    let mut cursor: Option<FileCursor> = None;
    loop {
        let (entries, next) = found("s", cursor, 2);
        seen.extend(entries);
        match next {
            Some(next) => cursor = Some(next),
            None => break,
        }
    }
    assert_eq!(seen, all);
    let path = FileCursor::Path { operation: PathOperation::Tree, path: "lib.rs".into() };
    let refused = fuzzy_entries("s", &records(), Some(path), 2, &CancellationToken::new());
    assert!(matches!(refused, Err(Error::StaleCursor)));
}

#[test]
fn tree_rows_beyond_the_limit_say_that_there_is_more() {
    let rows = vec![
        TreePathRecord { path: "docs".into(), is_directory: true, language: None, size_bytes: None },
        TreePathRecord {
            path: "lib.rs".into(),
            is_directory: false,
            language: Some("rust".into()),
            size_bytes: Some(10),
        },
    ];
    let page = tree_page(&rows, 1);
    assert_eq!(page.entries.len(), 1);
    assert!(matches!(
        page.next,
        Some(FileCursor::Path { operation: PathOperation::Tree, path }) if path == "docs"
    ));
    assert!(tree_page(&rows, 2).next.is_none());
}

fn sized(total: usize) -> Measurement {
    Ok(ResponseTokenAccounting {
        protocol_tokens: 0,
        path_and_metadata_tokens: 0,
        total_response_tokens: total,
    })
}

#[test]
fn answers_are_cut_to_the_ceiling_and_go_on_where_they_end() {
    let measure = |response: &FilesResponse, _: &ResponseMeta, _: ReceiptResourceDecoration| {
        sized(10 * response.entries.len())
    };
    let page = scan_glob("*.rs", &records(), None, 3, &CancellationToken::new()).expect("page");
    let whole = Services::files_sync(
        page,
        FileOperation::Glob,
        7,
        meta(),
        options(None),
        measure,
        &CancellationToken::new(),
    )
    .expect("whole answer");
    assert_eq!(whole.entries.len(), 3);
    assert_eq!(whole.meta.total_response_tokens, 30);
    let page = scan_glob("*.rs", &records(), None, 3, &CancellationToken::new()).expect("page");
    let cut = Services::files_sync(
        page,
        FileOperation::Glob,
        7,
        meta(),
        options(Some(25)),
        measure,
        &CancellationToken::new(),
    )
    .expect("cut answer");
    assert_eq!(cut.entries.len(), 2);
    let cursor = cut.meta.next_cursor;
    let (generation, next) = decode_files_cursor(&cursor, FileOperation::Glob, 4_096)
        .expect("cursor of the operation")
        .expect("cursor");
    assert_eq!(generation, 7);
    let (rest, _) = globbed("*.rs", Some(next), 10);
    assert_eq!(rest, ["src/library/mod.rs", "src/main.rs"]);
    assert!(matches!(
        decode_files_cursor(&cursor, FileOperation::Tree, 4_096),
        Err(Error::StaleCursor)
    ));
}

#[test]
fn bare_paths_are_answered_like_entries() {
    let measure = |response: &FilesPathsResponse,
                   _: &ResponseMeta,
                   _: ReceiptResourceDecoration| sized(10 * response.paths.len());
    let page = scan_glob("*.rs", &records(), None, 3, &CancellationToken::new()).expect("page");
    let cut = Services::files_paths_sync(
        page,
        FileOperation::Glob,
        7,
        meta(),
        options(Some(10)),
        measure,
        &CancellationToken::new(),
    )
    .expect("cut answer");
    assert_eq!(cut.paths, ["lib.rs"]);
    assert!(cut.meta.next_cursor.is_some());
    let page = scan_glob("*.rs", &records(), None, 3, &CancellationToken::new()).expect("page");
    let refused = Services::files_paths_sync(
        page,
        FileOperation::Glob,
        7,
        meta(),
        options(Some(5)),
        measure,
        &CancellationToken::new(),
    );
    assert!(refused.is_err());
}

#[test]
fn cursors_give_back_paths_in_any_script() {
    let cursor = FileCursor::Path { operation: PathOperation::Tree, path: "src/größe.rs".into() };
    let text = Some(cursor.encode(3));
    assert_eq!(text.as_deref(), Some("3:files:tree:7372632f6772c3b6c39f652e7273"));
    let read = decode_files_cursor(&text, FileOperation::Tree, 4_096).expect("cursor");
    assert!(matches!(
        read,
        Some((3, FileCursor::Path { operation: PathOperation::Tree, path })) if path == "src/größe.rs"
    ));
    let broken = Some("3:files:tree:c3".to_owned());
    assert!(decode_files_cursor(&broken, FileOperation::Tree, 4_096).is_err());
}

fn tree_rows(
    root: &str,
    depth: usize,
    after: &Option<String>,
    limit: usize,
) -> Result<Vec<TreePathRecord>, Error> {
    assert_eq!((root, depth, limit), ("src", usize::MAX, 2));
    let names = ["src/a.rs", "src/b.rs", "src/c.rs"];
    Ok(names
        .iter()
        .filter(|name| after.as_ref().is_none_or(|after| **name > after.as_str()))
        .take(limit)
        .map(|name| TreePathRecord {
            path: name.to_string(),
            is_directory: false,
            language: None,
            size_bytes: Some(1),
        })
        .collect())
}

fn indexed(size: usize, after: Option<i64>) -> Result<Vec<FilePathRecord>, Error> {
    assert_eq!(size, FILE_LIST_PAGE_SIZE);
    Ok(records().into_iter().filter(|file| after.is_none_or(|id| file.id > id)).take(2).collect())
}

fn page_of(
    query: FilesQuery,
    cursor: Option<(u64, FileCursor)>,
    limit: usize,
) -> Result<(FilePage, FileOperation), Error> {
    let input = FilesInput { query, max_results: None, cursor };
    let ports =
        FilesPorts { rows: tree_rows, read: indexed, matches: matched_rows, normalize: same_pattern };
    files_page(&input, 7, &ports, limit, &CancellationToken::new())
}

#[test]
fn requests_are_answered_from_the_whole_index() {
    let glob = || FilesQuery::Glob { pattern: "**/*.{rs,md}".into() };
    let (page, operation) = page_of(glob(), None, 10).expect("glob page");
    assert_eq!(operation, FileOperation::Glob);
    let paths = page.entries.iter().map(|entry| entry.path.as_str()).collect::<Vec<_>>();
    assert_eq!(
        paths,
        ["docs/readme.md", "lib.rs", "src/lib.rs", "src/library/mod.rs", "src/main.rs"]
    );
    let named = FilesQuery::Glob { pattern: "**/lib.rs".into() };
    let (page, _) = page_of(named, None, 10).expect("rows of the index");
    assert_eq!(page.entries.len(), 3);
    let (page, operation) =
        page_of(FilesQuery::Find { query: "readme".into() }, None, 10).expect("fuzzy page");
    assert_eq!(operation, FileOperation::Find);
    assert_eq!(page.entries.len(), 1);
    let tree = || FilesQuery::Tree { root: "src".into(), depth: None };
    let (page, operation) = page_of(tree(), None, 1).expect("tree page");
    assert_eq!(operation, FileOperation::Tree);
    assert_eq!(page.entries[0].path, "src/a.rs");
    let (page, _) = page_of(tree(), page.next.map(|next| (7, next)), 1).expect("next page");
    assert_eq!(page.entries[0].path, "src/b.rs");
    let stale = || FileCursor::Path { operation: PathOperation::Glob, path: "lib.rs".into() };
    assert!(matches!(page_of(glob(), Some((6, stale())), 10), Err(Error::StaleCursor)));
    assert!(matches!(
        page_of(FilesQuery::Find { query: "a".into() }, Some((7, stale())), 10),
        Err(Error::StaleCursor)
    ));
    assert!(matches!(
        page_of(FilesQuery::Glob { pattern: "{a".into() }, None, 10),
        Err(Error::InvalidInput { field: "pattern", .. })
    ));
}

#[test]
fn long_queries_are_scored_only_where_the_score_is_exact() {
    let long = "a".repeat(2_601);
    let word = "a".repeat(2_600);
    let far = vec![record(1, &long)];
    assert!(!can_score_all(&long, &far));
    assert!(can_score_all(&word, &far));
    assert!(can_score_all(&long, &vec![record(1, &word)]));
    assert!(!can_score_all(&"a ".repeat(65_537), &records()));
    let found = fuzzy_entries(&word, &far, None, 1, &CancellationToken::new()).expect("page");
    assert_eq!(found.entries.len(), 1);
    let listed = |_: usize, after: Option<i64>| {
        Ok(if after.is_none() { vec![record(1, &"a".repeat(2_601))] } else { Vec::new() })
    };
    let search = |query: FilesQuery| {
        let input = FilesInput { query, max_results: None, cursor: None };
        let ports = FilesPorts {
            rows: tree_rows,
            read: &listed,
            matches: matched_rows,
            normalize: same_pattern,
        };
        search_page(&input, 7, &ports, 1, &CancellationToken::new())
    };
    assert!(search(FilesQuery::Find { query: long }).is_none());
    let (page, _) = search(FilesQuery::Find { query: word }).expect("searched").expect("page");
    assert_eq!(page.entries.len(), 1);
    assert!(search(FilesQuery::Glob { pattern: "{".repeat(65) }).is_none());
    let refused = search(FilesQuery::Glob { pattern: "a{".into() }).expect("searched");
    assert!(refused.is_err());
}
