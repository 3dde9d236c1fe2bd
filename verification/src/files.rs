//! Path discovery: tree, fuzzy find and glob over an index snapshot.

use crate::accounting::{
    budget_fault, prefix_exceeds, prefix_fits, Measurement, PrefixSizing, ReceiptResourceDecoration,
    ResponseBudget,
};
use crate::cancellation::{answered, check_cancelled, stopped};
use crate::error::{first_fault, reports, Error, Fault};
use crate::fitting::{settle_meta, settle_says, settles_all, Metered};
use crate::lists::{filter_map, filter_map_len, filter_map_push};
use crate::model::ResponseMeta;
use crate::ordered::{
    bounded_selection_is_the_first, first_of, insert_within, put_all, put_all_len, put_all_within,
    put_within, strictly_ordered, text_lt, views, weak_order,
};
use crate::services::Services;
use crate::text::{
    chars_of, ascii_bytes, begins, byte_len, contains_text, copy_optional_text, copy_text,
    count_text, decimal, decimal_is_short, decimal_round_trip, decimal_text, hex_bytes, hex_of,
    hex_round_trip, hex_shape, hex_text, is_digit, lemma_first_at, match_count, nibble_of,
    number_of, occurs, optional_text, parse_number, same_text, split_first, split_once_text,
    stands_at, starts_text, strip_end_text, strip_text, stripped, stripped_end, text_before,
    text_le, text_order, texts, unhexed, utf8_text,
};
use crate::validation::{
    blank, byte_size, is_blank, too_long, validate_optional_input, InputLimits,
};
use globset::Glob;
use nucleo_matcher::pattern::{AtomKind, CaseMatching, Normalization, Pattern};
use nucleo_matcher::{Config, Matcher, Utf32Str};
use tokio_util::sync::CancellationToken;
use vstd::prelude::*;
use vstd::utf8::encode_utf8;

verus! {

/// The longest query that is matched fuzzily.
pub const MAX_FUZZY_QUERY_BYTES: usize = 131072;

/// The longest query, or else the longest path, of a fuzzy match.
pub const MAX_FUZZY_WORD_BYTES: usize = 2600;

/// The longest path that is matched fuzzily.
pub const MAX_FUZZY_PATH_BYTES: usize = 4294967295;

/// Whether a query can be scored against a path. One of the two is so short that
/// the score of a word fits sixteen bits, and the query so short that the sum over
/// its words fits thirty-two.
pub open spec fn scorable(query: Seq<char>, path: Seq<char>) -> bool {
    &&& byte_len(query) <= MAX_FUZZY_QUERY_BYTES
    &&& byte_len(path) <= MAX_FUZZY_PATH_BYTES
    &&& byte_len(query) <= MAX_FUZZY_WORD_BYTES || byte_len(path) <= MAX_FUZZY_WORD_BYTES
}

/// Whether a query can be scored against the paths of all files.
pub open spec fn all_scorable(query: Seq<char>, files: Seq<FilePathRecord>) -> bool {
    forall|i: int| 0 <= i < files.len() ==> scorable(query, (#[trigger] files[i]).path@)
}

/// Tells whether a query can be scored against the paths of all files.
pub fn can_score_all(query: &str, files: &Vec<FilePathRecord>) -> (r: bool)
    ensures
        r == all_scorable(query@, files@),
{
    let asked: usize = query.as_bytes().len();
    let mut i: usize = 0;
    while i < files.len()
        invariant
            i <= files.len(),
            asked == byte_len(query@),
            forall|k: int| 0 <= k < i ==> scorable(query@, (#[trigger] files@[k]).path@),
        decreases files.len() - i,
    {
        let held: usize = files[i].path.as_str().as_bytes().len();
        if asked > MAX_FUZZY_QUERY_BYTES || held > MAX_FUZZY_PATH_BYTES || (asked
            > MAX_FUZZY_WORD_BYTES && held > MAX_FUZZY_WORD_BYTES) {
            assert(!scorable(query@, files@[i as int].path@));
            return false;
        }
        i += 1;
    }
    true
}

/// How paths are looked for.
#[derive(Debug, Clone, Copy, PartialEq, Eq, Structural)]
pub enum FileOperation {
    Tree,
    Find,
    Glob,
}

/// The operations whose results come in the order of paths.
#[derive(Debug, Clone, Copy, PartialEq, Eq, Structural)]
pub enum PathOperation {
    Tree,
    Glob,
}

/// Where a listing of paths goes on.
#[derive(Debug)]
pub enum FileCursor {
    Path { operation: PathOperation, path: String },
    Fuzzy { score: u32, path: String },
}

/// What a [`FileCursor`] says.
pub enum FileCursorView {
    Path { operation: PathOperation, path: Seq<char> },
    Fuzzy { score: u32, path: Seq<char> },
}

impl View for FileCursor {
    type V = FileCursorView;

    open spec fn view(&self) -> FileCursorView {
        match *self {
            FileCursor::Path { operation, path } => FileCursorView::Path { operation, path: path@ },
            FileCursor::Fuzzy { score, path } => FileCursorView::Fuzzy { score, path: path@ },
        }
    }
}

/// What an optional cursor says.
pub open spec fn optional_cursor(value: Option<FileCursor>) -> Option<FileCursorView> {
    match value {
        Some(cursor) => Some(cursor@),
        None => None,
    }
}

/// Whether an entry is a file.
#[derive(Debug, Clone, Copy, PartialEq, Eq, Structural)]
pub enum FileEntryKind {
    File,
    Directory,
}

/// One path of a listing.
#[derive(Debug)]
pub struct FileEntry {
    pub path: String,
    pub kind: FileEntryKind,
    pub language: Option<String>,
    pub size_bytes: Option<u64>,
    pub score: Option<u32>,
}

/// What a [`FileEntry`] says.
pub struct EntryView {
    pub path: Seq<char>,
    pub kind: FileEntryKind,
    pub language: Option<Seq<char>>,
    pub size_bytes: Option<u64>,
    pub score: Option<u32>,
}

impl View for FileEntry {
    type V = EntryView;

    open spec fn view(&self) -> EntryView {
        EntryView {
            path: self.path@,
            kind: self.kind,
            language: optional_text(self.language),
            size_bytes: self.size_bytes,
            score: self.score,
        }
    }
}

/// One indexed file.
#[derive(Debug)]
pub struct FilePathRecord {
    pub id: i64,
    pub path: String,
    pub language: Option<String>,
    pub size_bytes: u64,
}

/// What of a [`FilePathRecord`] a listing shows.
pub struct RecordView {
    pub path: Seq<char>,
    pub language: Option<Seq<char>>,
    pub size_bytes: u64,
}

impl View for FilePathRecord {
    type V = RecordView;

    open spec fn view(&self) -> RecordView {
        RecordView {
            path: self.path@,
            language: optional_text(self.language),
            size_bytes: self.size_bytes,
        }
    }
}

/// One path of a tree.
#[derive(Debug)]
pub struct TreePathRecord {
    pub path: String,
    pub is_directory: bool,
    pub language: Option<String>,
    pub size_bytes: Option<u64>,
}

/// One page of a listing.
#[derive(Debug)]
pub struct FilePage {
    pub entries: Vec<FileEntry>,
    pub next: Option<FileCursor>,
}

/// A request for paths.
#[derive(Debug)]
pub struct FilesRequest {
    pub operation: FileOperation,
    pub path: Option<String>,
    pub query: Option<String>,
    pub pattern: Option<String>,
    pub max_results: Option<usize>,
    pub cursor: Option<String>,
    pub depth: Option<usize>,
}

/// What is looked for.
#[derive(Debug)]
pub enum FilesQuery {
    Tree { root: String, depth: Option<usize> },
    Find { query: String },
    Glob { pattern: String },
}

/// What a [`FilesQuery`] says.
pub enum QueryView {
    Tree { root: Seq<char>, depth: Option<usize> },
    Find { query: Seq<char> },
    Glob { pattern: Seq<char> },
}

impl View for FilesQuery {
    type V = QueryView;

    open spec fn view(&self) -> QueryView {
        match *self {
            FilesQuery::Tree { root, depth } => QueryView::Tree { root: root@, depth },
            FilesQuery::Find { query } => QueryView::Find { query: query@ },
            FilesQuery::Glob { pattern } => QueryView::Glob { pattern: pattern@ },
        }
    }
}

/// A request for paths that passed its checks.
#[derive(Debug)]
pub struct FilesInput {
    pub query: FilesQuery,
    pub max_results: Option<usize>,
    pub cursor: Option<(u64, FileCursor)>,
}

/// The beginning of a cursor's payload, by operation.
pub open spec fn payload_name(operation: PathOperation) -> Seq<char> {
    match operation {
        PathOperation::Tree => "tree:"@,
        PathOperation::Glob => "glob:"@,
    }
}

/// What of a cursor stands behind its generation.
pub open spec fn payload_text(cursor: FileCursorView) -> Seq<char> {
    match cursor {
        FileCursorView::Path { operation, path } => payload_name(operation) + hex_text(
            encode_utf8(path),
        ),
        FileCursorView::Fuzzy { score, path } => "find:"@ + (decimal_text(score as nat) + (":"@
            + hex_text(encode_utf8(path)))),
    }
}

/// The text of a cursor.
pub open spec fn cursor_text(cursor: FileCursorView, generation: u64) -> Seq<char> {
    decimal_text(generation as nat) + (":files:"@ + payload_text(cursor))
}

/// The cursor of an operation in the order of paths.
pub open spec fn path_payload(payload: Seq<char>, operation: PathOperation) -> Option<
    FileCursorView,
> {
    match stripped(payload, payload_name(operation)) {
        Some(digits) => match unhexed(digits) {
            Some(path) => Some(FileCursorView::Path { operation, path }),
            None => None,
        },
        None => None,
    }
}

/// The cursor of a fuzzy search.
pub open spec fn fuzzy_payload(payload: Seq<char>) -> Option<FileCursorView> {
    match stripped(payload, "find:"@) {
        Some(rest) => match split_first(rest, ":"@) {
            Some((score, digits)) => match (number_of(score, u32::MAX as nat), unhexed(digits)) {
                (Some(score), Some(path)) => Some(
                    FileCursorView::Fuzzy { score: score as u32, path },
                ),
                _ => None,
            },
            None => None,
        },
        None => None,
    }
}

/// The cursor of an operation, by its payload.
pub open spec fn payload_cursor(payload: Seq<char>, operation: FileOperation) -> Option<
    FileCursorView,
> {
    match operation {
        FileOperation::Tree => path_payload(payload, PathOperation::Tree),
        FileOperation::Glob => path_payload(payload, PathOperation::Glob),
        FileOperation::Find => fuzzy_payload(payload),
    }
}

/// The generation and the cursor that a text stands for.
pub open spec fn decoded_cursor(
    text: Seq<char>,
    operation: FileOperation,
    max_path_bytes: usize,
) -> Option<(u64, FileCursorView)> {
    if byte_len(text) > 2 * max_path_bytes + 64 {
        None
    } else {
        match split_first(text, ":files:"@) {
            Some((generation, payload)) => match (
                number_of(generation, u64::MAX as nat),
                payload_cursor(payload, operation),
            ) {
                (Some(generation), Some(cursor)) => Some((generation as u64, cursor)),
                _ => None,
            },
            None => None,
        }
    }
}

/// Whether a cursor is one of an operation.
pub open spec fn cursor_of(cursor: FileCursorView, operation: FileOperation) -> bool {
    match (cursor, operation) {
        (FileCursorView::Path { operation: PathOperation::Tree, .. }, FileOperation::Tree) => true,
        (FileCursorView::Path { operation: PathOperation::Glob, .. }, FileOperation::Glob) => true,
        (FileCursorView::Fuzzy { .. }, FileOperation::Find) => true,
        _ => false,
    }
}

/// The path of a cursor.
pub open spec fn cursor_place(cursor: FileCursorView) -> Seq<char> {
    match cursor {
        FileCursorView::Path { path, .. } => path,
        FileCursorView::Fuzzy { path, .. } => path,
    }
}

proof fn lemma_split_digits(digits: Seq<char>, sep: Seq<char>, rest: Seq<char>)
    requires
        forall|i: int| 0 <= i < digits.len() ==> is_digit(#[trigger] digits[i]),
        sep.len() > 0,
        sep[0] == ':',
    ensures
        split_first(digits + (sep + rest), sep) == Some((digits, rest)),
{
    let text = digits + (sep + rest);
    let at = digits.len() as int;
    assert(text.subrange(at, at + sep.len()) =~= sep);
    assert forall|k: int| 0 <= k < at implies !stands_at(text, sep, k) by {
        if stands_at(text, sep, k) {
            assert(text.subrange(k, k + sep.len())[0] == text[k]);
            assert(text[k] == digits[k]);
            assert(is_digit(digits[k]));
        }
    }
    lemma_first_at(text, sep, 0, at);
    assert(text.take(at) =~= digits);
    assert(text.subrange(at + sep.len(), text.len() as int) =~= rest);
}

proof fn lemma_stripped(prefix: Seq<char>, rest: Seq<char>)
    ensures
        stripped(prefix + rest, prefix) == Some(rest),
{
    assert((prefix + rest).subrange(0, prefix.len() as int) =~= prefix);
    assert((prefix + rest).subrange(prefix.len() as int, (prefix + rest).len() as int) =~= rest);
}

/// A cursor comes back from its text, for every path that a request may name.
pub proof fn file_cursor_round_trip(
    cursor: FileCursorView,
    generation: u64,
    operation: FileOperation,
    max_path_bytes: usize,
)
    requires
        cursor_of(cursor, operation),
        byte_len(cursor_place(cursor)) <= max_path_bytes,
    ensures
        decoded_cursor(cursor_text(cursor, generation), operation, max_path_bytes) == Some(
            (generation, cursor),
        ),
{
    reveal_strlit(":files:");
    reveal_strlit("tree:");
    reveal_strlit("glob:");
    reveal_strlit("find:");
    reveal_strlit(":");
    let text = cursor_text(cursor, generation);
    let payload = payload_text(cursor);
    let digits = hex_text(encode_utf8(cursor_place(cursor)));
    decimal_round_trip(generation as nat, u64::MAX as nat);
    decimal_is_short(generation);
    hex_round_trip(cursor_place(cursor));
    hex_shape(encode_utf8(cursor_place(cursor)));
    lemma_split_digits(decimal_text(generation as nat), ":files:"@, payload);
    match cursor {
        FileCursorView::Path { operation: kind, path } => {
            lemma_stripped(payload_name(kind), digits);
            assert(payload.len() == 5 + digits.len());
        },
        FileCursorView::Fuzzy { score, path } => {
            decimal_round_trip(score as nat, u32::MAX as nat);
            decimal_is_short(score as u64);
            lemma_stripped("find:"@, decimal_text(score as nat) + (":"@ + digits));
            lemma_split_digits(decimal_text(score as nat), ":"@, digits);
        },
    }
    assert forall|i: int| 0 <= i < text.len() implies (#[trigger] text[i]) as u32 <= 0x7F by {
        let g = decimal_text(generation as nat);
        if i < g.len() {
            assert(text[i] == g[i]);
            assert(is_digit(g[i]));
        } else if i < g.len() + 7 {
            assert(text[i] == ":files:"@[i - g.len()]);
        } else {
            let j = i - g.len() - 7;
            assert(text[i] == payload[j]);
            match cursor {
                FileCursorView::Path { operation: kind, path } => {
                    if j >= 5 {
                        assert(payload[j] == digits[j - 5]);
                    }
                },
                FileCursorView::Fuzzy { score, path } => {
                    let s = decimal_text(score as nat);
                    if j >= 5 && j < 5 + s.len() {
                        assert(payload[j] == s[j - 5]);
                        assert(is_digit(s[j - 5]));
                    } else if j > 5 + s.len() {
                        assert(payload[j] == digits[j - 6 - s.len()]);
                    }
                },
            }
        }
    }
    ascii_bytes(text);
}

impl FileCursor {
    /// The text of the cursor.
    pub fn encode(&self, generation: u64) -> (r: String)
        ensures
            r@ == cursor_text(self@, generation),
    {
        let mut out = decimal(generation);
        out.push_str(":files:");
        match self {
            FileCursor::Path { operation, path } => {
                match operation {
                    PathOperation::Tree => {
                        out.push_str("tree:");
                    },
                    PathOperation::Glob => {
                        out.push_str("glob:");
                    },
                }
                out.push_str(hex_encode(path.as_str()).as_str());
            },
            FileCursor::Fuzzy { score, path } => {
                out.push_str("find:");
                out.push_str(decimal(*score as u64).as_str());
                out.push_str(":");
                out.push_str(hex_encode(path.as_str()).as_str());
            },
        }
        assert(out@ =~= cursor_text(self@, generation));
        out
    }

    /// A copy.
    pub fn duplicate(&self) -> (r: FileCursor)
        ensures
            r == *self,
    {
        match self {
            FileCursor::Path { operation, path } => FileCursor::Path {
                operation: *operation,
                path: path.clone(),
            },
            FileCursor::Fuzzy { score, path } => FileCursor::Fuzzy {
                score: *score,
                path: path.clone(),
            },
        }
    }
}

/// The hexadecimal digits of the bytes of a text.
pub fn hex_encode(value: &str) -> (r: String)
    ensures
        r@ == hex_text(encode_utf8(value@)),
{
    hex_of(value.as_bytes())
}

/// The four-bit number of a small hexadecimal letter or digit.
pub fn hex_nibble(value: u8) -> (r: Result<u8, Error>)
    ensures
        match r {
            Ok(n) => nibble_of(value) == Some(n) && n < 16,
            Err(e) => nibble_of(value) is None && e is StaleCursor,
        },
{
    if 48 <= value && value <= 57 {
        Ok(value - 48)
    } else if 97 <= value && value <= 102 {
        Ok(value - 87)
    } else {
        Err(Error::StaleCursor)
    }
}

proof fn lemma_hex_prefix(digits: Seq<u8>, i: int)
    requires
        0 <= i <= digits.len(),
        i % 2 == 0,
        digits.len() % 2 == 0,
        hex_bytes(digits.take(i)) is None,
    ensures
        hex_bytes(digits) is None,
    decreases digits.len() - i,
{
    if i < digits.len() {
        let next = digits.take(i + 2);
        assert(next.take(next.len() - 2) =~= digits.take(i));
        lemma_hex_prefix(digits, i + 2);
    } else {
        assert(digits.take(i) =~= digits);
    }
}

proof fn lemma_hex_odd(digits: Seq<u8>)
    requires
        digits.len() % 2 == 1,
    ensures
        hex_bytes(digits) is None,
    decreases digits.len(),
{
    if digits.len() > 1 {
        lemma_hex_odd(digits.take(digits.len() - 2));
    }
}

/// The text whose bytes hexadecimal digits spell.
pub fn hex_decode(value: &str) -> (r: Result<String, Error>)
    ensures
        match r {
            Ok(text) => unhexed(value@) == Some(text@),
            Err(e) => unhexed(value@) is None && e is StaleCursor,
        },
{
    let digits = value.as_bytes();
    if digits.len() % 2 != 0 {
        proof {
            lemma_hex_odd(digits@);
        }
        return Err(Error::StaleCursor);
    }
    let mut bytes: Vec<u8> = Vec::new();
    let mut i: usize = 0;
    assert(digits@.take(0) =~= Seq::<u8>::empty());
    while i < digits.len()
        invariant
            i <= digits.len(),
            i % 2 == 0,
            digits.len() % 2 == 0,
            digits@ == encode_utf8(value@),
            hex_bytes(digits@.take(i as int)) == Some(bytes@),
        decreases digits.len() - i,
    {
        proof {
            let next = digits@.take(i + 2);
            assert(next.take(next.len() - 2) =~= digits@.take(i as int));
            assert(next[next.len() - 2] == digits@[i as int]);
            assert(next.last() == digits@[i + 1]);
            if hex_bytes(next) is None {
                lemma_hex_prefix(digits@, i + 2);
            }
        }
        let high: u8 = match hex_nibble(digits[i]) {
            Ok(n) => n,
            Err(e) => {
                return Err(e);
            },
        };
        let low: u8 = match hex_nibble(digits[i + 1]) {
            Ok(n) => n,
            Err(e) => {
                return Err(e);
            },
        };
        bytes.push(high * 16 + low);
        i += 2;
    }
    assert(digits@.take(digits@.len() as int) =~= digits@);
    match utf8_text(bytes) {
        Some(text) => Ok(text),
        None => Err(Error::StaleCursor),
    }
}

fn decode_path_payload(payload: &str, operation: PathOperation) -> (r: Result<FileCursor, Error>)
    ensures
        match r {
            Ok(cursor) => path_payload(payload@, operation) == Some(cursor@),
            Err(e) => path_payload(payload@, operation) is None && e is StaleCursor,
        },
{
    let name = match operation {
        PathOperation::Tree => "tree:",
        PathOperation::Glob => "glob:",
    };
    match strip_text(payload, name) {
        Some(digits) => match hex_decode(digits.as_str()) {
            Ok(path) => Ok(FileCursor::Path { operation, path }),
            Err(e) => Err(e),
        },
        None => Err(Error::StaleCursor),
    }
}

fn decode_fuzzy_payload(payload: &str) -> (r: Result<FileCursor, Error>)
    ensures
        match r {
            Ok(cursor) => fuzzy_payload(payload@) == Some(cursor@),
            Err(e) => fuzzy_payload(payload@) is None && e is StaleCursor,
        },
{
    let rest = match strip_text(payload, "find:") {
        Some(rest) => rest,
        None => {
            return Err(Error::StaleCursor);
        },
    };
    match split_once_text(rest.as_str(), ":") {
        Some((score, digits)) => {
            let score: u32 = match parse_number(score.as_str(), u32::MAX as u64) {
                Some(score) => score as u32,
                None => {
                    return Err(Error::StaleCursor);
                },
            };
            match hex_decode(digits.as_str()) {
                Ok(path) => Ok(FileCursor::Fuzzy { score, path }),
                Err(e) => Err(e),
            }
        },
        None => Err(Error::StaleCursor),
    }
}

/// Reads a cursor where there is one. Whatever is no cursor of the operation is
/// stale.
pub fn decode_files_cursor(
    cursor: &Option<String>,
    operation: FileOperation,
    max_path_bytes: usize,
) -> (r: Result<Option<(u64, FileCursor)>, Error>)
    ensures
        match (cursor, r) {
            (None, Ok(found)) => found is None,
            (Some(text), Ok(Some(found))) => decoded_cursor(text@, operation, max_path_bytes)
                == Some((found.0, found.1@)),
            (Some(text), Err(e)) => decoded_cursor(text@, operation, max_path_bytes) is None
                && e is StaleCursor,
            _ => false,
        },
{
    let text = match cursor {
        Some(text) => text,
        None => {
            return Ok(None);
        },
    };
    if byte_size(text.as_str()) > max_path_bytes.saturating_add(max_path_bytes).saturating_add(64) {
        return Err(Error::StaleCursor);
    }
    let (generation, payload) = match split_once_text(text.as_str(), ":files:") {
        Some(parts) => parts,
        None => {
            return Err(Error::StaleCursor);
        },
    };
    let generation: u64 = match parse_number(generation.as_str(), u64::MAX) {
        Some(generation) => generation,
        None => {
            return Err(Error::StaleCursor);
        },
    };
    let found = match operation {
        FileOperation::Tree => decode_path_payload(payload.as_str(), PathOperation::Tree),
        FileOperation::Glob => decode_path_payload(payload.as_str(), PathOperation::Glob),
        FileOperation::Find => decode_fuzzy_payload(payload.as_str()),
    };
    match found {
        Ok(found) => Ok(Some((generation, found))),
        Err(e) => Err(e),
    }
}

/// The root of a tree: `relative` is what the path rules say of a path that is
/// given and not empty.
pub fn normalize_tree_root(root: &Option<String>, relative: Result<String, Error>) -> (r: Result<
    String,
    Error,
>)
    ensures
        match root {
            Some(path) => if path@.len() > 0 {
                r == relative
            } else {
                r is Ok && r->Ok_0@ == Seq::<char>::empty()
            },
            None => r is Ok && r->Ok_0@ == Seq::<char>::empty(),
        },
{
    match root {
        Some(path) => {
            if path.as_str().is_empty() {
                Ok(String::new())
            } else {
                relative
            }
        },
        None => Ok(String::new()),
    }
}

/// The fault of the cursor of a request.
pub open spec fn cursor_fault(request: FilesRequest, limits: InputLimits) -> Option<Fault> {
    match request.cursor {
        Some(text) => if decoded_cursor(
            text@,
            request.operation,
            limits.max_path_bytes,
        ) is None {
            Some(Fault::StaleCursor)
        } else {
            None
        },
        None => None,
    }
}

/// The fault of a text that is longer than its field takes, where it is there.
pub open spec fn optional_too_long(value: Option<String>, field: Seq<char>, max: usize) -> Option<
    Fault,
> {
    match value {
        Some(text) => too_long(text@, field, max),
        None => None,
    }
}

/// The fault of a text that an operation cannot do without.
pub open spec fn required_fault(value: Option<String>, field: Seq<char>, reason: Seq<char>) -> Option<
    Fault,
> {
    if value is None || is_blank(value->0@) {
        Some(Fault::InvalidInput { field, reason })
    } else {
        None
    }
}

/// What a verdict reports.
pub open spec fn verdict_fault<T>(verdict: Result<T, Error>) -> Option<Fault> {
    match verdict {
        Ok(_) => None,
        Err(e) => Some(e@),
    }
}

/// The fault of what an operation looks for.
pub open spec fn query_fault(
    request: FilesRequest,
    relative: Result<String, Error>,
    pattern: Result<(), Error>,
) -> Option<Fault> {
    match request.operation {
        FileOperation::Tree => if request.path is Some && request.path->0@.len() > 0 {
            verdict_fault(relative)
        } else {
            None
        },
        FileOperation::Find => required_fault(
            request.query,
            "query"@,
            "is required for find"@,
        ),
        FileOperation::Glob => first_fault(
            required_fault(request.pattern, "pattern"@, "is required for glob"@),
            verdict_fault(pattern),
        ),
    }
}

/// The fault of a request for paths.
pub open spec fn files_fault(
    request: FilesRequest,
    limits: InputLimits,
    relative: Result<String, Error>,
    pattern: Result<(), Error>,
) -> Option<Fault> {
    first_fault(
        optional_too_long(request.path, "path"@, limits.max_path_bytes),
        first_fault(
            optional_too_long(request.query, "query"@, limits.max_query_bytes),
            first_fault(
                optional_too_long(request.pattern, "pattern"@, limits.max_pattern_bytes),
                first_fault(
                    cursor_fault(request, limits),
                    query_fault(request, relative, pattern),
                ),
            ),
        ),
    )
}

/// What a request looks for.
pub open spec fn asked_query(request: FilesRequest, relative: Result<String, Error>) -> QueryView {
    match request.operation {
        FileOperation::Tree => QueryView::Tree {
            root: if request.path is Some && request.path->0@.len() > 0 {
                relative->Ok_0@
            } else {
                Seq::empty()
            },
            depth: request.depth,
        },
        FileOperation::Find => QueryView::Find { query: request.query->0@ },
        FileOperation::Glob => QueryView::Glob { pattern: request.pattern->0@ },
    }
}

fn required_text(value: Option<String>, field: &'static str, reason: &'static str) -> (r: Result<
    String,
    Error,
>)
    ensures
        reports(r, required_fault(value, field@, reason@)),
        r matches Ok(text) ==> value == Some(text),
{
    match value {
        Some(text) => {
            if blank(text.as_str()) {
                Err(Error::InvalidInput { field, reason })
            } else {
                Ok(text)
            }
        },
        None => Err(Error::InvalidInput { field, reason }),
    }
}

impl FilesInput {
    /// Checks a request for paths. `relative` is what the path rules say of its
    /// path, `pattern` what the pattern rules say of its pattern.
    pub fn parse(
        request: FilesRequest,
        limits: InputLimits,
        relative: Result<String, Error>,
        pattern: Result<(), Error>,
    ) -> (r: Result<FilesInput, Error>)
        ensures
            reports(r, files_fault(request, limits, relative, pattern)),
            r matches Ok(input) ==> {
                &&& input.query@ == asked_query(request, relative)
                &&& input.max_results == request.max_results
                &&& match request.cursor {
                    Some(text) => input.cursor is Some && decoded_cursor(
                        text@,
                        request.operation,
                        limits.max_path_bytes,
                    ) == Some(((input.cursor->0).0, (input.cursor->0).1@)),
                    None => input.cursor is None,
                }
            },
    {
        match validate_optional_input(&request.path, "path", limits.max_path_bytes) {
            Ok(_) => {},
            Err(e) => {
                return Err(e);
            },
        }
        match validate_optional_input(&request.query, "query", limits.max_query_bytes) {
            Ok(_) => {},
            Err(e) => {
                return Err(e);
            },
        }
        match validate_optional_input(&request.pattern, "pattern", limits.max_pattern_bytes) {
            Ok(_) => {},
            Err(e) => {
                return Err(e);
            },
        }
        let cursor = match decode_files_cursor(
            &request.cursor,
            request.operation,
            limits.max_path_bytes,
        ) {
            Ok(cursor) => cursor,
            Err(e) => {
                return Err(e);
            },
        };
        let query = match request.operation {
            FileOperation::Tree => {
                let root = match normalize_tree_root(&request.path, relative) {
                    Ok(root) => root,
                    Err(e) => {
                        return Err(e);
                    },
                };
                FilesQuery::Tree { root, depth: request.depth }
            },
            FileOperation::Find => {
                let query = match required_text(request.query, "query", "is required for find") {
                    Ok(query) => query,
                    Err(e) => {
                        return Err(e);
                    },
                };
                FilesQuery::Find { query }
            },
            FileOperation::Glob => {
                let text = match required_text(request.pattern, "pattern", "is required for glob") {
                    Ok(text) => text,
                    Err(e) => {
                        return Err(e);
                    },
                };
                match pattern {
                    Ok(_) => {},
                    Err(e) => {
                        return Err(e);
                    },
                }
                FilesQuery::Glob { pattern: text }
            },
        };
        Ok(FilesInput { query, max_results: request.max_results, cursor })
    }

    /// The cursor, where it belongs to the generation at hand.
    pub fn cursor(&self, generation: u64) -> (r: Result<Option<FileCursor>, Error>)
        ensures
            match self.cursor {
                None => r is Ok && r->Ok_0 is None,
                Some(found) => if found.0 == generation {
                    r is Ok && r->Ok_0 == Some(found.1)
                } else {
                    r is Err && r->Err_0 is StaleCursor
                },
            },
    {
        match &self.cursor {
            None => Ok(None),
            Some(found) => {
                if found.0 != generation {
                    Err(Error::StaleCursor)
                } else {
                    Ok(Some(found.1.duplicate()))
                }
            },
        }
    }
}

impl FilesQuery {
    /// The operation that answers the query.
    pub fn operation(&self) -> (r: FileOperation)
        ensures
            r == match self@ {
                QueryView::Tree { .. } => FileOperation::Tree,
                QueryView::Find { .. } => FileOperation::Find,
                QueryView::Glob { .. } => FileOperation::Glob,
            },
    {
        match self {
            FilesQuery::Tree { .. } => FileOperation::Tree,
            FilesQuery::Find { .. } => FileOperation::Find,
            FilesQuery::Glob { .. } => FileOperation::Glob,
        }
    }
}

/// The path of a cursor in the order of paths.
pub fn cursor_path(cursor: Option<FileCursor>) -> (r: Result<Option<String>, Error>)
    ensures
        match optional_cursor(cursor) {
            None => r is Ok && r->Ok_0 is None,
            Some(FileCursorView::Path { path, .. }) => r is Ok && optional_text(r->Ok_0) == Some(
                path,
            ),
            Some(FileCursorView::Fuzzy { .. }) => r is Err && r->Err_0 is StaleCursor,
        },
{
    match cursor {
        Some(FileCursor::Path { path, .. }) => Ok(Some(path)),
        Some(FileCursor::Fuzzy { .. }) => Err(Error::StaleCursor),
        None => Ok(None),
    }
}

/// The two SQL patterns that stand for one glob, where SQL can express it: the
/// second is for a directory wildcard that may also stand for nothing.
pub open spec fn sql_forms(pattern: Seq<char>) -> Option<(Seq<char>, Option<Seq<char>>)> {
    if occurs(pattern, "{"@) || occurs(pattern, "}"@) {
        None
    } else if !occurs(pattern, "**"@) {
        Some((pattern, None))
    } else if match_count(pattern, "**"@, 0) != 1 {
        None
    } else if stripped(pattern, "**/"@) is Some {
        let rest = stripped(pattern, "**/"@)->0;
        if occurs(rest, "**"@) {
            None
        } else if begins(rest, "*"@) {
            Some((rest, None))
        } else {
            Some((rest, Some("*/"@ + rest)))
        }
    } else if stripped_end(pattern, "/**"@) is Some {
        let prefix = stripped_end(pattern, "/**"@)->0;
        if prefix.len() == 0 || occurs(prefix, "**"@) {
            None
        } else {
            Some((prefix + "/*"@, None))
        }
    } else if split_first(pattern, "/**/"@) is Some {
        let left = (split_first(pattern, "/**/"@)->0).0;
        let right = (split_first(pattern, "/**/"@)->0).1;
        if left.len() == 0 || occurs(left, "**"@) || occurs(right, "**"@) {
            None
        } else if begins(right, "*"@) {
            Some((left + "/"@ + right, None))
        } else {
            Some((left + "/"@ + right, Some(left + "/*/"@ + right)))
        }
    } else {
        None
    }
}

fn glued(left: &str, middle: &str, right: &str) -> (r: String)
    ensures
        r@ == left@ + middle@ + right@,
{
    let mut out = copy_text(left);
    out.push_str(middle);
    out.push_str(right);
    out
}

/// Maps a glob to one or two SQL patterns.
///
/// Globs and SQL patterns agree that `*` and `?` cross `/`. The only structural
/// rewrite collapses a single `**`. Brace expansion and several `**` cannot be
/// expressed, so those give nothing and the caller scans.
pub fn sql_glob_patterns(pattern: &str) -> (r: Option<(String, Option<String>)>)
    ensures
        match r {
            Some((primary, alternate)) => sql_forms(pattern@) == Some(
                (primary@, optional_text(alternate)),
            ),
            None => sql_forms(pattern@) is None,
        },
{
    if contains_text(pattern, "{") || contains_text(pattern, "}") {
        return None;
    }
    if !contains_text(pattern, "**") {
        return Some((copy_text(pattern), None));
    }
    proof {
        reveal_strlit("**");
    }
    if count_text(pattern, "**") != 1 {
        return None;
    }
    if let Some(rest) = strip_text(pattern, "**/") {
        if contains_text(rest.as_str(), "**") {
            return None;
        }
        if starts_text(rest.as_str(), "*") {
            return Some((rest, None));
        }
        let mut alternate = copy_text("*/");
        alternate.push_str(rest.as_str());
        return Some((rest, Some(alternate)));
    }
    if let Some(prefix) = strip_end_text(pattern, "/**") {
        if prefix.as_str().is_empty() || contains_text(prefix.as_str(), "**") {
            return None;
        }
        let mut primary = prefix;
        primary.push_str("/*");
        return Some((primary, None));
    }
    if let Some((left, right)) = split_once_text(pattern, "/**/") {
        if left.as_str().is_empty() || contains_text(left.as_str(), "**") || contains_text(
            right.as_str(),
            "**",
        ) {
            return None;
        }
        let primary = glued(left.as_str(), "/", right.as_str());
        if starts_text(right.as_str(), "*") {
            return Some((primary, None));
        }
        return Some((primary, Some(glued(left.as_str(), "/*/", right.as_str()))));
    }
    None
}

/// Entries in the order of their paths.
pub open spec fn by_path() -> spec_fn(EntryView, EntryView) -> bool {
    |a: EntryView, b: EntryView| text_lt(a.path, b.path)
}

/// Entries in the order of their scores, the highest first, then of their
/// paths.
pub open spec fn by_rank() -> spec_fn(EntryView, EntryView) -> bool {
    |a: EntryView, b: EntryView|
        rank_before(a.score, a.path, b.score, b.path)
}

/// Whether a score and a path come before others.
pub open spec fn rank_before(
    score: Option<u32>,
    path: Seq<char>,
    other_score: Option<u32>,
    other_path: Seq<char>,
) -> bool {
    let a = if score is Some {
        score->0 as int
    } else {
        -1
    };
    let b = if other_score is Some {
        other_score->0 as int
    } else {
        -1
    };
    a > b || (a == b && text_lt(path, other_path))
}

/// Paths are in a strict weak order.
pub proof fn path_order()
    ensures
        weak_order(by_path()),
{
    assert forall|a: EntryView, b: EntryView| #[trigger] by_path()(a, b) implies !by_path()(
        b,
        a,
    ) by {
        text_order(a.path, b.path, a.path);
    }
    assert forall|a: EntryView, b: EntryView, c: EntryView|
        !(#[trigger] by_path()(a, b)) && !(#[trigger] by_path()(b, c)) implies !by_path()(a, c) by {
        text_order(a.path, b.path, c.path);
        text_order(b.path, a.path, c.path);
        text_order(c.path, b.path, a.path);
        text_order(a.path, c.path, b.path);
    }
}

/// Ranks are in a strict weak order.
pub proof fn rank_order()
    ensures
        weak_order(by_rank()),
{
    assert forall|a: EntryView, b: EntryView| #[trigger] by_rank()(a, b) implies !by_rank()(
        b,
        a,
    ) by {
        text_order(a.path, b.path, a.path);
    }
    assert forall|a: EntryView, b: EntryView, c: EntryView|
        !(#[trigger] by_rank()(a, b)) && !(#[trigger] by_rank()(b, c)) implies !by_rank()(a, c) by {
        text_order(a.path, b.path, c.path);
        text_order(b.path, a.path, c.path);
        text_order(c.path, b.path, a.path);
        text_order(a.path, c.path, b.path);
    }
}

fn entry_precedes(a: &FileEntry, b: &FileEntry) -> (r: bool)
    ensures
        r == by_path()(a@, b@),
{
    text_before(a.path.as_str(), b.path.as_str()) && !same_text(a.path.as_str(), b.path.as_str())
}

fn entry_outranks(a: &FileEntry, b: &FileEntry) -> (r: bool)
    ensures
        r == by_rank()(a@, b@),
{
    let x: i64 = match a.score {
        Some(score) => score as i64,
        None => -1,
    };
    let y: i64 = match b.score {
        Some(score) => score as i64,
        None => -1,
    };
    x > y || (x == y && entry_precedes(a, b))
}

/// Whether a path comes behind the one that a page goes on from.
pub open spec fn behind(path: Seq<char>, after: Option<Seq<char>>) -> bool {
    match after {
        Some(last) => !text_le(path, last),
        None => true,
    }
}

/// Adds an entry to a page in the order of paths. An entry that does not come
/// behind `after`, or whose path is there already, is left out; beyond the
/// capacity the last entry goes.
pub fn retain_path_entry(
    entries: &mut Vec<FileEntry>,
    entry: FileEntry,
    after: Option<&str>,
    capacity: usize,
)
    ensures
        views(final(entries)@) == if behind(
            entry@.path,
            match after {
                Some(last) => Some(last@),
                None => None,
            },
        ) {
            put_within(views(old(entries)@), entry@, by_path(), false, capacity as int)
        } else {
            views(old(entries)@)
        },
{
    if let Some(last) = after {
        if text_before(entry.path.as_str(), last) {
            return ;
        }
    }
    insert_within(entries, entry, entry_precedes, false, capacity, Ghost(by_path()));
}

/// The cursor behind a list of entries, where there is more.
pub open spec fn next_path(
    entries: Seq<EntryView>,
    more: bool,
    operation: PathOperation,
) -> Option<FileCursorView> {
    if more && entries.len() > 0 {
        Some(FileCursorView::Path { operation, path: entries.last().path })
    } else {
        None
    }
}

/// Makes a page of the first entries of a list.
pub fn finish_path_page(entries: Vec<FileEntry>, limit: usize, operation: PathOperation) -> (r:
    FilePage)
    ensures
        views(r.entries@) == first_of(views(entries@), limit as int),
        optional_cursor(r.next) == next_path(
            first_of(views(entries@), limit as int),
            entries@.len() > limit,
            operation,
        ),
{
    let more = entries.len() > limit;
    let ghost all = views(entries@);
    let mut entries = entries;
    entries.truncate(limit);
    assert(views(entries@) =~= first_of(all, limit as int));
    let next = if more && entries.len() > 0 {
        let last: usize = entries.len() - 1;
        assert(views(entries@).last() == entries@[last as int]@);
        Some(FileCursor::Path { operation, path: entries[last].path.clone() })
    } else {
        None
    };
    FilePage { entries, next }
}

/// The entry of a path of a tree.
pub open spec fn tree_entry(row: TreePathRecord) -> EntryView {
    EntryView {
        path: row.path@,
        kind: if row.is_directory {
            FileEntryKind::Directory
        } else {
            FileEntryKind::File
        },
        language: optional_text(row.language),
        size_bytes: row.size_bytes,
        score: None,
    }
}

/// The entries of the paths of a tree.
pub open spec fn tree_views(rows: Seq<TreePathRecord>) -> Seq<EntryView> {
    Seq::new(rows.len(), |i: int| tree_entry(rows[i]))
}

/// Whether a page holds the first rows of a tree and goes on where there are more.
pub open spec fn first_of_tree(
    rows: Seq<TreePathRecord>,
    limit: usize,
    page: FilePage,
) -> bool {
    let shown = first_of(tree_views(rows), limit as int);
    &&& views(page.entries@) == shown
    &&& optional_cursor(page.next) == next_path(shown, rows.len() > limit, PathOperation::Tree)
}

/// Makes a page of the rows of a tree: one row beyond the limit says that there
/// is more.
pub fn tree_page(rows: &Vec<TreePathRecord>, limit: usize) -> (r: FilePage)
    ensures
        first_of_tree(rows@, limit, r),
{
    let mut entries: Vec<FileEntry> = Vec::new();
    let mut i: usize = 0;
    while i < rows.len()
        invariant
            i <= rows.len(),
            views(entries@) == tree_views(rows@).take(i as int),
        decreases rows.len() - i,
    {
        let row = &rows[i];
        let entry = FileEntry {
            path: row.path.clone(),
            kind: if row.is_directory {
                FileEntryKind::Directory
            } else {
                FileEntryKind::File
            },
            language: copy_optional_text(&row.language),
            size_bytes: row.size_bytes,
            score: None,
        };
        let ghost before = views(entries@);
        let ghost added = entry@;
        entries.push(entry);
        assert(views(entries@) =~= before.push(added));
        assert(views(entries@) =~= tree_views(rows@).take(i + 1));
        i += 1;
    }
    assert(views(entries@) =~= tree_views(rows@));
    finish_path_page(entries, limit, PathOperation::Tree)
}

/// The entries of the rows that a search for a glob returned. They are files.
pub open spec fn match_views(rows: Seq<TreePathRecord>) -> Seq<EntryView> {
    Seq::new(
        rows.len(),
        |i: int|
            EntryView {
                path: rows[i].path@,
                kind: FileEntryKind::File,
                language: optional_text(rows[i].language),
                size_bytes: rows[i].size_bytes,
                score: None,
            },
    )
}

/// Whether a page holds the first rows of a search for a glob and goes on where
/// there are more.
pub open spec fn first_of_matches(
    rows: Seq<TreePathRecord>,
    limit: usize,
    page: FilePage,
) -> bool {
    let shown = first_of(match_views(rows), limit as int);
    &&& views(page.entries@) == shown
    &&& optional_cursor(page.next) == next_path(shown, rows.len() > limit, PathOperation::Glob)
}

/// Makes a page of the rows that a search for a glob returned: one row beyond the
/// limit says that there is more.
pub fn match_page(rows: &Vec<TreePathRecord>, limit: usize) -> (r: FilePage)
    ensures
        first_of_matches(rows@, limit, r),
{
    let mut entries: Vec<FileEntry> = Vec::new();
    let mut i: usize = 0;
    while i < rows.len()
        invariant
            i <= rows.len(),
            views(entries@) == match_views(rows@).take(i as int),
        decreases rows.len() - i,
    {
        let row = &rows[i];
        let entry = FileEntry {
            path: row.path.clone(),
            kind: FileEntryKind::File,
            language: copy_optional_text(&row.language),
            size_bytes: row.size_bytes,
            score: None,
        };
        let ghost before = views(entries@);
        let ghost added = entry@;
        entries.push(entry);
        assert(views(entries@) =~= before.push(added));
        assert(views(entries@) =~= match_views(rows@).take(i + 1));
        i += 1;
    }
    assert(views(entries@) =~= match_views(rows@));
    finish_path_page(entries, limit, PathOperation::Glob)
}

/// Whether a path holds a backslash, which some systems take for a separator.
pub open spec fn has_backslash(path: Seq<char>) -> bool {
    exists|i: int| 0 <= i < path.len() && #[trigger] path[i] == '\\'
}

/// The score that a fuzzy search gives a path.
pub uninterp spec fn nucleo_score(query: Seq<char>, path: Seq<char>) -> Option<u32>;

/// Whether a text is a glob.
pub uninterp spec fn glob_accepted(pattern: Seq<char>) -> bool;

/// Whether a glob matches a path.
pub uninterp spec fn glob_verdict(pattern: Seq<char>, path: Seq<char>) -> bool;

/// The most characters of a glob that is surely compiled. A character takes less
/// than 512 bytes of the compiled form, which may take ten megabytes.
pub const MAX_GLOB_CHARS: usize = 16384;

/// The deepest groups of a glob that is surely compiled. A group takes three of the
/// 250 levels that an expression may have.
pub const MAX_GLOB_DEPTH: usize = 64;

/// How many groups a glob opens.
pub open spec fn groups_opened(pattern: Seq<char>) -> nat
    decreases pattern.len(),
{
    if pattern.len() == 0 {
        0
    } else {
        groups_opened(pattern.drop_last()) + if pattern.last() == '{' {
            1nat
        } else {
            0
        }
    }
}

/// Where the next character of a glob stands: outside of every class of characters,
/// behind the bracket that opens one, behind its negation, or within it.
#[derive(Debug, Clone, Copy, PartialEq, Eq, Structural)]
pub enum GlobPlace {
    Outside,
    Opened,
    Negated,
    Within,
}

/// The place behind one more character. The first character of a class never ends
/// it.
pub open spec fn place_behind(place: GlobPlace, c: char) -> GlobPlace {
    match place {
        GlobPlace::Outside => if c == '[' {
            GlobPlace::Opened
        } else {
            GlobPlace::Outside
        },
        GlobPlace::Opened => if c == '!' || c == '^' {
            GlobPlace::Negated
        } else {
            GlobPlace::Within
        },
        GlobPlace::Negated => GlobPlace::Within,
        GlobPlace::Within => if c == ']' {
            GlobPlace::Outside
        } else {
            GlobPlace::Within
        },
    }
}

/// The place behind a glob, how many groups are open there, and how many were open
/// at once at most.
pub struct GlobDepth {
    pub place: GlobPlace,
    pub open: nat,
    pub deepest: nat,
}

/// How deep the groups of a glob without a backslash are nested. Braces within a
/// class stand for themselves.
pub open spec fn glob_depth(pattern: Seq<char>) -> GlobDepth
    decreases pattern.len(),
{
    if pattern.len() == 0 {
        GlobDepth { place: GlobPlace::Outside, open: 0, deepest: 0 }
    } else {
        let before = glob_depth(pattern.drop_last());
        let c = pattern.last();
        let open = if before.place is Outside && c == '{' {
            before.open + 1
        } else if before.place is Outside && c == '}' && before.open > 0 {
            (before.open - 1) as nat
        } else {
            before.open
        };
        GlobDepth {
            place: place_behind(before.place, c),
            open,
            deepest: if open > before.deepest {
                open
            } else {
                before.deepest
            },
        }
    }
}

/// How deep the groups of a glob may be nested. Where a backslash may escape a
/// brace or a bracket, every group may stand within the one before.
pub open spec fn nesting(pattern: Seq<char>) -> nat {
    if has_backslash(pattern) {
        groups_opened(pattern)
    } else {
        glob_depth(pattern).deepest
    }
}

/// Whether a text is short enough, and its groups flat enough, to be compiled where
/// it is a glob.
pub open spec fn plain_glob(pattern: Seq<char>) -> bool {
    &&& pattern.len() <= MAX_GLOB_CHARS
    &&& nesting(pattern) <= MAX_GLOB_DEPTH
}

/// A glob opens no more groups than it has characters.
pub proof fn groups_are_few(pattern: Seq<char>)
    ensures
        groups_opened(pattern) <= pattern.len(),
        glob_depth(pattern).open <= glob_depth(pattern).deepest <= pattern.len(),
        nesting(pattern) <= pattern.len(),
    decreases pattern.len(),
{
    if pattern.len() > 0 {
        groups_are_few(pattern.drop_last());
    }
}

/// Tells whether a text is short enough, and its groups flat enough, to be compiled
/// where it is a glob.
pub fn is_plain_glob(pattern: &str) -> (r: bool)
    ensures
        r == plain_glob(pattern@),
{
    let chars = chars_of(pattern);
    let mut groups: usize = 0;
    let mut escaped = false;
    let mut place = GlobPlace::Outside;
    let mut open: usize = 0;
    let mut deepest: usize = 0;
    let mut i: usize = 0;
    while i < chars.len()
        invariant
            i <= chars.len(),
            chars@ == pattern@,
            groups <= i,
            groups == groups_opened(pattern@.take(i as int)),
            escaped == has_backslash(pattern@.take(i as int)),
            open <= i,
            deepest <= i,
            glob_depth(pattern@.take(i as int)) == (GlobDepth {
                place,
                open: open as nat,
                deepest: deepest as nat,
            }),
        decreases chars.len() - i,
    {
        let ghost next = pattern@.take(i + 1);
        proof {
            assert(next.drop_last() =~= pattern@.take(i as int));
            assert(next[i as int] == chars@[i as int]);
            if has_backslash(next) && chars@[i as int] != '\\' {
                let k = choose|k: int| 0 <= k < next.len() && #[trigger] next[k] == '\\';
                assert(pattern@.take(i as int)[k] == '\\');
            }
            if escaped {
                let k = choose|k: int|
                    0 <= k < i && #[trigger] pattern@.take(i as int)[k] == '\\';
                assert(next[k] == '\\');
            }
        }
        let c = chars[i];
        if c == '{' {
            groups += 1;
        }
        if c == '\\' {
            escaped = true;
        }
        if place == GlobPlace::Outside {
            if c == '{' {
                open += 1;
            } else if c == '}' && open > 0 {
                open -= 1;
            }
        }
        if open > deepest {
            deepest = open;
        }
        place = move_place(place, c);
        i += 1;
    }
    assert(pattern@.take(pattern@.len() as int) =~= pattern@);
    let depth: usize = if escaped {
        groups
    } else {
        deepest
    };
    chars.len() <= MAX_GLOB_CHARS && depth <= MAX_GLOB_DEPTH
}

fn move_place(place: GlobPlace, c: char) -> (r: GlobPlace)
    ensures
        r == place_behind(place, c),
{
    match place {
        GlobPlace::Outside => if c == '[' {
            GlobPlace::Opened
        } else {
            GlobPlace::Outside
        },
        GlobPlace::Opened => if c == '!' || c == '^' {
            GlobPlace::Negated
        } else {
            GlobPlace::Within
        },
        GlobPlace::Negated => GlobPlace::Within,
        GlobPlace::Within => if c == ']' {
            GlobPlace::Outside
        } else {
            GlobPlace::Within
        },
    }
}

/// `Pattern::score` of `nucleo_matcher`, on a fuzzy pattern that ignores case
/// and a matcher for paths, scores a path or rejects it. It goes by the two
/// texts alone where the path holds no backslash, which only some systems count
/// as a delimiter. It panics on paths of four gigabytes. It sums the score of a
/// word in sixteen bits, at most 25 for each character that is matched and 9 more,
/// and those of the words in thirty-two, and either sum may overflow where query
/// and path are longer than `scorable` admits.
#[verifier::external_body]
fn fuzzy_score(query: &str, path: &str) -> (r: Option<u32>)
    requires
        scorable(query@, path@),
    ensures
        !has_backslash(path@) ==> r == nucleo_score(query@, path@),
{
    let pattern = Pattern::new(
        query,
        CaseMatching::Ignore,
        Normalization::Smart,
        AtomKind::Fuzzy,
    );
    let mut matcher = Matcher::new(Config::DEFAULT.match_paths());
    let mut buffer: Vec<char> = Vec::new();
    pattern.score(Utf32Str::new(path, &mut buffer), &mut matcher)
}

/// `Glob::new` tells whether a text is a glob. It goes by the text alone where
/// that holds no backslash, which some systems take for a separator and others
/// for an escape. It turns groups into an expression by a call for each level, so
/// groups that are nested without end would take up the stack.
#[verifier::external_body]
fn glob_parses(pattern: &str) -> (r: bool)
    requires
        plain_glob(pattern@),
    ensures
        !has_backslash(pattern@) ==> r == glob_accepted(pattern@),
{
    Glob::new(pattern).is_ok()
}

/// `GlobMatcher::is_match`, of the matcher that `Glob::compile_matcher` makes,
/// tells whether a glob matches a path; a text that is no glob matches none. It
/// goes by the two texts alone where neither holds a backslash, which some
/// systems take for a separator and others for an escape. A glob whose compiled
/// form outgrows ten megabytes, or whose groups are nested some eighty deep,
/// makes `compile_matcher` panic.
#[verifier::external_body]
fn glob_match(pattern: &str, path: &str) -> (r: bool)
    requires
        plain_glob(pattern@),
    ensures
        !has_backslash(pattern@) && !has_backslash(path@) ==> r == glob_verdict(pattern@, path@),
{
    match Glob::new(pattern) {
        Ok(glob) => glob.compile_matcher().is_match(path),
        Err(_) => false,
    }
}

/// An indexed file with what a search says of it.
pub struct Judged {
    pub record: RecordView,
    pub score: Option<u32>,
}

/// The files with what a search says of each.
pub open spec fn judged(files: Seq<RecordView>, scores: Seq<Option<u32>>) -> Seq<Judged> {
    Seq::new(files.len(), |i: int| Judged { record: files[i], score: scores[i] })
}

/// The entry of a file that a fuzzy search found, where it comes behind the
/// one that a page goes on from.
pub open spec fn found_entry(after: Option<(u32, Seq<char>)>) -> spec_fn(Judged) -> Option<
    EntryView,
> {
    |file: Judged|
        if file.score is Some && (match after {
            Some(last) => rank_before(Some(last.0), last.1, file.score, file.record.path),
            None => true,
        }) {
            Some(
                EntryView {
                    path: file.record.path,
                    kind: FileEntryKind::File,
                    language: file.record.language,
                    size_bytes: Some(file.record.size_bytes),
                    score: file.score,
                },
            )
        } else {
            None
        }
}

/// The entry of a file that a glob matches, where it comes behind the one that
/// a page goes on from.
pub open spec fn matched_entry(after: Option<Seq<char>>) -> spec_fn(Judged) -> Option<EntryView> {
    |file: Judged|
        if file.score is Some && behind(file.record.path, after) {
            Some(
                EntryView {
                    path: file.record.path,
                    kind: FileEntryKind::File,
                    language: file.record.language,
                    size_bytes: Some(file.record.size_bytes),
                    score: None,
                },
            )
        } else {
            None
        }
}

/// All entries of a fuzzy search behind a place, best first.
pub open spec fn ranked_entries(
    files: Seq<RecordView>,
    scores: Seq<Option<u32>>,
    after: Option<(u32, Seq<char>)>,
) -> Seq<EntryView> {
    put_all(filter_map(judged(files, scores), found_entry(after)), by_rank(), true)
}

/// All entries that a glob matches behind a place, in the order of paths.
pub open spec fn matched_entries(
    files: Seq<RecordView>,
    scores: Seq<Option<u32>>,
    after: Option<Seq<char>>,
) -> Seq<EntryView> {
    put_all(filter_map(judged(files, scores), matched_entry(after)), by_path(), false)
}

/// The cursor behind the entries of a fuzzy search, where there is more.
pub open spec fn next_rank(entries: Seq<EntryView>, more: bool) -> Option<FileCursorView> {
    if more && entries.len() > 0 {
        Some(
            FileCursorView::Fuzzy {
                score: entries.last().score->0,
                path: entries.last().path,
            },
        )
    } else {
        None
    }
}

fn record_entry(file: &FilePathRecord, score: Option<u32>) -> (r: FileEntry)
    ensures
        r@ == (EntryView {
            path: file@.path,
            kind: FileEntryKind::File,
            language: file@.language,
            size_bytes: Some(file@.size_bytes),
            score,
        }),
{
    FileEntry {
        path: file.path.clone(),
        kind: FileEntryKind::File,
        language: copy_optional_text(&file.language),
        size_bytes: Some(file.size_bytes),
        score,
    }
}

proof fn lemma_fits<A>(all: Seq<A>, limit: int, capacity: int)
    requires
        0 <= limit,
        capacity == limit + 1 || (capacity == limit && all.len() <= limit),
    ensures
        first_of(first_of(all, capacity), limit) == first_of(all, limit),
        first_of(all, capacity).len() > limit <==> all.len() > limit,
{
    assert(first_of(first_of(all, capacity), limit) =~= first_of(all, limit));
}

/// A score and a path, as characters.
pub open spec fn rank_place(after: Option<(u32, String)>) -> Option<(u32, Seq<char>)> {
    match after {
        Some(found) => Some((found.0, found.1@)),
        None => None,
    }
}

/// The best files of a fuzzy search, given the score of each file: at most
/// `limit` of those behind the cursor, and a cursor where there are more.
pub fn fuzzy_page(
    files: &Vec<FilePathRecord>,
    scores: &Vec<Option<u32>>,
    after: Option<(u32, String)>,
    limit: usize,
) -> (r: FilePage)
    requires
        files@.len() == scores@.len(),
    ensures
        ({
            let all = ranked_entries(views(files@), scores@, rank_place(after));
            &&& strictly_ordered(all, by_rank())
            &&& views(r.entries@) == first_of(all, limit as int)
            &&& optional_cursor(r.next) == next_rank(
                first_of(all, limit as int),
                all.len() > limit,
            )
        }),
{
    let ghost last = rank_place(after);
    let ghost items = judged(views(files@), scores@);
    let ghost f = found_entry(last);
    let capacity: usize = limit.saturating_add(1);
    let mut entries: Vec<FileEntry> = Vec::new();
    let mut i: usize = 0;
    proof {
        assert(filter_map(items.take(0), f) =~= Seq::<EntryView>::empty());
        assert(views(entries@) =~= Seq::<EntryView>::empty());
    }
    while i < files.len()
        invariant
            i <= files.len(),
            files@.len() == scores@.len(),
            last == rank_place(after),
            items == judged(views(files@), scores@),
            f == found_entry(last),
            views(entries@) == put_all_within(
                filter_map(items.take(i as int), f),
                by_rank(),
                true,
                capacity as int,
            ),
        decreases files.len() - i,
    {
        let file = &files[i];
        proof {
            assert(items[i as int].record == file@);
            filter_map_push(items, f, i as int);
        }
        if let Some(score) = scores[i] {
            let entry = record_entry(file, Some(score));
            let wanted = match &after {
                Some(found) => score < found.0 || (score == found.0 && text_before(
                    found.1.as_str(),
                    file.path.as_str(),
                ) && !same_text(found.1.as_str(), file.path.as_str())),
                None => true,
            };
            if wanted {
                proof {
                    let front = filter_map(items.take(i as int), f);
                    assert(f(items[i as int]) == Some(entry@));
                    assert(front.push(entry@).drop_last() =~= front);
                }
                insert_within(&mut entries, entry, entry_outranks, true, capacity, Ghost(by_rank()));
            }
        }
        i += 1;
    }
    proof {
        assert(items.take(items.len() as int) =~= items);
        rank_order();
        bounded_selection_is_the_first(filter_map(items, f), by_rank(), true, capacity as int);
        filter_map_len(items, f);
        put_all_len(filter_map(items, f), by_rank(), true);
        lemma_fits(ranked_entries(views(files@), scores@, last), limit as int, capacity as int);
        lemma_scored(filter_map(items, f), by_rank(), true);
        lemma_found_scored(items, last);
    }
    let ghost all = ranked_entries(views(files@), scores@, last);
    let more = entries.len() > limit;
    let ghost kept = views(entries@);
    entries.truncate(limit);
    assert(views(entries@) =~= first_of(kept, limit as int));
    let next = if more && entries.len() > 0 {
        let place: usize = entries.len() - 1;
        assert(views(entries@).last() == entries@[place as int]@);
        assert(views(entries@).last() == all[place as int]);
        assert(entries@[place as int].score is Some);
        match entries[place].score {
            Some(score) => Some(
                FileCursor::Fuzzy { score, path: entries[place].path.clone() },
            ),
            None => None,
        }
    } else {
        None
    };
    FilePage { entries, next }
}

proof fn lemma_found_scored(items: Seq<Judged>, after: Option<(u32, Seq<char>)>)
    ensures
        forall|i: int|
            0 <= i < filter_map(items, found_entry(after)).len() ==> (#[trigger] filter_map(
                items,
                found_entry(after),
            )[i]).score is Some,
    decreases items.len(),
{
    if items.len() > 0 {
        lemma_found_scored(items.drop_last(), after);
    }
}

proof fn lemma_scored(
    items: Seq<EntryView>,
    before: spec_fn(EntryView, EntryView) -> bool,
    replace: bool,
)
    ensures
        (forall|i: int| 0 <= i < items.len() ==> (#[trigger] items[i]).score is Some) ==> forall|
            i: int,
        |
            0 <= i < put_all(items, before, replace).len() ==> (#[trigger] put_all(
                items,
                before,
                replace,
            )[i]).score is Some,
    decreases items.len(),
{
    if items.len() > 0 && (forall|i: int| 0 <= i < items.len() ==> (#[trigger] items[i]).score
        is Some) {
        let front = items.drop_last();
        assert forall|i: int| 0 <= i < front.len() implies (#[trigger] front[i]).score is Some by {
            assert(front[i] == items[i]);
        }
        lemma_scored(front, before, replace);
        let list = put_all(front, before, replace);
        let x = items.last();
        assert(items[items.len() - 1].score is Some);
        let out = put_all(items, before, replace);
        assert(out == crate::ordered::put(list, x, before, replace));
        crate::ordered::put_members(list, x, before, replace);
    }
}

/// The files that a glob matches, given what it says of each file: at most
/// `limit` of those behind the cursor, and a cursor where there are more.
pub fn glob_page(
    files: &Vec<FilePathRecord>,
    matched: &Vec<Option<u32>>,
    after: Option<String>,
    limit: usize,
) -> (r: FilePage)
    requires
        files@.len() == matched@.len(),
    ensures
        ({
            let all = matched_entries(views(files@), matched@, optional_text(after));
            &&& strictly_ordered(all, by_path())
            &&& views(r.entries@) == first_of(all, limit as int)
            &&& optional_cursor(r.next) == next_path(
                first_of(all, limit as int),
                all.len() > limit,
                PathOperation::Glob,
            )
        }),
{
    let ghost last = optional_text(after);
    let ghost items = judged(views(files@), matched@);
    let ghost f = matched_entry(last);
    let capacity: usize = limit.saturating_add(1);
    let mut entries: Vec<FileEntry> = Vec::new();
    let mut i: usize = 0;
    proof {
        assert(filter_map(items.take(0), f) =~= Seq::<EntryView>::empty());
        assert(views(entries@) =~= Seq::<EntryView>::empty());
    }
    while i < files.len()
        invariant
            i <= files.len(),
            files@.len() == matched@.len(),
            last == optional_text(after),
            items == judged(views(files@), matched@),
            f == matched_entry(last),
            views(entries@) == put_all_within(
                filter_map(items.take(i as int), f),
                by_path(),
                false,
                capacity as int,
            ),
        decreases files.len() - i,
    {
        let file = &files[i];
        proof {
            assert(items[i as int].record == file@);
            filter_map_push(items, f, i as int);
        }
        if matched[i].is_some() {
            let entry = record_entry(file, None);
            proof {
                let front = filter_map(items.take(i as int), f);
                if behind(file@.path, last) {
                    assert(f(items[i as int]) == Some(entry@));
                    assert(front.push(entry@).drop_last() =~= front);
                }
            }
            let place = match &after {
                Some(text) => Some(text.as_str()),
                None => None,
            };
            retain_path_entry(&mut entries, entry, place, capacity);
        }
        i += 1;
    }
    proof {
        assert(items.take(items.len() as int) =~= items);
        path_order();
        bounded_selection_is_the_first(filter_map(items, f), by_path(), false, capacity as int);
        filter_map_len(items, f);
        put_all_len(filter_map(items, f), by_path(), false);
        lemma_fits(matched_entries(views(files@), matched@, last), limit as int, capacity as int);
    }
    finish_path_page(entries, limit, PathOperation::Glob)
}

/// Whether a page may hold the best files of a fuzzy search. Nothing is said of the
/// scores of paths with a backslash.
pub open spec fn fuzzy_paged(
    query: Seq<char>,
    files: Seq<FilePathRecord>,
    cursor: Option<FileCursorView>,
    limit: usize,
    page: FilePage,
) -> bool {
    exists|scores: Seq<Option<u32>>|
        {
            let all = #[trigger] ranked_entries(views(files), scores, fuzzy_after(cursor));
            &&& scores.len() == files.len()
            &&& forall|i: int|
                0 <= i < files.len() && !has_backslash(files[i].path@) ==> #[trigger] scores[i]
                    == nucleo_score(query, files[i].path@)
            &&& cursor is None || cursor->0 is Fuzzy
            &&& views(page.entries@) == first_of(all, limit as int)
            &&& optional_cursor(page.next) == next_rank(views(page.entries@), all.len() > limit)
        }
}

/// The best files of a fuzzy search.
pub fn fuzzy_entries(
    query: &str,
    files: &Vec<FilePathRecord>,
    cursor: Option<FileCursor>,
    limit: usize,
    cancellation: &CancellationToken,
) -> (r: Result<FilePage, Error>)
    requires
        all_scorable(query@, files@),
    ensures
        match r {
            Ok(page) => (files@.len() > 0 ==> answered(*cancellation, false)) && fuzzy_paged(
                query@,
                files@,
                optional_cursor(cursor),
                limit,
                page,
            ),
            Err(e) => stopped(e, *cancellation) || (e is StaleCursor && optional_cursor(cursor) is Some
                && optional_cursor(cursor)->0 is Path),
        },
{
    let after = match cursor {
        Some(FileCursor::Fuzzy { score, path }) => Some((score, path)),
        Some(FileCursor::Path { .. }) => {
            return Err(Error::StaleCursor);
        },
        None => None,
    };
    let mut scores: Vec<Option<u32>> = Vec::new();
    let mut i: usize = 0;
    while i < files.len()
        invariant
            i <= files.len(),
            scores@.len() == i,
            all_scorable(query@, files@),
            i > 0 ==> answered(*cancellation, false),
            forall|k: int|
                0 <= k < i && !has_backslash(files@[k].path@) ==> #[trigger] scores@[k]
                    == nucleo_score(query@, files@[k].path@),
        decreases files.len() - i,
    {
        match check_cancelled(cancellation) {
            Ok(_) => {},
            Err(e) => {
                return Err(e);
            },
        }
        assert(scorable(query@, files@[i as int].path@));
        scores.push(fuzzy_score(query, files[i].path.as_str()));
        i += 1;
    }
    let page = fuzzy_page(files, &scores, after, limit);
    assert(views(page.entries@) == first_of(
        ranked_entries(views(files@), scores@, fuzzy_after(optional_cursor(cursor))),
        limit as int,
    ));
    Ok(page)
}

/// The place that a fuzzy search goes on from.
pub open spec fn fuzzy_after(cursor: Option<FileCursorView>) -> Option<(u32, Seq<char>)> {
    match cursor {
        Some(FileCursorView::Fuzzy { score, path }) => Some((score, path)),
        _ => None,
    }
}

/// The place that a listing in the order of paths goes on from.
pub open spec fn path_after(cursor: Option<FileCursorView>) -> Option<Seq<char>> {
    match cursor {
        Some(FileCursorView::Path { path, .. }) => Some(path),
        _ => None,
    }
}

/// What a glob says of a path, as a score of nothing.
pub open spec fn match_score(verdict: bool) -> Option<u32> {
    if verdict {
        Some(0)
    } else {
        None
    }
}

/// Whether a page may hold the files that a scan for a glob finds behind a path.
/// Nothing is said of globs and paths with a backslash.
pub open spec fn glob_scanned(
    pattern: Seq<char>,
    files: Seq<FilePathRecord>,
    after: Option<Seq<char>>,
    limit: usize,
    page: FilePage,
) -> bool {
    exists|matched: Seq<Option<u32>>|
        {
            let all = #[trigger] matched_entries(views(files), matched, after);
            &&& matched.len() == files.len()
            &&& forall|i: int|
                0 <= i < files.len() && !has_backslash(pattern) && !has_backslash(files[i].path@)
                    ==> #[trigger] matched[i] == match_score(glob_verdict(pattern, files[i].path@))
            &&& views(page.entries@) == first_of(all, limit as int)
            &&& optional_cursor(page.next) == next_path(
                views(page.entries@),
                all.len() > limit,
                PathOperation::Glob,
            )
        }
}

/// Whether a text was refused as a glob.
pub open spec fn glob_refused(r: Result<FilePage, Error>) -> bool {
    r matches Err(e) && says_no_glob(e)
}

/// Whether an error says that a text is no glob.
pub open spec fn says_no_glob(e: Error) -> bool {
    e@ == (Fault::InvalidInput { field: "pattern"@, reason: "is not a valid glob"@ })
}

/// Refuses a text that is no glob.
pub(crate) fn check_glob(pattern: &str) -> (r: Result<(), Error>)
    requires
        plain_glob(pattern@),
    ensures
        !has_backslash(pattern@) ==> (r is Ok <==> glob_accepted(pattern@)),
        r matches Err(e) ==> says_no_glob(e),
{
    if glob_parses(pattern) {
        Ok(())
    } else {
        Err(Error::InvalidInput { field: "pattern", reason: "is not a valid glob" })
    }
}

/// The files that a glob matches, found by scanning.
pub fn scan_glob(
    pattern: &str,
    files: &Vec<FilePathRecord>,
    after: Option<String>,
    limit: usize,
    cancellation: &CancellationToken,
) -> (r: Result<FilePage, Error>)
    requires
        plain_glob(pattern@),
    ensures
        match r {
            Ok(page) => (files@.len() > 0 ==> answered(*cancellation, false)) && glob_scanned(
                pattern@,
                files@,
                optional_text(after),
                limit,
                page,
            ),
            Err(e) => stopped(e, *cancellation),
        },
{
    let ghost given = optional_text(after);
    let mut matched: Vec<Option<u32>> = Vec::new();
    let mut i: usize = 0;
    while i < files.len()
        invariant
            i <= files.len(),
            matched@.len() == i,
            plain_glob(pattern@),
            i > 0 ==> answered(*cancellation, false),
            forall|k: int|
                0 <= k < i && !has_backslash(pattern@) && !has_backslash(files@[k].path@)
                    ==> #[trigger] matched@[k] == match_score(
                    glob_verdict(pattern@, files@[k].path@),
                ),
        decreases files.len() - i,
    {
        match check_cancelled(cancellation) {
            Ok(_) => {},
            Err(e) => {
                return Err(e);
            },
        }
        if glob_match(pattern, files[i].path.as_str()) {
            matched.push(Some(0));
        } else {
            matched.push(None);
        }
        i += 1;
    }
    let page = glob_page(files, &matched, after, limit);
    assert(views(page.entries@) == first_of(
        matched_entries(views(files@), matched@, given),
        limit as int,
    ));
    Ok(page)
}

/// The place of an entry, as a cursor of its operation.
pub open spec fn entry_cursor(operation: FileOperation, entry: EntryView) -> FileCursorView {
    match operation {
        FileOperation::Tree => FileCursorView::Path {
            operation: PathOperation::Tree,
            path: entry.path,
        },
        FileOperation::Glob => FileCursorView::Path {
            operation: PathOperation::Glob,
            path: entry.path,
        },
        FileOperation::Find => FileCursorView::Fuzzy { score: entry.score->0, path: entry.path },
    }
}

/// The cursor behind an entry. The entries of a fuzzy search have a score.
pub fn files_cursor_for_entry(operation: FileOperation, entry: &FileEntry) -> (r: FileCursor)
    requires
        operation is Find ==> entry.score is Some,
    ensures
        r@ == entry_cursor(operation, entry@),
{
    match operation {
        FileOperation::Tree => FileCursor::Path {
            operation: PathOperation::Tree,
            path: entry.path.clone(),
        },
        FileOperation::Glob => FileCursor::Path {
            operation: PathOperation::Glob,
            path: entry.path.clone(),
        },
        FileOperation::Find => FileCursor::Fuzzy {
            score: entry.score.unwrap(),
            path: entry.path.clone(),
        },
    }
}

/// A page of entries with its metadata.
#[derive(Debug)]
pub struct FilesResponse {
    pub entries: Vec<FileEntry>,
    pub meta: ResponseMeta,
}

impl Metered for FilesResponse {
    open spec fn held_meta(&self) -> ResponseMeta {
        self.meta
    }

    fn meta_ref(&self) -> (r: &ResponseMeta) {
        &self.meta
    }
}

/// A page of bare paths with its metadata.
#[derive(Debug)]
pub struct FilesPathsResponse {
    pub paths: Vec<String>,
    pub meta: ResponseMeta,
}

impl Metered for FilesPathsResponse {
    open spec fn held_meta(&self) -> ResponseMeta {
        self.meta
    }

    fn meta_ref(&self) -> (r: &ResponseMeta) {
        &self.meta
    }
}

/// Whether the entries of an operation carry what its cursors need.
pub open spec fn can_continue(operation: FileOperation, entries: Seq<EntryView>) -> bool {
    operation is Find ==> forall|i: int|
        0 <= i < entries.len() ==> (#[trigger] entries[i]).score is Some
}

/// The text of the cursor behind a list of entries.
pub open spec fn text_behind(
    entries: Seq<EntryView>,
    operation: FileOperation,
    generation: u64,
) -> Option<Seq<char>> {
    if entries.len() > 0 {
        Some(cursor_text(entry_cursor(operation, entries.last()), generation))
    } else {
        None
    }
}

/// Metadata with another cursor.
pub open spec fn with_cursor(meta: ResponseMeta, cursor: Option<String>) -> ResponseMeta {
    ResponseMeta { next_cursor: cursor, ..meta }
}

/// Whether `out` is `response` with only its first entries, and a cursor behind
/// them.
pub open spec fn keeps_entries(
    response: FilesResponse,
    keep: usize,
    operation: FileOperation,
    generation: u64,
    out: FilesResponse,
) -> bool {
    &&& views(out.entries@) == first_of(views(response.entries@), keep as int)
    &&& out.meta == with_cursor(response.meta, out.meta.next_cursor)
    &&& optional_text(out.meta.next_cursor) == text_behind(
        views(out.entries@),
        operation,
        generation,
    )
}

/// Whether `out` is `response` with no more than one entry, and a cursor behind
/// it where there were more.
pub open spec fn keeps_least(
    response: FilesResponse,
    operation: FileOperation,
    generation: u64,
    out: FilesResponse,
) -> bool {
    &&& views(out.entries@) == first_of(views(response.entries@), 1)
    &&& out.meta == with_cursor(response.meta, out.meta.next_cursor)
    &&& if response.entries@.len() > 1 {
        optional_text(out.meta.next_cursor) == text_behind(
            views(out.entries@),
            operation,
            generation,
        )
    } else {
        out.meta.next_cursor == response.meta.next_cursor
    }
}

fn copy_entries(entries: &Vec<FileEntry>, keep: usize) -> (r: Vec<FileEntry>)
    ensures
        views(r@) == first_of(views(entries@), keep as int),
{
    let mut out: Vec<FileEntry> = Vec::new();
    let mut i: usize = 0;
    while i < entries.len() && i < keep
        invariant
            i <= entries.len(),
            i <= keep,
            views(out@) == views(entries@).take(i as int),
        decreases entries.len() - i,
    {
        let copy = FileEntry {
            path: entries[i].path.clone(),
            kind: entries[i].kind,
            language: copy_optional_text(&entries[i].language),
            size_bytes: entries[i].size_bytes,
            score: entries[i].score,
        };
        let ghost before = views(out@);
        let ghost added = copy@;
        out.push(copy);
        assert(views(out@) =~= before.push(added));
        assert(views(out@) =~= views(entries@).take(i + 1));
        i += 1;
    }
    assert(views(out@) =~= first_of(views(entries@), keep as int));
    out
}

fn cursor_behind(entries: &Vec<FileEntry>, operation: FileOperation, generation: u64) -> (r: Option<
    String,
>)
    requires
        can_continue(operation, views(entries@)),
    ensures
        optional_text(r) == text_behind(views(entries@), operation, generation),
{
    if entries.len() == 0 {
        return None;
    }
    let last: usize = entries.len() - 1;
    assert(views(entries@)[last as int] == entries@[last as int]@);
    Some(files_cursor_for_entry(operation, &entries[last]).encode(generation))
}

struct FilesSizing<
    'a,
    S: Fn(&FilesResponse, &ResponseMeta, ReceiptResourceDecoration) -> Measurement,
> {
    original: &'a FilesResponse,
    operation: FileOperation,
    generation: u64,
    measure: &'a S,
}

fn kept_response(
    original: &FilesResponse,
    keep: usize,
    operation: FileOperation,
    generation: u64,
) -> (r: FilesResponse)
    requires
        can_continue(operation, views(original.entries@)),
    ensures
        keeps_entries(*original, keep, operation, generation, r),
{
    let entries = copy_entries(&original.entries, keep);
    assert forall|i: int| 0 <= i < views(entries@).len() implies (#[trigger] views(
        entries@,
    )[i]).score is Some || !(operation is Find) by {
        assert(views(entries@)[i] == views(original.entries@)[i]);
    }
    let mut meta = original.meta.duplicate();
    meta.next_cursor = cursor_behind(&entries, operation, generation);
    FilesResponse { entries, meta }
}

/// Whether `outcome` may be said of a response, as its settled tokens.
pub open spec fn settled_tokens<
    S: Fn(&FilesResponse, &ResponseMeta, ReceiptResourceDecoration) -> Measurement,
>(
    measure: S,
    response: FilesResponse,
    outcome: Result<usize, Error>,
) -> bool {
    match outcome {
        Ok(tokens) => exists|meta: ResponseMeta|
            #[trigger] settle_says(measure, response, Ok(meta)) && tokens
                == meta.total_response_tokens,
        Err(e) => settle_says(measure, response, Err(e)),
    }
}

/// Whether `outcome` may be said of a response with its first entries.
pub open spec fn kept_tokens<
    S: Fn(&FilesResponse, &ResponseMeta, ReceiptResourceDecoration) -> Measurement,
>(
    measure: S,
    original: FilesResponse,
    operation: FileOperation,
    generation: u64,
    keep: usize,
    outcome: Result<usize, Error>,
) -> bool {
    exists|candidate: FilesResponse|
        #[trigger] keeps_entries(original, keep, operation, generation, candidate)
            && settled_tokens(measure, candidate, outcome)
}

impl<
    'a,
    S: Fn(&FilesResponse, &ResponseMeta, ReceiptResourceDecoration) -> Measurement,
> PrefixSizing for FilesSizing<'a, S> {
    closed spec fn ready(&self) -> bool {
        &&& can_continue(self.operation, views(self.original.entries@))
        &&& settles_all::<FilesResponse, S>(*self.measure)
    }

    closed spec fn says(&self, keep: usize, outcome: Result<usize, Error>) -> bool {
        kept_tokens(
            *self.measure,
            *self.original,
            self.operation,
            self.generation,
            keep,
            outcome,
        )
    }

    fn tokens(&self, keep: usize) -> (r: Result<usize, Error>) {
        let candidate = kept_response(self.original, keep, self.operation, self.generation);
        match settle_meta(&candidate, self.measure) {
            Ok(meta) => {
                assert(settled_tokens(*self.measure, candidate, Ok(meta.total_response_tokens)));
                Ok(meta.total_response_tokens)
            },
            Err(e) => {
                assert(settled_tokens(*self.measure, candidate, Err(e)));
                Err(e)
            },
        }
    }
}

/// Whether `final_response` is a response fitted to a ceiling: as it was where
/// that fits, or else its first entries, as many as fit.
pub open spec fn files_fitted<
    S: Fn(&FilesResponse, &ResponseMeta, ReceiptResourceDecoration) -> Measurement,
>(
    measure: S,
    response: FilesResponse,
    operation: FileOperation,
    generation: u64,
    max_tokens: Option<usize>,
    fitted: FilesResponse,
) -> bool {
    match max_tokens {
        None => fitted == response,
        Some(max) => {
            ||| fitted == response && exists|tokens: usize|
                tokens <= max && #[trigger] settled_tokens(measure, response, Ok(tokens))
            ||| exists|keep: usize|
                {
                    &&& 0 < keep <= response.entries@.len()
                    &&& #[trigger] keeps_entries(response, keep, operation, generation, fitted)
                    &&& exists|tokens: usize|
                        tokens <= max && #[trigger] kept_tokens(
                            measure,
                            response,
                            operation,
                            generation,
                            keep,
                            Ok(tokens),
                        )
                    &&& keep < response.entries@.len() ==> exists|tokens: usize|
                        tokens > max && #[trigger] kept_tokens(
                            measure,
                            response,
                            operation,
                            generation,
                            (keep + 1) as usize,
                            Ok(tokens),
                        )
                }
        },
    }
}

/// Whether `e` is what fitting a response reports: an error of measuring it, or
/// what its smallest form would need.
pub open spec fn files_unfit<
    S: Fn(&FilesResponse, &ResponseMeta, ReceiptResourceDecoration) -> Measurement,
>(
    measure: S,
    response: FilesResponse,
    operation: FileOperation,
    generation: u64,
    max_tokens: Option<usize>,
    e: Error,
) -> bool {
    &&& max_tokens is Some
    &&& {
        ||| settled_tokens(measure, response, Err(e))
        ||| exists|keep: usize|
            #[trigger] kept_tokens(measure, response, operation, generation, keep, Err(e))
        ||| exists|least: FilesResponse|
            {
                &&& #[trigger] keeps_least(response, operation, generation, least)
                &&& {
                    ||| settle_says(measure, least, Err(e))
                    ||| exists|meta: ResponseMeta|
                        #[trigger] settle_says(measure, least, Ok(meta)) && e@ == budget_fault(
                            meta,
                            max_tokens->0,
                            meta.total_response_tokens,
                        )
                }
            }
    }
}

/// The error that tells what a settled response would have needed.
fn budget_error(meta: &ResponseMeta, max_tokens: usize) -> (r: Error)
    ensures
        r@ == budget_fault(*meta, max_tokens, meta.total_response_tokens),
{
    Error::ResponseBudgetExceeded {
        provided_max_response_tokens: max_tokens,
        minimum_required_response_tokens: meta.total_response_tokens,
        retry_with_at_least: meta.total_response_tokens,
        breakdown: crate::error::ResponseBudgetBreakdown {
            mandatory_response_tokens: meta.total_response_tokens,
            source_tokens: meta.source_tokens,
            protocol_tokens: meta.protocol_tokens,
            path_and_metadata_tokens: meta.path_and_metadata_tokens,
            receipt_reserve_tokens: 0,
        },
    }
}

impl Services {
    /// Fits a page to a ceiling by leaving out its last entries. `measure` counts
    /// the tokens of a serialized response.
    #[verifier::rlimit(40)]
    pub fn fit_files_response<
        S: Fn(&FilesResponse, &ResponseMeta, ReceiptResourceDecoration) -> Measurement,
    >(
        response: &mut FilesResponse,
        operation: FileOperation,
        generation: u64,
        max_tokens: Option<usize>,
        measure: S,
    ) -> (r: Result<(), Error>)
        requires
            can_continue(operation, views(old(response).entries@)),
            settles_all::<FilesResponse, S>(measure),
        ensures
            match r {
                Ok(_) => files_fitted(
                    measure,
                    *old(response),
                    operation,
                    generation,
                    max_tokens,
                    *final(response),
                ),
                Err(e) => *final(response) == *old(response) && files_unfit(
                    measure,
                    *old(response),
                    operation,
                    generation,
                    max_tokens,
                    e,
                ),
            },
    {
        let ghost start = *response;
        let max = match max_tokens {
            None => {
                return Ok(());
            },
            Some(max) => max,
        };
        match settle_meta(&*response, &measure) {
            Ok(meta) => {
                assert(settled_tokens(measure, start, Ok(meta.total_response_tokens)));
                if meta.total_response_tokens <= max {
                    return Ok(());
                }
            },
            Err(e) => {
                assert(settled_tokens(measure, start, Err(e)));
                return Err(e);
            },
        }
        let items: usize = response.entries.len();
        let kept = {
            let sizing = FilesSizing { original: &*response, operation, generation, measure: &measure };
            match ResponseBudget::new(max).largest_fitting_prefix(items, &sizing) {
                Ok(kept) => {
                    proof {
                        if kept is Some {
                            assert(prefix_fits(sizing, max, kept->0));
                            let tokens = choose|tokens: usize|
                                tokens <= max && #[trigger] sizing.says(kept->0, Ok(tokens));
                            assert(kept_tokens(measure, start, operation, generation, kept->0, Ok(tokens)));
                            if kept->0 < items {
                                let next = (kept->0 + 1) as usize;
                                assert(prefix_exceeds(sizing, max, next));
                                let more = choose|more: usize|
                                    more > max && #[trigger] sizing.says(next, Ok(more));
                                assert(kept_tokens(measure, start, operation, generation, next, Ok(more)));
                            }
                        }
                    }
                    kept
                },
                Err(e) => {
                    proof {
                        let keep = choose|keep: usize|
                            keep <= items && #[trigger] sizing.says(keep, Err::<usize, Error>(e));
                        assert(kept_tokens(measure, start, operation, generation, keep, Err(e)));
                    }
                    return Err(e);
                },
            }
        };
        if let Some(keep) = kept {
            if keep > 0 {
                let fitted = kept_response(&*response, keep, operation, generation);
                *response = fitted;
                return Ok(());
            }
        }
        let least = {
            let entries = copy_entries(&response.entries, 1);
            assert forall|i: int| 0 <= i < views(entries@).len() implies (#[trigger] views(
                entries@,
            )[i]).score is Some || !(operation is Find) by {
                assert(views(entries@)[i] == views(response.entries@)[i]);
            }
            let mut meta = response.meta.duplicate();
            if response.entries.len() > 1 {
                meta.next_cursor = cursor_behind(&entries, operation, generation);
            }
            FilesResponse { entries, meta }
        };
        assert(keeps_least(start, operation, generation, least));
        match settle_meta(&least, &measure) {
            Ok(meta) => Err(budget_error(&meta, max)),
            Err(e) => Err(e),
        }
    }
}

/// Whether `out` is a page of bare paths with only its first, and the cursor
/// behind the entry of the last.
pub open spec fn keeps_paths(
    response: FilesPathsResponse,
    entries: Seq<EntryView>,
    keep: usize,
    operation: FileOperation,
    generation: u64,
    out: FilesPathsResponse,
) -> bool {
    &&& texts(out.paths@) == first_of(texts(response.paths@), keep as int)
    &&& out.meta == with_cursor(response.meta, out.meta.next_cursor)
    &&& optional_text(out.meta.next_cursor) == path_text_behind(
        entries,
        keep,
        operation,
        generation,
    )
}

/// The text of the cursor behind the `keep`th entry, the first where none is
/// kept.
pub open spec fn path_text_behind(
    entries: Seq<EntryView>,
    keep: usize,
    operation: FileOperation,
    generation: u64,
) -> Option<Seq<char>> {
    let place = if keep > 0 {
        keep - 1
    } else {
        0
    };
    if place < entries.len() {
        Some(cursor_text(entry_cursor(operation, entries[place]), generation))
    } else {
        None
    }
}

/// Whether `out` is a page of bare paths with no more than one, and a cursor
/// behind it where there were more.
pub open spec fn keeps_least_paths(
    response: FilesPathsResponse,
    entries: Seq<EntryView>,
    operation: FileOperation,
    generation: u64,
    out: FilesPathsResponse,
) -> bool {
    if entries.len() == 0 {
        &&& texts(out.paths@) == texts(response.paths@)
        &&& out.meta == response.meta
    } else {
        &&& texts(out.paths@) == first_of(texts(response.paths@), 1)
        &&& out.meta == with_cursor(response.meta, out.meta.next_cursor)
        &&& if response.paths@.len() > 1 {
            optional_text(out.meta.next_cursor) == path_text_behind(
                entries,
                1,
                operation,
                generation,
            )
        } else {
            out.meta.next_cursor == response.meta.next_cursor
        }
    }
}

fn copy_first_texts(list: &Vec<String>, keep: usize) -> (r: Vec<String>)
    ensures
        texts(r@) == first_of(texts(list@), keep as int),
{
    let mut out: Vec<String> = Vec::new();
    let mut i: usize = 0;
    while i < list.len() && i < keep
        invariant
            i <= list.len(),
            i <= keep,
            texts(out@) == texts(list@).take(i as int),
        decreases list.len() - i,
    {
        let ghost before = texts(out@);
        out.push(list[i].clone());
        assert(texts(out@) =~= before.push(list@[i as int]@));
        assert(texts(out@) =~= texts(list@).take(i + 1));
        i += 1;
    }
    assert(texts(out@) =~= first_of(texts(list@), keep as int));
    out
}

fn cursor_at(
    entries: &Vec<FileEntry>,
    keep: usize,
    operation: FileOperation,
    generation: u64,
) -> (r: Option<String>)
    requires
        can_continue(operation, views(entries@)),
    ensures
        optional_text(r) == path_text_behind(views(entries@), keep, operation, generation),
{
    let place: usize = keep.saturating_sub(1);
    if place < entries.len() {
        assert(views(entries@)[place as int] == entries@[place as int]@);
        Some(files_cursor_for_entry(operation, &entries[place]).encode(generation))
    } else {
        None
    }
}

fn kept_paths(
    original: &FilesPathsResponse,
    entries: &Vec<FileEntry>,
    keep: usize,
    operation: FileOperation,
    generation: u64,
) -> (r: FilesPathsResponse)
    requires
        can_continue(operation, views(entries@)),
    ensures
        keeps_paths(*original, views(entries@), keep, operation, generation, r),
{
    let paths = copy_first_texts(&original.paths, keep);
    let mut meta = original.meta.duplicate();
    meta.next_cursor = cursor_at(entries, keep, operation, generation);
    FilesPathsResponse { paths, meta }
}

/// Whether `outcome` may be said of a page of bare paths, as its settled tokens.
pub open spec fn settled_path_tokens<
    S: Fn(&FilesPathsResponse, &ResponseMeta, ReceiptResourceDecoration) -> Measurement,
>(
    measure: S,
    response: FilesPathsResponse,
    outcome: Result<usize, Error>,
) -> bool {
    match outcome {
        Ok(tokens) => exists|meta: ResponseMeta|
            #[trigger] settle_says(measure, response, Ok(meta)) && tokens
                == meta.total_response_tokens,
        Err(e) => settle_says(measure, response, Err(e)),
    }
}

/// Whether `outcome` may be said of a page with its first bare paths.
pub open spec fn kept_path_tokens<
    S: Fn(&FilesPathsResponse, &ResponseMeta, ReceiptResourceDecoration) -> Measurement,
>(
    measure: S,
    original: FilesPathsResponse,
    entries: Seq<EntryView>,
    operation: FileOperation,
    generation: u64,
    keep: usize,
    outcome: Result<usize, Error>,
) -> bool {
    exists|candidate: FilesPathsResponse|
        #[trigger] keeps_paths(original, entries, keep, operation, generation, candidate)
            && settled_path_tokens(measure, candidate, outcome)
}

struct PathsSizing<
    'a,
    S: Fn(&FilesPathsResponse, &ResponseMeta, ReceiptResourceDecoration) -> Measurement,
> {
    original: &'a FilesPathsResponse,
    entries: &'a Vec<FileEntry>,
    operation: FileOperation,
    generation: u64,
    measure: &'a S,
}

impl<
    'a,
    S: Fn(&FilesPathsResponse, &ResponseMeta, ReceiptResourceDecoration) -> Measurement,
> PrefixSizing for PathsSizing<
    'a,
    S,
> {
    closed spec fn ready(&self) -> bool {
        &&& can_continue(self.operation, views(self.entries@))
        &&& settles_all::<FilesPathsResponse, S>(*self.measure)
    }

    closed spec fn says(&self, keep: usize, outcome: Result<usize, Error>) -> bool {
        kept_path_tokens(
            *self.measure,
            *self.original,
            views(self.entries@),
            self.operation,
            self.generation,
            keep,
            outcome,
        )
    }

    fn tokens(&self, keep: usize) -> (r: Result<usize, Error>) {
        let candidate = kept_paths(
            self.original,
            self.entries,
            keep,
            self.operation,
            self.generation,
        );
        match settle_meta(&candidate, self.measure) {
            Ok(meta) => {
                assert(settled_path_tokens(
                    *self.measure,
                    candidate,
                    Ok(meta.total_response_tokens),
                ));
                Ok(meta.total_response_tokens)
            },
            Err(e) => {
                assert(settled_path_tokens(*self.measure, candidate, Err(e)));
                Err(e)
            },
        }
    }
}

/// Whether a page of bare paths is fitted to a ceiling: as it was where that
/// fits, or else its first paths, as many as fit.
pub open spec fn paths_fitted<
    S: Fn(&FilesPathsResponse, &ResponseMeta, ReceiptResourceDecoration) -> Measurement,
>(
    measure: S,
    response: FilesPathsResponse,
    entries: Seq<EntryView>,
    operation: FileOperation,
    generation: u64,
    max_tokens: Option<usize>,
    fitted: FilesPathsResponse,
) -> bool {
    match max_tokens {
        None => fitted == response,
        Some(max) => {
            ||| fitted == response && exists|tokens: usize|
                tokens <= max && #[trigger] settled_path_tokens(measure, response, Ok(tokens))
            ||| exists|keep: usize|
                {
                    &&& 0 < keep <= response.paths@.len()
                    &&& #[trigger] keeps_paths(
                        response,
                        entries,
                        keep,
                        operation,
                        generation,
                        fitted,
                    )
                    &&& exists|tokens: usize|
                        tokens <= max && #[trigger] kept_path_tokens(
                            measure,
                            response,
                            entries,
                            operation,
                            generation,
                            keep,
                            Ok(tokens),
                        )
                    &&& keep < response.paths@.len() ==> exists|tokens: usize|
                        tokens > max && #[trigger] kept_path_tokens(
                            measure,
                            response,
                            entries,
                            operation,
                            generation,
                            (keep + 1) as usize,
                            Ok(tokens),
                        )
                }
        },
    }
}

/// Whether `e` is what fitting a page of bare paths reports.
pub open spec fn paths_unfit<
    S: Fn(&FilesPathsResponse, &ResponseMeta, ReceiptResourceDecoration) -> Measurement,
>(
    measure: S,
    response: FilesPathsResponse,
    entries: Seq<EntryView>,
    operation: FileOperation,
    generation: u64,
    max_tokens: Option<usize>,
    e: Error,
) -> bool {
    &&& max_tokens is Some
    &&& {
        ||| settled_path_tokens(measure, response, Err(e))
        ||| exists|keep: usize|
            #[trigger] kept_path_tokens(
                measure,
                response,
                entries,
                operation,
                generation,
                keep,
                Err(e),
            )
        ||| exists|least: FilesPathsResponse|
            {
                &&& #[trigger] keeps_least_paths(response, entries, operation, generation, least)
                &&& {
                    ||| settle_says(measure, least, Err(e))
                    ||| exists|meta: ResponseMeta|
                        #[trigger] settle_says(measure, least, Ok(meta)) && e@ == budget_fault(
                            meta,
                            max_tokens->0,
                            meta.total_response_tokens,
                        )
                }
            }
    }
}

impl Services {
    /// Fits a page of bare paths to a ceiling by leaving out its last paths.
    #[verifier::rlimit(40)]
    pub fn fit_files_paths_response<
        S: Fn(&FilesPathsResponse, &ResponseMeta, ReceiptResourceDecoration) -> Measurement,
    >(
        response: &mut FilesPathsResponse,
        entries: &Vec<FileEntry>,
        operation: FileOperation,
        generation: u64,
        max_tokens: Option<usize>,
        measure: S,
    ) -> (r: Result<(), Error>)
        requires
            can_continue(operation, views(entries@)),
            settles_all::<FilesPathsResponse, S>(measure),
        ensures
            match r {
                Ok(_) => paths_fitted(
                    measure,
                    *old(response),
                    views(entries@),
                    operation,
                    generation,
                    max_tokens,
                    *final(response),
                ),
                Err(e) => *final(response) == *old(response) && paths_unfit(
                    measure,
                    *old(response),
                    views(entries@),
                    operation,
                    generation,
                    max_tokens,
                    e,
                ),
            },
    {
        let ghost start = *response;
        let ghost listed = views(entries@);
        let max = match max_tokens {
            None => {
                return Ok(());
            },
            Some(max) => max,
        };
        match settle_meta(&*response, &measure) {
            Ok(meta) => {
                assert(settled_path_tokens(measure, start, Ok(meta.total_response_tokens)));
                if meta.total_response_tokens <= max {
                    return Ok(());
                }
            },
            Err(e) => {
                assert(settled_path_tokens(measure, start, Err(e)));
                return Err(e);
            },
        }
        let items: usize = response.paths.len();
        let kept = {
            let sizing = PathsSizing {
                original: &*response,
                entries,
                operation,
                generation,
                measure: &measure,
            };
            match ResponseBudget::new(max).largest_fitting_prefix(items, &sizing) {
                Ok(kept) => {
                    proof {
                        if kept is Some {
                            assert(prefix_fits(sizing, max, kept->0));
                            let tokens = choose|tokens: usize|
                                tokens <= max && #[trigger] sizing.says(kept->0, Ok(tokens));
                            assert(kept_path_tokens(
                                measure,
                                start,
                                listed,
                                operation,
                                generation,
                                kept->0,
                                Ok(tokens),
                            ));
                            if kept->0 < items {
                                let next = (kept->0 + 1) as usize;
                                assert(prefix_exceeds(sizing, max, next));
                                let more = choose|more: usize|
                                    more > max && #[trigger] sizing.says(next, Ok(more));
                                assert(kept_path_tokens(
                                    measure,
                                    start,
                                    listed,
                                    operation,
                                    generation,
                                    next,
                                    Ok(more),
                                ));
                            }
                        }
                    }
                    kept
                },
                Err(e) => {
                    proof {
                        let keep = choose|keep: usize|
                            keep <= items && #[trigger] sizing.says(keep, Err::<usize, Error>(e));
                        assert(kept_path_tokens(
                            measure,
                            start,
                            listed,
                            operation,
                            generation,
                            keep,
                            Err(e),
                        ));
                    }
                    return Err(e);
                },
            }
        };
        if let Some(keep) = kept {
            if keep > 0 {
                let fitted = kept_paths(&*response, entries, keep, operation, generation);
                *response = fitted;
                return Ok(());
            }
        }
        let least = if entries.len() == 0 {
            let paths = crate::text::copy_texts(&response.paths);
            FilesPathsResponse { paths, meta: response.meta.duplicate() }
        } else {
            let paths = copy_first_texts(&response.paths, 1);
            let mut meta = response.meta.duplicate();
            if response.paths.len() > 1 {
                meta.next_cursor = cursor_at(entries, 1, operation, generation);
            }
            FilesPathsResponse { paths, meta }
        };
        assert(keeps_least_paths(start, listed, operation, generation, least));
        match settle_meta(&least, &measure) {
            Ok(meta) => Err(budget_error(&meta, max)),
            Err(e) => Err(e),
        }
    }
}

} // verus!
