//! What a revision holds of a symbol.

use crate::change_receipt::{fingerprint_text, text_fingerprint, GitBlobBatch, ParserSymbol};
use crate::context::delivery::flag_at;
use crate::error::{Error, Fault};
use crate::history::types::{
    HistoricalSymbol, HistoricalView, HistoryRevisionMetadata, RevisionView,
};
use crate::services::Services;
use crate::text::{
    appended, byte_len, byte_slice, byte_slice_bytes, copy_optional_text, copy_text, optional_text,
    same_text, slice_bytes, texts,
};
use crate::validation::{byte_size, total_bytes};
use vstd::prelude::*;

verus! {

/// The most symbols of one revision that a comparison parses.
pub const MAX_DIFF_SYMBOL_PARSED_SYMBOLS_PER_ENDPOINT: usize = 1024;

/// The most bytes of a file that a comparison can take.
pub const MAX_COMPARED_BYTES: usize = 1_073_741_824;

/// A symbol that a revision holds once.
#[derive(Debug)]
pub struct ResolvedHistoricalSymbol {
    pub symbol: HistoricalSymbol,
    pub signature: Option<String>,
    pub content: String,
}

/// What a [`ResolvedHistoricalSymbol`] says.
pub struct ResolvedView {
    pub symbol: HistoricalView,
    pub signature: Option<Seq<char>>,
    pub content: Seq<char>,
}

impl View for ResolvedHistoricalSymbol {
    type V = ResolvedView;

    open spec fn view(&self) -> ResolvedView {
        ResolvedView {
            symbol: self.symbol@,
            signature: optional_text(self.signature),
            content: self.content@,
        }
    }
}

/// A file of a revision: its text and what a parser found in it.
#[derive(Debug)]
pub struct HistoricalBlob {
    pub path: String,
    pub content: String,
    pub parsed: Result<Vec<ParserSymbol>, Error>,
}

/// What was read of a revision, and the paths that were not.
#[derive(Debug)]
pub struct HistoricalBlobs {
    pub revision: String,
    pub blobs: Vec<HistoricalBlob>,
    pub skipped: GitBlobBatch,
}

/// A parsed file of a revision.
#[derive(Debug)]
pub struct ParsedHistoricalFile {
    pub path: String,
    pub content: String,
    pub symbols: Vec<ParserSymbol>,
}

/// What a [`ParsedHistoricalFile`] holds.
pub struct FileView {
    pub content: Seq<char>,
    pub symbols: Seq<ParserSymbol>,
}

/// A path whose symbols cannot be told, and why.
#[derive(Debug)]
pub struct UnavailablePath {
    pub path: String,
    pub reason: String,
}

/// The parsed files of a revision. Of two entries for one path the later counts.
#[derive(Debug)]
pub struct ParsedHistoricalBatch {
    pub revision: String,
    pub files: Vec<ParsedHistoricalFile>,
    pub unavailable: Vec<UnavailablePath>,
    pub blob_bytes: usize,
    pub parsed_symbols: usize,
}

/// The reasons of a list, by path.
pub open spec fn reasons(list: Seq<UnavailablePath>) -> Map<Seq<char>, Seq<char>>
    decreases list.len(),
{
    if list.len() == 0 {
        Map::empty()
    } else {
        reasons(list.drop_last()).insert(list.last().path@, list.last().reason@)
    }
}

/// The files of a list, by path.
pub open spec fn file_map(list: Seq<ParsedHistoricalFile>) -> Map<Seq<char>, FileView>
    decreases list.len(),
{
    if list.len() == 0 {
        Map::empty()
    } else {
        file_map(list.drop_last()).insert(
            list.last().path@,
            FileView { content: list.last().content@, symbols: list.last().symbols@ },
        )
    }
}

/// The value of a key, where there is one.
pub open spec fn looked_up<K, V>(map: Map<K, V>, key: K) -> Option<V> {
    if map.contains_key(key) {
        Some(map[key])
    } else {
        None
    }
}

/// What a [`ParsedHistoricalBatch`] says.
pub struct BatchView {
    pub revision: Seq<char>,
    pub files: Map<Seq<char>, FileView>,
    pub unavailable: Map<Seq<char>, Seq<char>>,
    pub blob_bytes: usize,
    pub parsed_symbols: usize,
}

impl View for ParsedHistoricalBatch {
    type V = BatchView;

    open spec fn view(&self) -> BatchView {
        BatchView {
            revision: self.revision@,
            files: file_map(self.files@),
            unavailable: reasons(self.unavailable@),
            blob_bytes: self.blob_bytes,
            parsed_symbols: self.parsed_symbols,
        }
    }
}

/// The reasons after a reason was given to the first `upto` paths that had none.
pub open spec fn with_reason(
    known: Map<Seq<char>, Seq<char>>,
    paths: Seq<Seq<char>>,
    reason: Seq<char>,
    upto: int,
) -> Map<Seq<char>, Seq<char>>
    decreases upto,
{
    if upto <= 0 || upto > paths.len() {
        known
    } else {
        let before = with_reason(known, paths, reason, upto - 1);
        if before.contains_key(paths[upto - 1]) {
            before
        } else {
            before.insert(paths[upto - 1], reason)
        }
    }
}

/// The reason of a path, where there is one.
pub fn reason_for(list: &Vec<UnavailablePath>, path: &str) -> (r: Option<String>)
    ensures
        optional_text(r) == looked_up(reasons(list@), path@),
{
    let mut i: usize = list.len();
    assert(list@.take(list@.len() as int) =~= list@);
    while i > 0
        invariant
            i <= list.len(),
            looked_up(reasons(list@), path@) == looked_up(reasons(list@.take(i as int)), path@),
        decreases i,
    {
        i -= 1;
        let ghost part = list@.take(i + 1);
        assert(part.drop_last() =~= list@.take(i as int));
        if same_text(list[i].path.as_str(), path) {
            return Some(list[i].reason.clone());
        }
    }
    None
}

/// The file of a path, where there is one.
pub fn file_for<'a>(list: &'a Vec<ParsedHistoricalFile>, path: &str) -> (r: Option<
    &'a ParsedHistoricalFile,
>)
    ensures
        match r {
            Some(file) => looked_up(file_map(list@), path@) == Some(
                FileView { content: file.content@, symbols: file.symbols@ },
            ),
            None => looked_up(file_map(list@), path@) is None,
        },
{
    let mut i: usize = list.len();
    assert(list@.take(list@.len() as int) =~= list@);
    while i > 0
        invariant
            i <= list.len(),
            looked_up(file_map(list@), path@) == looked_up(file_map(list@.take(i as int)), path@),
        decreases i,
    {
        i -= 1;
        let ghost part = list@.take(i + 1);
        assert(part.drop_last() =~= list@.take(i as int));
        if same_text(list[i].path.as_str(), path) {
            return Some(&list[i]);
        }
    }
    None
}

fn push_reason(list: &mut Vec<UnavailablePath>, path: String, reason: String)
    ensures
        reasons(final(list)@) == reasons(old(list)@).insert(path@, reason@),
{
    let ghost before = list@;
    list.push(UnavailablePath { path, reason });
    assert(list@.drop_last() =~= before);
}

/// Gives a reason to every path that has none.
pub fn append_batch_unavailable(
    unavailable: &mut Vec<UnavailablePath>,
    paths: &Vec<String>,
    reason: &str,
)
    ensures
        reasons(final(unavailable)@) == with_reason(
            reasons(old(unavailable)@),
            texts(paths@),
            reason@,
            paths@.len() as int,
        ),
{
    let ghost start = reasons(unavailable@);
    let mut i: usize = 0;
    while i < paths.len()
        invariant
            i <= paths.len(),
            reasons(unavailable@) == with_reason(start, texts(paths@), reason@, i as int),
        decreases paths.len() - i,
    {
        assert(texts(paths@)[i as int] == paths@[i as int]@);
        match reason_for(&*unavailable, paths[i].as_str()) {
            Some(_) => {},
            None => {
                push_reason(unavailable, paths[i].clone(), copy_text(reason));
            },
        }
        i += 1;
    }
}

/// The reasons of the paths of a revision that were not read.
pub open spec fn skipped_reasons(side: Seq<char>, skipped: GitBlobBatch) -> Map<
    Seq<char>,
    Seq<char>,
> {
    let large = with_reason(
        Map::empty(),
        texts(skipped.oversized_paths@),
        side + "_file_exceeds_byte_limit"@,
        skipped.oversized_paths@.len() as int,
    );
    let many = with_reason(
        large,
        texts(skipped.total_limit_paths@),
        side + "_total_blob_bytes_limit"@,
        skipped.total_limit_paths@.len() as int,
    );
    let foreign = with_reason(
        many,
        texts(skipped.invalid_utf8_paths@),
        side + "_file_not_utf8"@,
        skipped.invalid_utf8_paths@.len() as int,
    );
    with_reason(
        foreign,
        texts(skipped.unsupported_paths@),
        side + "_git_entry_unsupported"@,
        skipped.unsupported_paths@.len() as int,
    )
}

fn skip_reasons(side: &str, skipped: &GitBlobBatch) -> (r: Vec<UnavailablePath>)
    ensures
        reasons(r@) == skipped_reasons(side@, *skipped),
{
    let mut out: Vec<UnavailablePath> = Vec::new();
    append_batch_unavailable(
        &mut out,
        &skipped.oversized_paths,
        appended(copy_text(side), "_file_exceeds_byte_limit").as_str(),
    );
    append_batch_unavailable(
        &mut out,
        &skipped.total_limit_paths,
        appended(copy_text(side), "_total_blob_bytes_limit").as_str(),
    );
    append_batch_unavailable(
        &mut out,
        &skipped.invalid_utf8_paths,
        appended(copy_text(side), "_file_not_utf8").as_str(),
    );
    append_batch_unavailable(
        &mut out,
        &skipped.unsupported_paths,
        appended(copy_text(side), "_git_entry_unsupported").as_str(),
    );
    out
}

/// The files and reasons found while a revision is parsed.
pub struct ScanView {
    pub files: Map<Seq<char>, FileView>,
    pub unavailable: Map<Seq<char>, Seq<char>>,
    pub parsed_symbols: usize,
}

/// What a file adds: its symbols, unless it could not be parsed or the symbols
/// of the revision become too many.
pub open spec fn scan_blob(state: ScanView, blob: HistoricalBlob, side: Seq<char>) -> Result<
    ScanView,
    Fault,
> {
    match blob.parsed {
        Err(Error::Cancelled) => Err(Fault::Cancelled),
        Err(_) => Ok(
            ScanView {
                unavailable: state.unavailable.insert(blob.path@, side + "_parse_failed"@),
                ..state
            },
        ),
        Ok(symbols) => if state.parsed_symbols + symbols@.len()
            > MAX_DIFF_SYMBOL_PARSED_SYMBOLS_PER_ENDPOINT {
            Ok(
                ScanView {
                    unavailable: state.unavailable.insert(
                        blob.path@,
                        side + "_parsed_symbol_limit"@,
                    ),
                    ..state
                },
            )
        } else {
            Ok(
                ScanView {
                    files: state.files.insert(
                        blob.path@,
                        FileView { content: blob.content@, symbols: symbols@ },
                    ),
                    unavailable: state.unavailable,
                    parsed_symbols: (state.parsed_symbols + symbols@.len()) as usize,
                },
            )
        },
    }
}

/// What the first `upto` files add.
pub open spec fn scan_blobs(
    start: ScanView,
    blobs: Seq<HistoricalBlob>,
    side: Seq<char>,
    upto: int,
) -> Result<ScanView, Fault>
    decreases upto,
{
    if upto <= 0 || upto > blobs.len() {
        Ok(start)
    } else {
        match scan_blobs(start, blobs, side, upto - 1) {
            Err(fault) => Err(fault),
            Ok(state) => scan_blob(state, blobs[upto - 1], side),
        }
    }
}

/// The texts of files.
pub open spec fn blob_texts(blobs: Seq<HistoricalBlob>) -> Seq<Seq<char>> {
    Seq::new(blobs.len(), |i: int| blobs[i].content@)
}

/// What parsing a revision gives.
pub open spec fn parsed_batch(batch: HistoricalBlobs, side: Seq<char>) -> Result<BatchView, Fault> {
    let start = ScanView {
        files: Map::empty(),
        unavailable: skipped_reasons(side, batch.skipped),
        parsed_symbols: 0,
    };
    match scan_blobs(start, batch.blobs@, side, batch.blobs@.len() as int) {
        Err(fault) => Err(fault),
        Ok(state) => Ok(
            BatchView {
                revision: batch.revision@,
                files: state.files,
                unavailable: state.unavailable,
                blob_bytes: total_bytes(0, blob_texts(batch.blobs@), batch.blobs@.len() as int),
                parsed_symbols: state.parsed_symbols,
            },
        ),
    }
}

proof fn a_stopped_scan_stays(
    start: ScanView,
    blobs: Seq<HistoricalBlob>,
    side: Seq<char>,
    from: int,
    upto: int,
)
    requires
        0 <= from <= upto <= blobs.len(),
        scan_blobs(start, blobs, side, from) is Err,
    ensures
        scan_blobs(start, blobs, side, upto) == scan_blobs(start, blobs, side, from),
    decreases upto,
{
    if upto > from {
        a_stopped_scan_stays(start, blobs, side, from, upto - 1);
    }
}

fn sum_blob_bytes(blobs: &Vec<HistoricalBlob>) -> (r: usize)
    ensures
        r == total_bytes(0, blob_texts(blobs@), blobs@.len() as int),
{
    let mut total: usize = 0;
    let mut i: usize = 0;
    while i < blobs.len()
        invariant
            i <= blobs.len(),
            total == total_bytes(0, blob_texts(blobs@), i as int),
        decreases blobs.len() - i,
    {
        total = total.saturating_add(byte_size(blobs[i].content.as_str()));
        i += 1;
    }
    total
}

fn take_blob(
    files: &mut Vec<ParsedHistoricalFile>,
    unavailable: &mut Vec<UnavailablePath>,
    parsed_symbols: usize,
    blob: HistoricalBlob,
    side: &str,
) -> (r: Result<usize, Error>)
    ensures
        match r {
            Ok(count) => scan_blob(
                ScanView {
                    files: file_map(old(files)@),
                    unavailable: reasons(old(unavailable)@),
                    parsed_symbols,
                },
                blob,
                side@,
            ) == Ok::<ScanView, Fault>(
                ScanView {
                    files: file_map(final(files)@),
                    unavailable: reasons(final(unavailable)@),
                    parsed_symbols: count,
                },
            ),
            Err(e) => scan_blob(
                ScanView {
                    files: file_map(old(files)@),
                    unavailable: reasons(old(unavailable)@),
                    parsed_symbols,
                },
                blob,
                side@,
            ) == Err::<ScanView, Fault>(e@),
        },
{
    match blob.parsed {
        Err(Error::Cancelled) => Err(Error::Cancelled),
        Err(_) => {
            push_reason(unavailable, blob.path, appended(copy_text(side), "_parse_failed"));
            Ok(parsed_symbols)
        },
        Ok(symbols) => {
            let count: usize = parsed_symbols.saturating_add(symbols.len());
            if count > MAX_DIFF_SYMBOL_PARSED_SYMBOLS_PER_ENDPOINT {
                push_reason(
                    unavailable,
                    blob.path,
                    appended(copy_text(side), "_parsed_symbol_limit"),
                );
                return Ok(parsed_symbols);
            }
            let ghost before = files@;
            files.push(ParsedHistoricalFile { path: blob.path, content: blob.content, symbols });
            assert(files@.drop_last() =~= before);
            Ok(count)
        },
    }
}

/// Parses what was read of a revision. A path whose symbols cannot be told gets
/// a reason that names the side of the comparison.
pub fn parse_historical_batch(batch: HistoricalBlobs, side: &str) -> (r: Result<
    ParsedHistoricalBatch,
    Error,
>)
    ensures
        match r {
            Ok(parsed) => parsed_batch(batch, side@) == Ok::<BatchView, Fault>(parsed@),
            Err(e) => parsed_batch(batch, side@) == Err::<BatchView, Fault>(e@),
        },
{
    let mut unavailable = skip_reasons(side, &batch.skipped);
    let ghost start = ScanView {
        files: Map::empty(),
        unavailable: skipped_reasons(side@, batch.skipped),
        parsed_symbols: 0,
    };
    let blob_bytes: usize = sum_blob_bytes(&batch.blobs);
    let mut files: Vec<ParsedHistoricalFile> = Vec::new();
    let mut parsed_symbols: usize = 0;
    let ghost all = batch.blobs@;
    let mut rest = batch.blobs;
    let mut i: usize = 0;
    let total: usize = rest.len();
    assert(rest@ =~= all.subrange(0, all.len() as int));
    while i < total
        invariant
            i <= total,
            total == all.len(),
            all == batch.blobs@,
            start == (ScanView {
                files: Map::empty(),
                unavailable: skipped_reasons(side@, batch.skipped),
                parsed_symbols: 0,
            }),
            rest@ == all.subrange(i as int, all.len() as int),
            scan_blobs(start, all, side@, i as int) == Ok::<ScanView, Fault>(
                ScanView {
                    files: file_map(files@),
                    unavailable: reasons(unavailable@),
                    parsed_symbols,
                },
            ),
        decreases total - i,
    {
        let blob = rest.remove(0);
        assert(rest@ =~= all.subrange(i + 1, all.len() as int));
        match take_blob(&mut files, &mut unavailable, parsed_symbols, blob, side) {
            Ok(count) => {
                parsed_symbols = count;
            },
            Err(e) => {
                proof {
                    a_stopped_scan_stays(start, all, side@, i + 1, all.len() as int);
                }
                return Err(e);
            },
        }
        i += 1;
    }
    Ok(
        ParsedHistoricalBatch {
            revision: batch.revision,
            files,
            unavailable,
            blob_bytes,
            parsed_symbols,
        },
    )
}

/// The symbols among the first `upto` that a name stands for.
pub open spec fn named_at(flags: Seq<bool>, upto: int) -> Seq<int>
    decreases upto,
{
    if upto <= 0 {
        Seq::empty()
    } else if flag_at(flags, upto - 1) {
        named_at(flags, upto - 1).push(upto - 1)
    } else {
        named_at(flags, upto - 1)
    }
}

/// A symbol of a revision, by what a parser found.
pub open spec fn historical_view(
    revision: Seq<char>,
    path: Seq<char>,
    symbol: ParserSymbol,
    content: Seq<char>,
) -> ResolvedView {
    ResolvedView {
        symbol: HistoricalView {
            revision,
            path,
            name: symbol.name@,
            kind: symbol.kind@,
            parent: optional_text(symbol.parent),
            target_start_line: symbol.start_line,
            target_end_line: symbol.end_line,
            returned_end_line: symbol.end_line,
            truncated: false,
            content: None,
            content_hash: text_fingerprint(content),
        },
        signature: optional_text(symbol.signature),
        content,
    }
}

/// What a file of a revision holds of a symbol. `flags` tells which of its
/// symbols the name stands for; more than one is an error.
pub open spec fn symbol_outcome(
    revision: Seq<char>,
    path: Seq<char>,
    name: Seq<char>,
    file: FileView,
    flags: Seq<bool>,
) -> Result<Option<ResolvedView>, Fault> {
    let named = named_at(flags, file.symbols.len() as int);
    if named.len() == 0 {
        Ok(None)
    } else if named.len() > 1 {
        Err(Fault::AmbiguousSymbol { path: path + "@"@ + revision, symbol: name })
    } else {
        let symbol = file.symbols[named[0]];
        match byte_slice(file.content, symbol.start_byte as nat, symbol.end_byte as nat) {
            Some(content) => Ok(Some(historical_view(revision, path, symbol, content))),
            None => Err(Fault::OperationFailure("invalid historical symbol range"@)),
        }
    }
}

/// A result, as what it says.
pub open spec fn resolved_result(r: Result<Option<ResolvedHistoricalSymbol>, Error>) -> Result<
    Option<ResolvedView>,
    Fault,
> {
    match r {
        Ok(Some(resolved)) => Ok(Some(resolved@)),
        Ok(None) => Ok(None),
        Err(e) => Err(e@),
    }
}

/// Whether the text of a symbol is small enough to be compared.
pub open spec fn small_end(end: Option<ResolvedView>) -> bool {
    end matches Some(resolved) ==> byte_len(resolved.content) <= MAX_COMPARED_BYTES
}

/// Whether all files are small enough to be compared.
pub open spec fn small_files(files: Map<Seq<char>, FileView>) -> bool {
    forall|path: Seq<char>| #[trigger]
        files.contains_key(path) ==> byte_len(files[path].content) <= MAX_COMPARED_BYTES
}

/// Whether all that was read of a revision is small enough to be compared.
pub open spec fn small_blobs(batch: HistoricalBlobs) -> bool {
    forall|i: int|
        0 <= i < batch.blobs@.len() ==> byte_len((#[trigger] batch.blobs@[i]).content@)
            <= MAX_COMPARED_BYTES
}

/// A symbol of a small file is small.
pub(crate) proof fn a_symbol_is_small(
    revision: Seq<char>,
    path: Seq<char>,
    name: Seq<char>,
    file: FileView,
    flags: Seq<bool>,
)
    requires
        byte_len(file.content) <= MAX_COMPARED_BYTES,
    ensures
        symbol_outcome(revision, path, name, file, flags) matches Ok(end) ==> small_end(end),
{
    let named = named_at(flags, file.symbols.len() as int);
    if named.len() == 1 {
        let symbol = file.symbols[named[0]];
        byte_slice_bytes(file.content, symbol.start_byte as nat, symbol.end_byte as nat);
    }
}

proof fn scanned_files_are_small(
    start: ScanView,
    blobs: Seq<HistoricalBlob>,
    side: Seq<char>,
    upto: int,
)
    requires
        small_files(start.files),
        forall|i: int|
            0 <= i < blobs.len() ==> byte_len((#[trigger] blobs[i]).content@)
                <= MAX_COMPARED_BYTES,
        0 <= upto <= blobs.len(),
    ensures
        scan_blobs(start, blobs, side, upto) matches Ok(state) ==> small_files(state.files),
    decreases upto,
{
    if upto > 0 {
        scanned_files_are_small(start, blobs, side, upto - 1);
    }
}

/// The files of a parsed revision are small where all that was read of it is.
pub(crate) proof fn a_parsed_batch_is_small(batch: HistoricalBlobs, side: Seq<char>)
    requires
        small_blobs(batch),
    ensures
        parsed_batch(batch, side) matches Ok(parsed) ==> small_files(parsed.files),
{
    let start = ScanView {
        files: Map::empty(),
        unavailable: skipped_reasons(side, batch.skipped),
        parsed_symbols: 0,
    };
    scanned_files_are_small(start, batch.blobs@, side, batch.blobs@.len() as int);
}

fn at_revision(path: &str, revision: &str) -> (r: String)
    ensures
        r@ == path@ + "@"@ + revision@,
{
    appended(appended(copy_text(path), "@"), revision)
}

fn find_named(flags: &Vec<bool>, upto: usize) -> (r: (usize, usize))
    ensures
        r.0 == named_at(flags@, upto as int).len(),
        r.0 > 0 ==> r.1 == named_at(flags@, upto as int)[0] && r.1 < upto,
{
    let mut count: usize = 0;
    let mut first: usize = 0;
    let mut i: usize = 0;
    while i < upto
        invariant
            i <= upto,
            count <= i,
            count == named_at(flags@, i as int).len(),
            count > 0 ==> first == named_at(flags@, i as int)[0] && first < i,
        decreases upto - i,
    {
        if i < flags.len() && flags[i] {
            if count == 0 {
                first = i;
            }
            count += 1;
        }
        i += 1;
    }
    (count, first)
}

fn resolve_symbol(
    revision: &str,
    path: &str,
    symbol_name: &str,
    content: &str,
    symbols: &Vec<ParserSymbol>,
    matches: &Vec<bool>,
) -> (r: Result<Option<ResolvedHistoricalSymbol>, Error>)
    ensures
        resolved_result(r) == symbol_outcome(
            revision@,
            path@,
            symbol_name@,
            FileView { content: content@, symbols: symbols@ },
            matches@,
        ),
{
    let (count, at) = find_named(matches, symbols.len());
    if count == 0 {
        return Ok(None);
    }
    if count > 1 {
        return Err(
            Error::AmbiguousSymbol {
                path: at_revision(path, revision),
                symbol: copy_text(symbol_name),
            },
        );
    }
    let symbol = &symbols[at];
    match slice_bytes(content, symbol.start_byte, symbol.end_byte) {
        None => Err(Error::OperationFailure(copy_text("invalid historical symbol range"))),
        Some(part) => {
            let content_hash = fingerprint_text(part.as_str());
            Ok(
                Some(
                    ResolvedHistoricalSymbol {
                        symbol: HistoricalSymbol {
                            revision: copy_text(revision),
                            path: copy_text(path),
                            name: symbol.name.clone(),
                            kind: symbol.kind.clone(),
                            parent: copy_optional_text(&symbol.parent),
                            target_start_line: symbol.start_line,
                            target_end_line: symbol.end_line,
                            returned_end_line: symbol.end_line,
                            truncated: false,
                            content: None,
                            content_hash,
                        },
                        signature: copy_optional_text(&symbol.signature),
                        content: part,
                    },
                ),
            )
        },
    }
}

/// What a parsed revision holds of a symbol.
pub open spec fn batch_outcome(
    batch: BatchView,
    path: Seq<char>,
    name: Seq<char>,
    flags: Seq<bool>,
) -> Result<Option<ResolvedView>, Fault> {
    match looked_up(batch.files, path) {
        None => Ok(None),
        Some(file) => symbol_outcome(batch.revision, path, name, file, flags),
    }
}

/// What a parsed revision holds of a symbol. `matches` tells which symbols of
/// the file the name stands for.
pub fn resolve_parsed_historical_symbol(
    batch: &ParsedHistoricalBatch,
    path: &str,
    symbol_name: &str,
    matches: &Vec<bool>,
) -> (r: Result<Option<ResolvedHistoricalSymbol>, Error>)
    ensures
        resolved_result(r) == batch_outcome(batch@, path@, symbol_name@, matches@),
{
    match file_for(&batch.files, path) {
        None => Ok(None),
        Some(file) => resolve_symbol(
            batch.revision.as_str(),
            path,
            symbol_name,
            file.content.as_str(),
            &file.symbols,
            matches,
        ),
    }
}

/// A symbol without its text.
pub open spec fn without_text(symbol: HistoricalView) -> HistoricalView {
    HistoricalView { content: None, returned_end_line: 0, ..symbol }
}

/// What is told of a symbol whose text is not returned.
pub fn historical_metadata(resolved: ResolvedHistoricalSymbol) -> (r: HistoricalSymbol)
    ensures
        r@ == without_text(resolved@.symbol),
{
    let mut symbol = resolved.symbol;
    symbol.content = None;
    symbol.returned_end_line = 0;
    symbol
}

/// What a commit says of itself, as the repository gives it.
#[derive(Debug)]
pub struct GitCommitMetadata {
    pub revision: String,
    pub authored_at: String,
    pub subject: String,
}

/// What a response tells of a commit.
pub fn history_revision_metadata(metadata: GitCommitMetadata) -> (r: HistoryRevisionMetadata)
    ensures
        r@ == (RevisionView {
            revision: metadata.revision@,
            authored_at: metadata.authored_at@,
            subject: metadata.subject@,
        }),
{
    HistoryRevisionMetadata {
        revision: metadata.revision,
        authored_at: metadata.authored_at,
        subject: metadata.subject,
    }
}

/// A file as a revision holds it, what a parser found in it, and which of its
/// symbols the name asked for stands for.
#[derive(Debug)]
pub struct GitBlob {
    pub revision: String,
    pub content: String,
    pub parsed: Result<Vec<ParserSymbol>, Error>,
    pub matches: Vec<bool>,
}

/// What a file as a revision holds it says of a symbol.
pub open spec fn blob_outcome(path: Seq<char>, name: Seq<char>, blob: GitBlob) -> Result<
    Option<ResolvedView>,
    Fault,
> {
    match blob.parsed {
        Err(e) => Err(e@),
        Ok(symbols) => symbol_outcome(
            blob.revision@,
            path,
            name,
            FileView { content: blob.content@, symbols: symbols@ },
            blob.matches@,
        ),
    }
}

/// Whether an error says that a file is not in a revision.
pub open spec fn says_no_file(fault: Fault) -> bool {
    fault == (Fault::InvalidInput {
        field: "path"@,
        reason: "file does not exist at revision"@,
    })
}

/// What reading a file says of a symbol that has to be there.
pub open spec fn required_outcome(
    path: Seq<char>,
    name: Seq<char>,
    blob: Result<GitBlob, Error>,
) -> Result<ResolvedView, Fault> {
    match blob {
        Err(e) => Err(e@),
        Ok(blob) => match blob_outcome(path, name, blob) {
            Err(fault) => Err(fault),
            Ok(Some(resolved)) => Ok(resolved),
            Ok(None) => Err(
                Fault::SymbolNotFound { path: path + "@"@ + blob.revision@, symbol: name },
            ),
        },
    }
}

/// What reading a file says of a symbol that may be missing, with its file.
pub open spec fn optional_outcome(
    path: Seq<char>,
    name: Seq<char>,
    blob: Result<GitBlob, Error>,
) -> Result<Option<ResolvedView>, Fault> {
    match blob {
        Err(e) => if says_no_file(e@) {
            Ok(None)
        } else {
            Err(e@)
        },
        Ok(blob) => blob_outcome(path, name, blob),
    }
}

/// A result, as what it says.
pub open spec fn required_result(r: Result<ResolvedHistoricalSymbol, Error>) -> Result<
    ResolvedView,
    Fault,
> {
    match r {
        Ok(resolved) => Ok(resolved@),
        Err(e) => Err(e@),
    }
}

fn tells_no_file(error: &Error) -> (r: bool)
    ensures
        r == says_no_file(error@),
{
    match error {
        Error::InvalidInput { field, reason } => same_text(field, "path") && same_text(
            reason,
            "file does not exist at revision",
        ),
        _ => false,
    }
}

impl Services {
    /// What a revision holds of a symbol that has to be there.
    pub fn historical_symbol(path: &str, symbol_name: &str, blob: Result<GitBlob, Error>) -> (r:
        Result<ResolvedHistoricalSymbol, Error>)
        ensures
            required_result(r) == required_outcome(path@, symbol_name@, blob),
    {
        let blob = match blob {
            Ok(blob) => blob,
            Err(e) => {
                return Err(e);
            },
        };
        let resolved_revision = blob.revision.clone();
        match Services::resolve_historical_symbol(path, symbol_name, blob) {
            Ok(Some(resolved)) => Ok(resolved),
            Ok(None) => Err(
                Error::SymbolNotFound {
                    path: at_revision(path, resolved_revision.as_str()),
                    symbol: copy_text(symbol_name),
                },
            ),
            Err(e) => Err(e),
        }
    }

    /// What a revision holds of a symbol that may be missing, with its file.
    pub fn historical_symbol_optional(
        path: &str,
        symbol_name: &str,
        blob: Result<GitBlob, Error>,
    ) -> (r: Result<Option<ResolvedHistoricalSymbol>, Error>)
        ensures
            resolved_result(r) == optional_outcome(path@, symbol_name@, blob),
    {
        match blob {
            Ok(blob) => Services::resolve_historical_symbol(path, symbol_name, blob),
            Err(e) => if tells_no_file(&e) {
                Ok(None)
            } else {
                Err(e)
            },
        }
    }

    /// What a file as a revision holds it says of a symbol.
    pub fn resolve_historical_symbol(path: &str, symbol_name: &str, blob: GitBlob) -> (r: Result<
        Option<ResolvedHistoricalSymbol>,
        Error,
    >)
        ensures
            resolved_result(r) == blob_outcome(path@, symbol_name@, blob),
    {
        match blob.parsed {
            Err(e) => Err(e),
            Ok(symbols) => resolve_symbol(
                blob.revision.as_str(),
                path,
                symbol_name,
                blob.content.as_str(),
                &symbols,
                &blob.matches,
            ),
        }
    }
}

} // verus!
