//! JSON files, and the tokens of JSON values.

use crate::change_receipt::{fingerprint_text, text_fingerprint};
use crate::error::{Error, Fault};
use crate::fitting::{count_tokens, counted_as, counts_all};
use crate::json::projection::total;
use crate::json::value::JsonValue;
use crate::json::view::{json_text, write_json, JsonView};
use crate::services::Services;
use crate::text::{
    byte_len, char_count, only, pieces, pieces_exist, split_on, texts, utf8_text,
};
use crate::validation::byte_size;
use vstd::prelude::*;
use vstd::utf8::{decode_utf8, valid_utf8};

verus! {

/// Where a value came from.
#[derive(Debug)]
pub struct JsonSource {
    pub path: String,
    pub content_hash: String,
    pub bytes: usize,
}

/// What a [`JsonSource`] says.
pub struct SourceView {
    pub path: Seq<char>,
    pub content_hash: Seq<char>,
    pub bytes: usize,
}

impl View for JsonSource {
    type V = SourceView;

    open spec fn view(&self) -> SourceView {
        SourceView { path: self.path@, content_hash: self.content_hash@, bytes: self.bytes }
    }
}

impl JsonSource {
    /// A copy.
    pub fn duplicate(&self) -> (r: JsonSource)
        ensures
            r@ == self@,
    {
        JsonSource {
            path: self.path.clone(),
            content_hash: self.content_hash.clone(),
            bytes: self.bytes,
        }
    }
}

/// A value that was read from a file.
#[derive(Debug)]
pub struct LoadedJson {
    pub source: JsonSource,
    pub value: JsonValue,
    pub source_tokens: usize,
}

/// What a [`LoadedJson`] says.
pub struct LoadedView {
    pub source: SourceView,
    pub value: JsonView,
    pub source_tokens: usize,
}

impl View for LoadedJson {
    type V = LoadedView;

    open spec fn view(&self) -> LoadedView {
        LoadedView {
            source: self.source@,
            value: self.value@,
            source_tokens: self.source_tokens,
        }
    }
}

impl LoadedJson {
    /// The value.
    pub fn value(&self) -> (r: &JsonValue)
        ensures
            r@ == self@.value,
    {
        &self.value
    }

    /// Where the value came from.
    pub fn source(&self) -> (r: &JsonSource)
        ensures
            r@ == self@.source,
    {
        &self.source
    }

    /// Where the value came from.
    pub fn into_source(self) -> (r: JsonSource)
        ensures
            r@ == self@.source,
    {
        self.source
    }

    /// The tokens of the file.
    pub fn source_tokens(&self) -> (r: usize)
        ensures
            r == self@.source_tokens,
    {
        self.source_tokens
    }
}

/// A file as it was opened and read.
#[derive(Debug)]
pub struct JsonFile {
    pub metadata_bytes: usize,
    pub bytes: Vec<u8>,
}

/// Why a text is not JSON.
#[derive(Debug)]
pub struct JsonSyntaxError {
    pub category: &'static str,
    pub line: usize,
    pub column: usize,
    pub reason: String,
}

/// Where a line starts, by the lines before it.
pub open spec fn line_start(parts: Seq<Seq<char>>, line: int) -> usize
    decreases line,
{
    if line <= 0 || line > parts.len() {
        0
    } else {
        let before = line_start(parts, line - 1);
        let size = byte_len(parts[line - 1]) + 1;
        if before + size > usize::MAX {
            usize::MAX
        } else {
            (before + size) as usize
        }
    }
}

/// The lines of a text, counting an empty one at its end as none.
pub open spec fn line_count(parts: Seq<Seq<char>>) -> int {
    if parts.last().len() == 0 {
        parts.len() - 1
    } else {
        parts.len() as int
    }
}

/// The bytes of a line with the line feed at its end.
pub open spec fn line_bytes(parts: Seq<Seq<char>>, line: int) -> nat {
    byte_len(parts[line]) + if line < parts.len() - 1 {
        1nat
    } else {
        0
    }
}

/// The byte offset of a line and column, both counted from one.
pub open spec fn error_offset(content: Seq<char>, line: usize, column: usize) -> nat {
    let parts = pieces(content, only('\n'));
    if line == 0 {
        0
    } else if line <= line_count(parts) {
        let within = if column == 0 {
            0nat
        } else {
            (column - 1) as nat
        };
        let size = line_bytes(parts, line - 1);
        let inside = if within < size {
            within
        } else {
            size
        };
        let offset = line_start(parts, line - 1) + inside;
        if offset < byte_len(content) {
            offset as nat
        } else {
            byte_len(content)
        }
    } else {
        byte_len(content)
    }
}

/// The byte offset of a line and column.
pub fn json_error_byte_offset(content: &str, line: usize, column: usize) -> (r: usize)
    ensures
        r == error_offset(content@, line, column),
{
    if line == 0 {
        return 0;
    }
    let size: usize = byte_size(content);
    let parts = split_on(content, '\n');
    let ghost all = texts(parts@);
    proof {
        pieces_exist(content@, only('\n'));
        assert(all.len() == parts@.len());
        assert(all.last() == parts@[parts@.len() - 1]@);
    }
    let last: usize = parts.len() - 1;
    let count: usize = if char_count(parts[last].as_str()) == 0 {
        last
    } else {
        last + 1
    };
    if line > count {
        return size;
    }
    let mut start: usize = 0;
    let mut i: usize = 0;
    while i < line - 1
        invariant
            i <= line - 1,
            line <= parts.len(),
            all == texts(parts@),
            all.len() == parts@.len(),
            start == line_start(all, i as int),
        decreases line - 1 - i,
    {
        assert(all[i as int] == parts@[i as int]@);
        start = start.saturating_add(byte_size(parts[i].as_str())).saturating_add(1);
        i += 1;
    }
    assert(all[line - 1] == parts@[line - 1]@);
    let own: usize = byte_size(parts[line - 1].as_str());
    let within: usize = column.saturating_sub(1);
    let inside: usize = if line - 1 < last {
        if within <= own {
            within
        } else {
            own.saturating_add(1)
        }
    } else if within < own {
        within
    } else {
        own
    };
    let offset: usize = start.saturating_add(inside);
    if offset < size {
        offset
    } else {
        size
    }
}

/// Whether a parser may say this of a text.
pub open spec fn parse_said<P: Fn(&str) -> Result<JsonValue, JsonSyntaxError>>(
    parse: P,
    content: Seq<char>,
    said: Result<JsonValue, JsonSyntaxError>,
) -> bool {
    exists|text: &str| (#[trigger] call_ensures(parse, (text,), said)) && text@ == content
}

/// The fault of a file that is too large.
pub open spec fn file_too_large(requested: nat, limit: usize) -> Option<Fault> {
    if requested > limit {
        Some(
            Fault::RequestLimitExceeded {
                field: "JSON file bytes"@,
                requested: requested as usize,
                limit,
            },
        )
    } else {
        None
    }
}

/// A result, as what it says.
pub open spec fn loaded_result(r: Result<LoadedJson, Error>) -> Result<LoadedView, Fault> {
    match r {
        Ok(loaded) => Ok(loaded@),
        Err(e) => Err(e@),
    }
}

/// What comes of a text that a parser said something of.
pub open spec fn parsed_outcome(
    path: Seq<char>,
    content: Seq<char>,
    bytes: nat,
    said: Result<JsonValue, JsonSyntaxError>,
    tokens: usize,
) -> Result<LoadedView, Fault> {
    match said {
        Err(error) => Err(
            Fault::InvalidJson {
                syntax_category: error.category@,
                byte_offset: error_offset(content, error.line, error.column) as usize,
                line: error.line,
                column: error.column,
                reason: error.reason@,
            },
        ),
        Ok(value) => Ok(
            LoadedView {
                source: SourceView {
                    path,
                    content_hash: text_fingerprint(content),
                    bytes: bytes as usize,
                },
                value: value@,
                source_tokens: tokens,
            },
        ),
    }
}

/// Whether `outcome` may come of reading a file.
pub open spec fn file_loaded<
    P: Fn(&str) -> Result<JsonValue, JsonSyntaxError>,
    C: Fn(&str) -> usize,
>(
    parse: P,
    count: C,
    path: Seq<char>,
    file: JsonFile,
    max_bytes: usize,
    outcome: Result<LoadedView, Fault>,
) -> bool {
    match crate::error::first_fault(
        file_too_large(file.metadata_bytes as nat, max_bytes),
        file_too_large(file.bytes@.len(), max_bytes),
    ) {
        Some(fault) => outcome == Err::<LoadedView, Fault>(fault),
        None => if !valid_utf8(file.bytes@) {
            outcome == Err::<LoadedView, Fault>(
                Fault::InvalidInput { field: "path"@, reason: "JSON file is not valid UTF-8"@ },
            )
        } else {
            let content = decode_utf8(file.bytes@);
            exists|said: Result<JsonValue, JsonSyntaxError>, tokens: usize|
                {
                    &&& #[trigger] parse_said(parse, content, said)
                    &&& said is Ok ==> counted_as(count, content, tokens)
                    &&& outcome == #[trigger] parsed_outcome(
                        path,
                        content,
                        file.bytes@.len(),
                        said,
                        tokens,
                    )
                }
        },
    }
}

impl Services {
    /// Takes a file as a JSON value: within a size, as UTF-8, and by what a parser
    /// says of it. `path` is how the path is written in full and `file` what was
    /// read, or why not.
    pub fn load_json<
        P: Fn(&str) -> Result<JsonValue, JsonSyntaxError>,
        C: Fn(&str) -> usize,
    >(
        path: Result<String, Error>,
        file: Result<JsonFile, Error>,
        max_bytes: usize,
        parse: &P,
        count: &C,
    ) -> (r: Result<LoadedJson, Error>)
        requires
            forall|text: &str| call_requires(*parse, (text,)),
            counts_all(*count),
        ensures
            match (path, file) {
                (Err(refused), _) => loaded_result(r) == Err::<LoadedView, Fault>(refused@),
                (Ok(_), Err(refused)) => loaded_result(r) == Err::<LoadedView, Fault>(refused@),
                (Ok(path), Ok(file)) => file_loaded(
                    *parse,
                    *count,
                    path@,
                    file,
                    max_bytes,
                    loaded_result(r),
                ),
            },
    {
        let path = match path {
            Ok(path) => path,
            Err(e) => {
                return Err(e);
            },
        };
        let file = match file {
            Ok(file) => file,
            Err(e) => {
                return Err(e);
            },
        };
        if file.metadata_bytes > max_bytes {
            return Err(
                Error::RequestLimitExceeded {
                    field: "JSON file bytes",
                    requested: file.metadata_bytes,
                    limit: max_bytes,
                },
            );
        }
        let size: usize = file.bytes.len();
        if size > max_bytes {
            return Err(
                Error::RequestLimitExceeded {
                    field: "JSON file bytes",
                    requested: size,
                    limit: max_bytes,
                },
            );
        }
        let content = match utf8_text(file.bytes) {
            Some(content) => content,
            None => {
                return Err(
                    Error::InvalidInput { field: "path", reason: "JSON file is not valid UTF-8" },
                );
            },
        };
        let said = parse(content.as_str());
        let ghost told = said;
        assert(parse_said(*parse, content@, told));
        match said {
            Ok(value) => {
                let source_tokens: usize = count_tokens(count, content.as_str());
                let loaded = LoadedJson {
                    source: JsonSource {
                        path,
                        content_hash: fingerprint_text(content.as_str()),
                        bytes: size,
                    },
                    value,
                    source_tokens,
                };
                assert(Ok::<LoadedView, Fault>(loaded@) == parsed_outcome(
                    path@,
                    content@,
                    size as nat,
                    told,
                    source_tokens,
                ));
                Ok(loaded)
            },
            Err(error) => {
                let byte_offset: usize = json_error_byte_offset(
                    content.as_str(),
                    error.line,
                    error.column,
                );
                let e = Error::InvalidJson {
                    syntax_category: error.category,
                    byte_offset,
                    line: error.line,
                    column: error.column,
                    reason: error.reason,
                };
                assert(Err::<LoadedView, Fault>(e@) == parsed_outcome(
                    path@,
                    content@,
                    size as nat,
                    told,
                    0,
                ));
                Err(e)
            },
        }
    }
}

/// Counts the tokens of a value.
pub fn json_tokens<C: Fn(&str) -> usize>(count: &C, value: &JsonValue) -> (r: usize)
    requires
        counts_all(*count),
    ensures
        counted_as(*count, json_text(value@), r),
{
    let serialized = write_json(value);
    count_tokens(count, serialized.as_str())
}

/// How often values were written and counted, and how often that was spared.
#[derive(Debug, Clone, Copy, PartialEq, Eq, Structural)]
pub struct JsonMeasurementCounters {
    pub serializations: usize,
    pub tokenizer_counts: usize,
    pub cache_hits: usize,
}

/// A value that was counted.
#[derive(Debug)]
pub struct JsonMeasurement {
    pub length: usize,
    pub value: JsonValue,
    pub tokens: usize,
}

/// Values that were counted, so that none is counted twice.
#[derive(Debug)]
pub struct JsonMeasurementCache {
    pub measurements: Vec<JsonMeasurement>,
    pub counters: JsonMeasurementCounters,
}

impl JsonMeasurementCache {
    /// Whether everything that is remembered was counted.
    pub open spec fn valid<C: Fn(&str) -> usize>(self, count: C) -> bool {
        forall|i: int|
            0 <= i < self.measurements@.len() ==> counted_as(
                count,
                json_text((#[trigger] self.measurements@[i]).value@),
                self.measurements@[i].tokens,
            )
    }

    /// A cache that remembers nothing.
    pub fn new() -> (r: JsonMeasurementCache)
        ensures
            r.measurements@.len() == 0,
            r.counters == (JsonMeasurementCounters {
                serializations: 0,
                tokenizer_counts: 0,
                cache_hits: 0,
            }),
    {
        JsonMeasurementCache {
            measurements: Vec::new(),
            counters: JsonMeasurementCounters {
                serializations: 0,
                tokenizer_counts: 0,
                cache_hits: 0,
            },
        }
    }

    fn find(&self, length: usize, value: &JsonValue) -> (r: Option<usize>)
        ensures
            match r {
                Some(at) => at < self.measurements@.len() && self.measurements@[at as int].length
                    == length && self.measurements@[at as int].value@ == value@,
                None => forall|i: int|
                    0 <= i < self.measurements@.len() ==> !((
                    #[trigger] self.measurements@[i]).length == length
                        && self.measurements@[i].value@ == value@),
            },
    {
        let mut i: usize = 0;
        while i < self.measurements.len()
            invariant
                i <= self.measurements.len(),
                forall|k: int|
                    0 <= k < i ==> !((#[trigger] self.measurements@[k]).length == length
                        && self.measurements@[k].value@ == value@),
            decreases self.measurements.len() - i,
        {
            let known = &self.measurements[i];
            if known.length == length && known.value.same(value) {
                return Some(i);
            }
            i += 1;
        }
        None
    }

    /// The tokens of a prefix of a list, counted at most once for each length
    /// and value.
    pub fn measure<C: Fn(&str) -> usize>(
        &mut self,
        count: &C,
        length: usize,
        value: &JsonValue,
    ) -> (r: usize)
        requires
            counts_all(*count),
            old(self).valid(*count),
        ensures
            counted_as(*count, json_text(value@), r),
            final(self).valid(*count),
            final(self).counters == if exists|i: int|
                0 <= i < old(self).measurements@.len() && (
                #[trigger] old(self).measurements@[i]).length == length
                    && old(self).measurements@[i].value@ == value@ {
                JsonMeasurementCounters {
                    cache_hits: total(old(self).counters.cache_hits, 1),
                    ..old(self).counters
                }
            } else {
                JsonMeasurementCounters {
                    serializations: total(old(self).counters.serializations, 1),
                    tokenizer_counts: total(old(self).counters.tokenizer_counts, 1),
                    ..old(self).counters
                }
            },
    {
        if let Some(at) = self.find(length, value) {
            self.counters.cache_hits = self.counters.cache_hits.saturating_add(1);
            return self.measurements[at].tokens;
        }
        let serialized = write_json(value);
        self.counters.serializations = self.counters.serializations.saturating_add(1);
        let tokens: usize = count_tokens(count, serialized.as_str());
        self.counters.tokenizer_counts = self.counters.tokenizer_counts.saturating_add(1);
        let ghost before = self.measurements@;
        let entry = JsonMeasurement { length, value: value.duplicate(), tokens };
        let ghost added = entry;
        self.measurements.push(entry);
        assert forall|i: int| 0 <= i < self.measurements@.len() implies counted_as(
            *count,
            json_text((#[trigger] self.measurements@[i]).value@),
            self.measurements@[i].tokens,
        ) by {
            if i < before.len() {
                assert(self.measurements@[i] == before[i]);
            } else {
                assert(self.measurements@[i] == added);
            }
        }
        tokens
    }
}

} // verus!
