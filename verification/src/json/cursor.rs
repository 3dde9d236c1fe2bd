//! Cursors of listed keys.

use crate::change_receipt::{fingerprint_text, text_fingerprint};
use crate::cursor::{
    blake3_digest, bytes_field, carries, cursor_content_is_unique, push_bytes, service_start,
    CursorEnvelope, CursorKind, EnvelopeView, ServiceIdentity, StreamId, StreamIdentityBuilder,
    STREAM_ID_BYTES,
};
use crate::error::{Error, Fault};
use crate::json::options::{JsonExecutionOptions, JsonKeyOrder};
use crate::json::value::JsonValue;
use crate::json::view::{json_text, object_of_three, write_json, JsonView};
use crate::text::{ascii_bytes, byte_len, chars_of, copy_text, decimal, decimal_text};
use vstd::bytes::{
    lemma_auto_spec_u64_to_from_le_bytes, spec_u64_from_le_bytes, spec_u64_to_le_bytes,
    u64_from_le_bytes, u64_to_le_bytes,
};
use vstd::prelude::*;
use vstd::slice::slice_subrange;
use vstd::utf8::encode_utf8;

verus! {

/// The longest text that is read as a cursor of listed keys.
pub const MAX_JSON_CURSOR_BYTES: usize = 256;

/// The length of the hexadecimal fingerprint of a content.
pub const CONTENT_FINGERPRINT_HEX_LEN: usize = 64;

/// The length of what a cursor of listed keys holds: a fingerprint and an offset.
pub const JSON_CURSOR_PAYLOAD_BYTES: usize = 72;

/// Whether a character is a hexadecimal digit.
pub open spec fn is_hex(c: char) -> bool {
    ('0' <= c <= '9') || ('a' <= c <= 'f') || ('A' <= c <= 'F')
}

/// Whether a text reads as a fingerprint.
pub open spec fn fingerprint_like(text: Seq<char>) -> bool {
    text.len() == CONTENT_FINGERPRINT_HEX_LEN && forall|i: int|
        0 <= i < text.len() ==> is_hex(#[trigger] text[i])
}

/// Whether a text reads as a fingerprint.
pub fn is_fingerprint(value: &str) -> (r: bool)
    ensures
        r == fingerprint_like(value@),
{
    let chars = chars_of(value);
    if chars.len() != CONTENT_FINGERPRINT_HEX_LEN {
        return false;
    }
    let mut i: usize = 0;
    while i < chars.len()
        invariant
            i <= chars.len(),
            chars@ == value@,
            forall|k: int| 0 <= k < i ==> is_hex(#[trigger] value@[k]),
        decreases chars.len() - i,
    {
        let c = chars[i];
        if !(('0' <= c && c <= '9') || ('a' <= c && c <= 'f') || ('A' <= c && c <= 'F')) {
            assert(!is_hex(value@[i as int]));
            return false;
        }
        i += 1;
    }
    true
}

/// A cursor of listed keys.
#[derive(Debug)]
pub struct JsonCursor {
    pub envelope: CursorEnvelope,
}

/// The offset that a cursor holds for a source and a stream.
pub open spec fn offset_held(content: EnvelopeView, source_hash: Seq<char>, stream: Seq<u8>) ->
    Option<usize> {
    let payload = content.payload;
    let offset = spec_u64_from_le_bytes(
        payload.subrange(
            CONTENT_FINGERPRINT_HEX_LEN as int,
            JSON_CURSOR_PAYLOAD_BYTES as int,
        ),
    );
    if content.kind == CursorKind::JsonKeys && content.generation == 0 && content.stream == stream
        && payload.len() == JSON_CURSOR_PAYLOAD_BYTES && payload.subrange(
        0,
        CONTENT_FINGERPRINT_HEX_LEN as int,
    ) == encode_utf8(source_hash) && 0 < offset <= usize::MAX {
        Some(offset as usize)
    } else {
        None
    }
}

fn bytes_equal(a: &[u8], b: &[u8]) -> (r: bool)
    ensures
        r == (a@ == b@),
{
    if a.len() != b.len() {
        return false;
    }
    let mut i: usize = 0;
    while i < a.len()
        invariant
            i <= a.len(),
            a.len() == b.len(),
            forall|k: int| 0 <= k < i ==> a@[k] == b@[k],
        decreases a.len() - i,
    {
        if a[i] != b[i] {
            return false;
        }
        i += 1;
    }
    assert(a@ =~= b@);
    true
}

impl JsonCursor {
    /// The offset, where the cursor continues the keys of this source.
    pub fn offset_for(&self, source_hash: &str, stream_id: StreamId) -> (r: Result<usize, Error>)
        ensures
            match r {
                Ok(offset) => offset_held(self.envelope@, source_hash@, stream_id@) == Some(offset),
                Err(e) => e is StaleCursor && offset_held(
                    self.envelope@,
                    source_hash@,
                    stream_id@,
                ) is None,
            },
    {
        let payload = match self.envelope.payload_for(CursorKind::JsonKeys, 0, stream_id) {
            Ok(payload) => payload,
            Err(e) => {
                return Err(e);
            },
        };
        if payload.len() != JSON_CURSOR_PAYLOAD_BYTES {
            return Err(Error::StaleCursor);
        }
        let found = slice_subrange(payload.as_slice(), 0, CONTENT_FINGERPRINT_HEX_LEN);
        let rest = slice_subrange(
            payload.as_slice(),
            CONTENT_FINGERPRINT_HEX_LEN,
            JSON_CURSOR_PAYLOAD_BYTES,
        );
        if !bytes_equal(found, source_hash.as_bytes()) {
            return Err(Error::StaleCursor);
        }
        let offset: u64 = u64_from_le_bytes(rest);
        if offset > usize::MAX as u64 || offset == 0 {
            return Err(Error::StaleCursor);
        }
        Ok(offset as usize)
    }
}

/// Reads a cursor of listed keys.
pub fn decode_json_cursor(cursor: &str) -> (r: Result<JsonCursor, Error>)
    ensures
        match r {
            Ok(read) => 0 < byte_len(cursor@) <= MAX_JSON_CURSOR_BYTES && carries(
                cursor@,
                read.envelope@,
            ),
            Err(e) => e is StaleCursor && (0 < byte_len(cursor@) <= MAX_JSON_CURSOR_BYTES
                ==> forall|content: EnvelopeView| !carries(cursor@, content)),
        },
{
    match CursorEnvelope::parse(cursor, MAX_JSON_CURSOR_BYTES) {
        Ok(envelope) => Ok(JsonCursor { envelope }),
        Err(e) => Err(e),
    }
}

/// What identifies a stream of listed keys.
pub open spec fn keys_stream(service: ServiceIdentity, query_hash: Seq<char>) -> Seq<u8> {
    blake3_digest(
        service_start(service, CursorKind::JsonKeys) + bytes_field(
            "query_hash"@,
            encode_utf8(query_hash),
        ),
    ).take(STREAM_ID_BYTES as int)
}

/// The identity of a stream of listed keys.
pub fn json_stream_id(service: &ServiceIdentity, query_hash: &str) -> (r: StreamId)
    ensures
        r@ == keys_stream(*service, query_hash@),
{
    let mut stream = StreamIdentityBuilder::for_service(service, CursorKind::JsonKeys);
    stream.field_str("query_hash", query_hash);
    stream.finish()
}

/// What a cursor of listed keys holds.
pub open spec fn keys_envelope(stream: Seq<u8>, source_hash: Seq<char>, offset: usize) ->
    EnvelopeView {
    EnvelopeView {
        kind: CursorKind::JsonKeys,
        generation: 0,
        stream,
        payload: encode_utf8(source_hash) + spec_u64_to_le_bytes(offset as u64),
    }
}

proof fn a_fingerprint_is_ascii(text: Seq<char>)
    requires
        fingerprint_like(text),
    ensures
        encode_utf8(text).len() == CONTENT_FINGERPRINT_HEX_LEN,
{
    assert forall|i: int| 0 <= i < text.len() implies #[trigger] text[i] as u32 <= 0x7f by {
        assert(is_hex(text[i]));
    }
    ascii_bytes(text);
}

/// The text of a cursor that continues listed keys behind an offset.
pub fn make_json_cursor(stream_id: StreamId, source_hash: &str, offset: usize) -> (r: Result<
    String,
    Error,
>)
    ensures
        match r {
            Ok(text) => {
                &&& fingerprint_like(source_hash@)
                &&& offset > 0
                &&& carries(text@, keys_envelope(stream_id@, source_hash@, offset))
                &&& 0 < byte_len(text@) <= MAX_JSON_CURSOR_BYTES
            },
            Err(e) => {
                &&& !fingerprint_like(source_hash@) || offset == 0
                &&& e@ == Fault::OperationFailure("invalid JSON continuation state"@)
            },
        },
{
    if !is_fingerprint(source_hash) || offset == 0 {
        return Err(Error::OperationFailure(copy_text("invalid JSON continuation state")));
    }
    let mut payload: Vec<u8> = Vec::new();
    push_bytes(&mut payload, source_hash.as_bytes());
    let end = u64_to_le_bytes(offset as u64);
    push_bytes(&mut payload, end.as_slice());
    proof {
        lemma_auto_spec_u64_to_from_le_bytes();
        a_fingerprint_is_ascii(source_hash@);
        assert(payload@ =~= encode_utf8(source_hash@) + spec_u64_to_le_bytes(offset as u64));
    }
    match CursorEnvelope::new(CursorKind::JsonKeys, 0, stream_id, payload) {
        Ok(envelope) => Ok(envelope.encode()),
        Err(e) => Err(e),
    }
}

/// Listed keys go on where their cursor was made to point: whatever is read from
/// its text holds the offset for the same source and stream.
pub proof fn keys_continue_at_their_offset(
    text: Seq<char>,
    read: EnvelopeView,
    stream: Seq<u8>,
    source_hash: Seq<char>,
    offset: usize,
)
    requires
        fingerprint_like(source_hash),
        offset > 0,
        carries(text, keys_envelope(stream, source_hash, offset)),
        carries(text, read),
    ensures
        offset_held(read, source_hash, stream) == Some(offset),
{
    cursor_content_is_unique(text, keys_envelope(stream, source_hash, offset), read);
    lemma_auto_spec_u64_to_from_le_bytes();
    a_fingerprint_is_ascii(source_hash);
    let payload = read.payload;
    let end = spec_u64_to_le_bytes(offset as u64);
    assert(end.len() == 8);
    assert(payload.subrange(0, 64) =~= encode_utf8(source_hash));
    assert(payload.subrange(64, 72) =~= end);
    assert(spec_u64_from_le_bytes(end) == offset as u64);
}

/// A cursor of one query does not continue the keys of another.
pub proof fn keys_continue_only_their_query(
    text: Seq<char>,
    read: EnvelopeView,
    stream: Seq<u8>,
    other: Seq<u8>,
    source_hash: Seq<char>,
    offset: usize,
)
    requires
        carries(text, keys_envelope(stream, source_hash, offset)),
        carries(text, read),
        stream != other,
    ensures
        offset_held(read, source_hash, other) is None,
{
    cursor_content_is_unique(text, keys_envelope(stream, source_hash, offset), read);
}

/// A depth, or that there is none.
pub open spec fn depth_view(depth: Option<usize>) -> JsonView {
    match depth {
        Some(depth) => JsonView::Number(decimal_text(depth as nat)),
        None => JsonView::Null,
    }
}

/// What identifies a query: the operation as it is written, or, where keys are
/// listed the shallow ones first, the operation with its depth.
pub open spec fn query_identity(
    written: Seq<char>,
    operation: JsonView,
    execution: JsonExecutionOptions,
) -> Seq<char> {
    if execution.key_order == JsonKeyOrder::Pointer {
        written
    } else {
        json_text(
            JsonView::Object(
                seq![
                    ("depth"@, depth_view(execution.depth)),
                    ("operation"@, operation),
                    ("order"@, JsonView::Text("depth_then_pointer"@)),
                ],
            ),
        )
    }
}

/// The fingerprint of a query, from its operation as a text and as a value.
pub fn json_query_hash(written: &str, operation: JsonValue, execution: JsonExecutionOptions) -> (r:
    String)
    ensures
        r@ == text_fingerprint(query_identity(written@, operation@, execution)),
{
    if execution.key_order == JsonKeyOrder::Pointer {
        return fingerprint_text(written);
    }
    let depth = match execution.depth {
        Some(depth) => JsonValue::Number(decimal(depth as u64)),
        None => JsonValue::Null,
    };
    assert(depth@ == depth_view(execution.depth));
    let order = JsonValue::Text(copy_text("depth_then_pointer"));
    assert(order@ == JsonView::Text("depth_then_pointer"@));
    let ghost told = operation@;
    let identity = object_of_three("depth", depth, "operation", operation, "order", order);
    let text = write_json(&identity);
    assert(text@ == query_identity(written@, told, execution));
    fingerprint_text(text.as_str())
}

} // verus!
