//! Versioned continuation values shared by paginated operations.
//!
//! A cursor carries the immutable stream identity established by an operation,
//! the relevant snapshot generation, and a bounded operation-specific payload.
//! The binary representation is encoded with URL-safe base64 and holds a
//! checksum so truncated or accidentally edited cursors fail closed. The
//! checksum is an integrity check, not an authorization boundary.

use crate::error::Error;
use crate::text::{byte_len, copy_text, same_text, texts};
use base64::{engine::general_purpose::URL_SAFE_NO_PAD, Engine};
use vstd::bytes::{
    lemma_auto_spec_u64_to_from_le_bytes, spec_u64_from_le_bytes, spec_u64_to_le_bytes,
    u64_from_le_bytes, u64_to_le_bytes,
};
use vstd::prelude::*;
use vstd::slice::slice_subrange;
use vstd::utf8::encode_utf8;

verus! {

/// The version byte that every cursor starts with.
pub const CURSOR_VERSION: u8 = 1;

/// The length of a stream identity.
pub const STREAM_ID_BYTES: usize = 16;

/// The length of the checksum that ends a cursor.
pub const CHECKSUM_BYTES: usize = 8;

/// Version, kind, generation and stream identity.
pub const CURSOR_HEADER_BYTES: usize = 26;

/// The shortest cursor: a header and a checksum.
pub const MIN_CURSOR_BYTES: usize = 34;

/// The longest payload of a cursor.
pub const MAX_CURSOR_PAYLOAD_BYTES: usize = 8192;

/// The longest text that is read as a cursor.
pub const MAX_ENCODED_CURSOR_BYTES: usize = 11_000;

/// The length of the text of a cursor that holds one position.
pub const ENCODED_CURSOR_BYTES: usize = 56;

/// What the checksum hashes before the cursor itself.
pub const CURSOR_CHECKSUM_DOMAIN: &'static str = "leantoken-continuation-checksum-v1\0";

/// What a stream identity hashes before its fields.
pub const STREAM_ID_DOMAIN: &'static str = "leantoken-stream-identity-v1\0";

/// The BLAKE3 digest of a byte sequence.
pub uninterp spec fn blake3_digest(bytes: Seq<u8>) -> Seq<u8>;

/// The URL-safe base64 text of a byte sequence, without padding.
pub uninterp spec fn base64_text(bytes: Seq<u8>) -> Seq<char>;

/// The bytes that a URL-safe base64 text without padding stands for.
pub uninterp spec fn base64_bytes(text: Seq<char>) -> Option<Seq<u8>>;

/// `blake3::hash` gives the 32 bytes of the BLAKE3 digest of its input.
#[verifier::external_body]
pub(crate) fn blake3_hash(bytes: &[u8]) -> (r: Vec<u8>)
    ensures
        r@ == blake3_digest(bytes@),
        r@.len() == 32,
{
    blake3::hash(bytes).as_bytes().to_vec()
}

/// `Engine::encode` of `URL_SAFE_NO_PAD` writes four characters for three
/// bytes, one byte each, with no padding; `decode` gives the bytes back. It
/// panics where the length of the text overflows.
#[verifier::external_body]
fn base64_encode(bytes: &[u8]) -> (r: String)
    requires
        bytes.len() * 4 <= usize::MAX,
    ensures
        r@ == base64_text(bytes@),
        base64_bytes(r@) == Some(bytes@),
        byte_len(r@) == (4 * bytes@.len() + 2) / 3,
{
    URL_SAFE_NO_PAD.encode(bytes)
}

/// `Engine::decode` of `URL_SAFE_NO_PAD` gives the bytes that a text stands
/// for, or an error where it is no such text.
#[verifier::external_body]
fn base64_decode(text: &str) -> (r: Option<Vec<u8>>)
    ensures
        r.is_some() == base64_bytes(text@).is_some(),
        r.is_some() ==> r.unwrap()@ == base64_bytes(text@).unwrap(),
{
    URL_SAFE_NO_PAD.decode(text).ok()
}

/// The operation that a cursor continues.
#[derive(Debug, Clone, Copy, PartialEq, Eq, Structural)]
pub enum CursorKind {
    Search,
    Files,
    Outline,
    Read,
    JsonKeys,
    HistoryDiffSymbols,
    CacheList,
}

impl CursorKind {
    /// The byte that stands for the kind in a cursor.
    pub open spec fn number(self) -> u8 {
        match self {
            CursorKind::Search => 1,
            CursorKind::Files => 2,
            CursorKind::Outline => 3,
            CursorKind::Read => 4,
            CursorKind::JsonKeys => 5,
            CursorKind::HistoryDiffSymbols => 6,
            CursorKind::CacheList => 7,
        }
    }

    /// The byte that stands for the kind in a cursor.
    pub fn code(self) -> (r: u8)
        ensures
            r == self.number(),
    {
        match self {
            CursorKind::Search => 1,
            CursorKind::Files => 2,
            CursorKind::Outline => 3,
            CursorKind::Read => 4,
            CursorKind::JsonKeys => 5,
            CursorKind::HistoryDiffSymbols => 6,
            CursorKind::CacheList => 7,
        }
    }

    /// The kind that a byte stands for.
    pub fn parse(value: u8) -> (r: Result<CursorKind, Error>)
        ensures
            match r {
                Ok(kind) => kind.number() == value,
                Err(e) => e is StaleCursor && forall|kind: CursorKind| kind.number() != value,
            },
    {
        match value {
            1 => Ok(CursorKind::Search),
            2 => Ok(CursorKind::Files),
            3 => Ok(CursorKind::Outline),
            4 => Ok(CursorKind::Read),
            5 => Ok(CursorKind::JsonKeys),
            6 => Ok(CursorKind::HistoryDiffSymbols),
            7 => Ok(CursorKind::CacheList),
            _ => Err(Error::StaleCursor),
        }
    }
}

/// What a stream identity hashes at the start.
pub open spec fn stream_start(kind: CursorKind) -> Seq<u8> {
    encode_utf8(STREAM_ID_DOMAIN@).push(kind.number())
}

/// A byte string behind its own length.
pub open spec fn delimited(value: Seq<u8>) -> Seq<u8> {
    spec_u64_to_le_bytes(value.len() as u64) + value
}

/// A named field with a value of any length.
pub open spec fn bytes_field(name: Seq<char>, value: Seq<u8>) -> Seq<u8> {
    delimited(encode_utf8(name)) + delimited(value)
}

/// A named field whose value may be missing.
pub open spec fn optional_field(name: Seq<char>, value: Option<Seq<u8>>) -> Seq<u8> {
    delimited(encode_utf8(name)) + match value {
        Some(value) => seq![1u8] + value,
        None => seq![0u8],
    }
}

/// Texts one after another, each behind its length.
pub open spec fn delimited_all(values: Seq<Seq<char>>) -> Seq<u8>
    decreases values.len(),
{
    if values.len() == 0 {
        Seq::empty()
    } else {
        delimited_all(values.drop_last()) + delimited(encode_utf8(values.last()))
    }
}

/// What identifies the sequence of results that a cursor continues.
#[derive(Debug, Clone, Copy, PartialEq, Eq)]
pub struct StreamId {
    bytes: [u8; STREAM_ID_BYTES],
}

impl View for StreamId {
    type V = Seq<u8>;

    closed spec fn view(&self) -> Seq<u8> {
        self.bytes@
    }
}

impl StreamId {
    /// The identity that sixteen bytes spell.
    fn from_bytes(bytes: &[u8]) -> (r: StreamId)
        requires
            bytes.len() == STREAM_ID_BYTES,
        ensures
            r@ == bytes@,
            r@.len() == STREAM_ID_BYTES,
    {
        let mut out: [u8; STREAM_ID_BYTES] = [0u8; STREAM_ID_BYTES];
        let mut i: usize = 0;
        while i < STREAM_ID_BYTES
            invariant
                i <= STREAM_ID_BYTES,
                bytes.len() == STREAM_ID_BYTES,
                out@.len() == STREAM_ID_BYTES,
                forall|j: int| 0 <= j < i ==> out@[j] == bytes@[j],
            decreases STREAM_ID_BYTES - i,
        {
            out[i] = bytes[i];
            i += 1;
        }
        assert(out@ =~= bytes@);
        StreamId { bytes: out }
    }

    /// Whether two identities are equal.
    pub fn same(&self, other: &StreamId) -> (r: bool)
        ensures
            r == (self@ == other@),
    {
        let mut i: usize = 0;
        while i < STREAM_ID_BYTES
            invariant
                i <= STREAM_ID_BYTES,
                forall|j: int| 0 <= j < i ==> self.bytes@[j] == other.bytes@[j],
            decreases STREAM_ID_BYTES - i,
        {
            if self.bytes[i] != other.bytes[i] {
                assert(self@[i as int] != other@[i as int]);
                return false;
            }
            i += 1;
        }
        assert(self@ =~= other@);
        true
    }
}

/// Appends bytes to a vector.
pub(crate) fn push_bytes(out: &mut Vec<u8>, more: &[u8])
    ensures
        final(out)@ == old(out)@ + more@,
{
    let ghost start = out@;
    let mut i: usize = 0;
    while i < more.len()
        invariant
            i <= more.len(),
            out@ == start + more@.take(i as int),
        decreases more.len() - i,
    {
        out.push(more[i]);
        assert(more@.take(i + 1) == more@.take(i as int).push(more@[i as int]));
        i += 1;
    }
    assert(more@.take(more@.len() as int) == more@);
}

/// What tells one service instance from another.
#[derive(Debug)]
pub struct ServiceIdentity {
    pub repository_id: String,
    pub index_scope_digest: Option<String>,
    pub implementation_version: String,
    pub tokenizer: String,
}

/// What identifies a stream of one service before its own fields.
pub open spec fn service_start(service: ServiceIdentity, kind: CursorKind) -> Seq<u8> {
    stream_start(kind) + bytes_field("repository_id"@, encode_utf8(service.repository_id@))
        + optional_field(
        "index_scope_digest"@,
        match service.index_scope_digest {
            Some(digest) => Some(delimited(encode_utf8(digest@))),
            None => None,
        },
    ) + bytes_field("implementation_version"@, encode_utf8(service.implementation_version@))
        + bytes_field("tokenizer"@, encode_utf8(service.tokenizer@))
}

/// A flag of a stream.
pub open spec fn flag_field(name: Seq<char>, value: bool) -> Seq<u8> {
    delimited(encode_utf8(name)) + seq![
        if value {
            1u8
        } else {
            0u8
        },
    ]
}

/// A number of a stream.
pub open spec fn number_field(name: Seq<char>, value: usize) -> Seq<u8> {
    delimited(encode_utf8(name)) + spec_u64_to_le_bytes(value as u64)
}

/// Collects the fields that identify a stream.
pub struct StreamIdentityBuilder {
    preimage: Vec<u8>,
}

impl View for StreamIdentityBuilder {
    type V = Seq<u8>;

    closed spec fn view(&self) -> Seq<u8> {
        self.preimage@
    }
}

impl StreamIdentityBuilder {
    /// Starts the identity of a stream of one kind.
    pub fn new(kind: CursorKind) -> (r: StreamIdentityBuilder)
        ensures
            r@ == stream_start(kind),
    {
        let mut preimage: Vec<u8> = Vec::new();
        push_bytes(&mut preimage, STREAM_ID_DOMAIN.as_bytes());
        preimage.push(kind.code());
        assert(preimage@ =~= stream_start(kind));
        StreamIdentityBuilder { preimage }
    }

    /// Starts the identity of a stream that one service instance answers.
    pub fn for_service(service: &ServiceIdentity, kind: CursorKind) -> (r: StreamIdentityBuilder)
        ensures
            r@ == service_start(*service, kind),
    {
        let mut stream = StreamIdentityBuilder::new(kind);
        stream.field_str("repository_id", service.repository_id.as_str());
        stream.field_optional_str(
            "index_scope_digest",
            match &service.index_scope_digest {
                Some(digest) => Some(digest.as_str()),
                None => None,
            },
        );
        stream.field_str("implementation_version", service.implementation_version.as_str());
        stream.field_str("tokenizer", service.tokenizer.as_str());
        stream
    }

    /// Adds a text.
    pub fn field_str(&mut self, name: &str, value: &str)
        ensures
            final(self)@ == old(self)@ + bytes_field(name@, encode_utf8(value@)),
    {
        self.field_bytes(name, value.as_bytes());
    }

    /// Adds a text that may be missing.
    pub fn field_optional_str(&mut self, name: &str, value: Option<&str>)
        ensures
            final(self)@ == old(self)@ + optional_field(
                name@,
                match value {
                    Some(value) => Some(delimited(encode_utf8(value@))),
                    None => None,
                },
            ),
    {
        self.field_name(name);
        let ghost named = self@;
        match value {
            Some(value) => {
                self.preimage.push(1);
                self.length_prefixed(value.as_bytes());
                assert(self@ =~= named + (seq![1u8] + delimited(encode_utf8(value@))));
            },
            None => {
                self.preimage.push(0);
                assert(self@ =~= named + seq![0u8]);
            },
        }
        assert(self@ =~= old(self)@ + optional_field(
            name@,
            match value {
                Some(value) => Some(delimited(encode_utf8(value@))),
                None => None,
            },
        ));
    }

    /// Adds a flag.
    pub fn field_bool(&mut self, name: &str, value: bool)
        ensures
            final(self)@ == old(self)@ + flag_field(name@, value),
    {
        self.field_name(name);
        self.preimage.push(
            if value {
                1u8
            } else {
                0u8
            },
        );
        assert(self@ =~= old(self)@ + flag_field(name@, value));
    }

    /// Adds a number.
    pub fn field_usize(&mut self, name: &str, value: usize)
        ensures
            final(self)@ == old(self)@ + number_field(name@, value),
    {
        self.field_name(name);
        let bytes = u64_to_le_bytes(value as u64);
        push_bytes(&mut self.preimage, bytes.as_slice());
        assert(self@ =~= old(self)@ + number_field(name@, value));
    }

    /// Adds a number that may be missing.
    pub fn field_optional_usize(&mut self, name: &str, value: Option<usize>)
        ensures
            final(self)@ == old(self)@ + optional_field(
                name@,
                match value {
                    Some(value) => Some(spec_u64_to_le_bytes(value as u64)),
                    None => None,
                },
            ),
    {
        self.field_name(name);
        let ghost named = self@;
        match value {
            Some(value) => {
                self.preimage.push(1);
                let bytes = u64_to_le_bytes(value as u64);
                push_bytes(&mut self.preimage, bytes.as_slice());
                assert(self@ =~= named + (seq![1u8] + spec_u64_to_le_bytes(value as u64)));
            },
            None => {
                self.preimage.push(0);
                assert(self@ =~= named + seq![0u8]);
            },
        }
        assert(self@ =~= old(self)@ + optional_field(
            name@,
            match value {
                Some(value) => Some(spec_u64_to_le_bytes(value as u64)),
                None => None,
            },
        ));
    }

    /// Adds a list of texts.
    pub fn field_strings(&mut self, name: &str, values: &Vec<String>)
        ensures
            final(self)@ == old(self)@ + delimited(encode_utf8(name@)) + spec_u64_to_le_bytes(
                values@.len() as u64,
            ) + delimited_all(texts(values@)),
    {
        self.field_name(name);
        let count = u64_to_le_bytes(values.len() as u64);
        push_bytes(&mut self.preimage, count.as_slice());
        let ghost start = self@;
        let mut i: usize = 0;
        assert(self@ =~= start + delimited_all(texts(values@).take(0)));
        while i < values.len()
            invariant
                i <= values.len(),
                self@ == start + delimited_all(texts(values@).take(i as int)),
            decreases values.len() - i,
        {
            self.length_prefixed(values[i].as_str().as_bytes());
            assert(texts(values@).take(i + 1).drop_last() =~= texts(values@).take(i as int));
            assert(self@ =~= start + delimited_all(texts(values@).take(i + 1)));
            i += 1;
        }
        assert(texts(values@).take(values@.len() as int) =~= texts(values@));
    }

    /// The identity of the stream with the fields added so far.
    pub fn finish(self) -> (r: StreamId)
        ensures
            r@ == blake3_digest(self@).take(STREAM_ID_BYTES as int),
            r@.len() == STREAM_ID_BYTES,
    {
        let digest = blake3_hash(self.preimage.as_slice());
        let identity = slice_subrange(digest.as_slice(), 0, STREAM_ID_BYTES);
        StreamId::from_bytes(identity)
    }

    /// Adds a byte string.
    pub fn field_bytes(&mut self, name: &str, value: &[u8])
        ensures
            final(self)@ == old(self)@ + bytes_field(name@, value@),
    {
        self.field_name(name);
        self.length_prefixed(value);
        assert(self@ =~= old(self)@ + bytes_field(name@, value@));
    }

    fn field_name(&mut self, name: &str)
        ensures
            final(self)@ == old(self)@ + delimited(encode_utf8(name@)),
    {
        self.length_prefixed(name.as_bytes());
    }

    fn length_prefixed(&mut self, value: &[u8])
        ensures
            final(self)@ == old(self)@ + delimited(value@),
    {
        let length = u64_to_le_bytes(value.len() as u64);
        push_bytes(&mut self.preimage, length.as_slice());
        push_bytes(&mut self.preimage, value);
        assert(self@ =~= old(self)@ + delimited(value@));
    }
}

/// Byte strings behind their lengths can be told apart from what follows them.
proof fn lemma_delimited(a: Seq<u8>, b: Seq<u8>, x: Seq<u8>, y: Seq<u8>)
    requires
        a.len() <= u64::MAX,
        b.len() <= u64::MAX,
        delimited(a) + x == delimited(b) + y,
    ensures
        a == b,
        x == y,
{
    lemma_auto_spec_u64_to_from_le_bytes();
    let left = delimited(a) + x;
    let right = delimited(b) + y;
    assert(left.take(8) =~= spec_u64_to_le_bytes(a.len() as u64));
    assert(right.take(8) =~= spec_u64_to_le_bytes(b.len() as u64));
    assert(a.len() == b.len());
    assert(a =~= left.subrange(8, 8 + a.len() as int));
    assert(b =~= right.subrange(8, 8 + b.len() as int));
    assert(x =~= left.subrange(8 + a.len() as int, left.len() as int));
    assert(y =~= right.subrange(8 + b.len() as int, right.len() as int));
}

/// The fields of a stream are named and length-delimited: two streams that
/// hash the same bytes agree on the name and the value of their next field and
/// on everything behind it.
pub proof fn stream_fields_are_delimited(
    name: Seq<char>,
    value: Seq<u8>,
    rest: Seq<u8>,
    other_name: Seq<char>,
    other_value: Seq<u8>,
    other_rest: Seq<u8>,
)
    requires
        encode_utf8(name).len() <= u64::MAX,
        encode_utf8(other_name).len() <= u64::MAX,
        value.len() <= u64::MAX,
        other_value.len() <= u64::MAX,
        bytes_field(name, value) + rest == bytes_field(other_name, other_value) + other_rest,
    ensures
        name == other_name,
        value == other_value,
        rest == other_rest,
{
    let n = encode_utf8(name);
    let m = encode_utf8(other_name);
    assert(bytes_field(name, value) + rest =~= delimited(n) + (delimited(value) + rest));
    assert(bytes_field(other_name, other_value) + other_rest =~= delimited(m) + (delimited(
        other_value,
    ) + other_rest));
    lemma_delimited(n, m, delimited(value) + rest, delimited(other_value) + other_rest);
    lemma_delimited(value, other_value, rest, other_rest);
    vstd::utf8::encode_utf8_decode_utf8(name);
    vstd::utf8::encode_utf8_decode_utf8(other_name);
}

/// What a cursor holds.
#[verifier::ext_equal]
pub struct EnvelopeView {
    pub kind: CursorKind,
    pub generation: u64,
    pub stream: Seq<u8>,
    pub payload: Seq<u8>,
}

/// The part of a cursor that its checksum covers.
pub open spec fn covered(e: EnvelopeView) -> Seq<u8> {
    seq![CURSOR_VERSION, e.kind.number()] + spec_u64_to_le_bytes(e.generation) + e.stream
        + e.payload
}

/// The checksum of a byte sequence.
pub open spec fn checksum(bytes: Seq<u8>) -> Seq<u8> {
    blake3_digest(encode_utf8(CURSOR_CHECKSUM_DOMAIN@) + bytes).take(CHECKSUM_BYTES as int)
}

/// The bytes of a cursor.
pub open spec fn frame(e: EnvelopeView) -> Seq<u8> {
    covered(e) + checksum(covered(e))
}

/// Whether a text is the cursor that holds `e`.
pub open spec fn carries(encoded: Seq<char>, e: EnvelopeView) -> bool {
    &&& e.stream.len() == STREAM_ID_BYTES
    &&& e.payload.len() <= MAX_CURSOR_PAYLOAD_BYTES
    &&& checksum(covered(e)).len() == CHECKSUM_BYTES
    &&& base64_bytes(encoded) == Some(frame(e))
    &&& base64_text(frame(e)) == encoded
}

proof fn lemma_frame(e: EnvelopeView)
    requires
        e.stream.len() == STREAM_ID_BYTES,
        checksum(covered(e)).len() == CHECKSUM_BYTES,
    ensures
        covered(e).len() == CURSOR_HEADER_BYTES + e.payload.len(),
        frame(e).len() == MIN_CURSOR_BYTES + e.payload.len(),
        frame(e)[0] == CURSOR_VERSION,
        frame(e)[1] == e.kind.number(),
        frame(e).subrange(2, 10) == spec_u64_to_le_bytes(e.generation),
        spec_u64_from_le_bytes(frame(e).subrange(2, 10)) == e.generation,
        frame(e).subrange(10, CURSOR_HEADER_BYTES as int) == e.stream,
        frame(e).subrange(CURSOR_HEADER_BYTES as int, frame(e).len() - CHECKSUM_BYTES)
            == e.payload,
        frame(e).subrange(0, frame(e).len() - CHECKSUM_BYTES) == covered(e),
        frame(e).subrange(frame(e).len() - CHECKSUM_BYTES, frame(e).len() as int) == checksum(
            covered(e),
        ),
{
    lemma_auto_spec_u64_to_from_le_bytes();
    let f = frame(e);
    assert(f.subrange(2, 10) =~= spec_u64_to_le_bytes(e.generation));
    assert(f.subrange(10, CURSOR_HEADER_BYTES as int) =~= e.stream);
    assert(f.subrange(CURSOR_HEADER_BYTES as int, f.len() - CHECKSUM_BYTES) =~= e.payload);
    assert(f.subrange(0, f.len() - CHECKSUM_BYTES) =~= covered(e));
    assert(f.subrange(f.len() - CHECKSUM_BYTES, f.len() as int) =~= checksum(covered(e)));
}

/// Whether a cursor continues an operation, in a generation, on a stream.
pub open spec fn continues(
    content: EnvelopeView,
    kind: CursorKind,
    generation: u64,
    stream: Seq<u8>,
) -> bool {
    &&& content.kind == kind
    &&& content.generation == generation
    &&& content.stream == stream
}

/// A text is the cursor of at most one content.
pub proof fn cursor_content_is_unique(encoded: Seq<char>, a: EnvelopeView, b: EnvelopeView)
    requires
        carries(encoded, a),
        carries(encoded, b),
    ensures
        a == b,
{
    lemma_frame(a);
    lemma_frame(b);
    assert(a.payload.len() == b.payload.len());
    assert(a.kind.number() == b.kind.number());
    assert(a =~= b);
}

/// Whatever is read from the text of a cursor continues what the cursor was made
/// for and nothing else: no other operation, generation or stream.
pub proof fn a_cursor_continues_only_its_own(
    encoded: Seq<char>,
    written: EnvelopeView,
    read: EnvelopeView,
    kind: CursorKind,
    generation: u64,
    stream: Seq<u8>,
)
    requires
        carries(encoded, written),
        carries(encoded, read),
    ensures
        continues(read, kind, generation, stream) <==> continues(
            written,
            kind,
            generation,
            stream,
        ),
{
    cursor_content_is_unique(encoded, written, read);
}

fn cursor_checksum(payload: &[u8]) -> (r: Vec<u8>)
    ensures
        r@ == checksum(payload@),
        r@.len() == CHECKSUM_BYTES,
{
    let mut bytes: Vec<u8> = Vec::new();
    push_bytes(&mut bytes, CURSOR_CHECKSUM_DOMAIN.as_bytes());
    push_bytes(&mut bytes, payload);
    assert(bytes@ =~= encode_utf8(CURSOR_CHECKSUM_DOMAIN@) + payload@);
    let digest = blake3_hash(bytes.as_slice());
    let mut out: Vec<u8> = Vec::new();
    push_bytes(&mut out, slice_subrange(digest.as_slice(), 0, CHECKSUM_BYTES));
    assert(out@ =~= checksum(payload@));
    out
}

fn same_bytes(a: &[u8], b: &[u8]) -> (r: bool)
    ensures
        r == (a@ == b@),
{
    if a.len() != b.len() {
        return false;
    }
    let mut i: usize = 0;
    while i < a.len()
        invariant
            i <= a.len() == b.len(),
            forall|j: int| 0 <= j < i ==> a@[j] == b@[j],
        decreases a.len() - i,
    {
        if a[i] != b[i] {
            return false;
        }
        i += 1;
    }
    assert(a@ =~= b@);
    true
}

/// A cursor with a payload of its operation's own making.
#[derive(Debug)]
pub struct CursorEnvelope {
    kind: CursorKind,
    generation: u64,
    stream_id: StreamId,
    payload: Vec<u8>,
}

impl View for CursorEnvelope {
    type V = EnvelopeView;

    closed spec fn view(&self) -> EnvelopeView {
        EnvelopeView {
            kind: self.kind,
            generation: self.generation,
            stream: self.stream_id@,
            payload: self.payload@,
        }
    }
}

impl CursorEnvelope {
    #[verifier::type_invariant]
    spec fn bounded(self) -> bool {
        self.payload@.len() <= MAX_CURSOR_PAYLOAD_BYTES
    }

    /// A cursor that holds a payload, unless the payload is too long.
    pub fn new(kind: CursorKind, generation: u64, stream_id: StreamId, payload: Vec<u8>) -> (r:
        Result<CursorEnvelope, Error>)
        ensures
            match r {
                Ok(envelope) => payload@.len() <= MAX_CURSOR_PAYLOAD_BYTES && envelope@
                    == (EnvelopeView {
                    kind,
                    generation,
                    stream: stream_id@,
                    payload: payload@,
                }),
                Err(e) => payload@.len() > MAX_CURSOR_PAYLOAD_BYTES && e@
                    == crate::error::Fault::OperationFailure("cursor payload overflow"@),
            },
    {
        if payload.len() > MAX_CURSOR_PAYLOAD_BYTES {
            return Err(Error::OperationFailure(copy_text("cursor payload overflow")));
        }
        Ok(CursorEnvelope { kind, generation, stream_id, payload })
    }

    /// Reads a cursor. Whatever is not the exact text of a cursor is stale.
    pub fn parse(encoded: &str, max_encoded_bytes: usize) -> (r: Result<CursorEnvelope, Error>)
        ensures
            match r {
                Ok(envelope) => {
                    &&& 0 < byte_len(encoded@) <= max_encoded_bytes
                    &&& byte_len(encoded@) <= MAX_ENCODED_CURSOR_BYTES
                    &&& carries(encoded@, envelope@)
                },
                Err(e) => {
                    &&& e is StaleCursor
                    &&& 0 < byte_len(encoded@) <= max_encoded_bytes && byte_len(encoded@)
                        <= MAX_ENCODED_CURSOR_BYTES ==> forall|content: EnvelopeView|
                        !carries(encoded@, content)
                },
            },
    {
        let size: usize = encoded.as_bytes().len();
        if size == 0 || size > max_encoded_bytes || size > MAX_ENCODED_CURSOR_BYTES {
            return Err(Error::StaleCursor);
        }
        let bytes = match base64_decode(encoded) {
            Some(bytes) => bytes,
            None => {
                return Err(Error::StaleCursor);
            },
        };
        proof {
            assert forall|content: EnvelopeView| carries(encoded@, content) implies bytes@ == frame(
                content,
            ) && bytes@.len() == MIN_CURSOR_BYTES + content.payload.len() by {
                lemma_frame(content);
            }
        }
        if bytes.len() < MIN_CURSOR_BYTES || bytes.len() > CURSOR_HEADER_BYTES
            + MAX_CURSOR_PAYLOAD_BYTES + CHECKSUM_BYTES {
            return Err(Error::StaleCursor);
        }
        let canonical = base64_encode(bytes.as_slice());
        if !same_text(canonical.as_str(), encoded) {
            return Err(Error::StaleCursor);
        }
        let checksum_start: usize = bytes.len() - CHECKSUM_BYTES;
        let head = slice_subrange(bytes.as_slice(), 0, checksum_start);
        let found_checksum = slice_subrange(bytes.as_slice(), checksum_start, bytes.len());
        let expected_checksum = cursor_checksum(head);
        if !same_bytes(found_checksum, expected_checksum.as_slice()) {
            proof {
                assert forall|content: EnvelopeView| !carries(encoded@, content) by {
                    if carries(encoded@, content) {
                        lemma_frame(content);
                    }
                }
            }
            return Err(Error::StaleCursor);
        }
        if bytes[0] != CURSOR_VERSION {
            proof {
                assert forall|content: EnvelopeView| !carries(encoded@, content) by {
                    if carries(encoded@, content) {
                        lemma_frame(content);
                    }
                }
            }
            return Err(Error::StaleCursor);
        }
        let kind = match CursorKind::parse(bytes[1]) {
            Ok(kind) => kind,
            Err(e) => {
                proof {
                    assert forall|content: EnvelopeView| !carries(encoded@, content) by {
                        if carries(encoded@, content) {
                            lemma_frame(content);
                        }
                    }
                }
                return Err(e);
            },
        };
        let generation: u64 = u64_from_le_bytes(slice_subrange(bytes.as_slice(), 2, 10));
        let stream_id = StreamId::from_bytes(
            slice_subrange(bytes.as_slice(), 10, CURSOR_HEADER_BYTES),
        );
        let mut payload: Vec<u8> = Vec::new();
        push_bytes(
            &mut payload,
            slice_subrange(bytes.as_slice(), CURSOR_HEADER_BYTES, checksum_start),
        );
        let envelope = CursorEnvelope { kind, generation, stream_id, payload };
        proof {
            lemma_auto_spec_u64_to_from_le_bytes();
            assert(bytes@.subrange(2, 10) == spec_u64_to_le_bytes(generation));
            assert(covered(envelope@) =~= head@);
            assert(frame(envelope@) =~= bytes@);
        }
        Ok(envelope)
    }

    /// The text of the cursor, which [`CursorEnvelope::parse`] reads back.
    pub fn encode(self) -> (r: String)
        ensures
            carries(r@, self@),
            0 < byte_len(r@) <= MAX_ENCODED_CURSOR_BYTES,
            byte_len(r@) == (4 * (MIN_CURSOR_BYTES + self@.payload.len()) + 2) / 3,
    {
        proof {
            use_type_invariant(&self);
            lemma_auto_spec_u64_to_from_le_bytes();
        }
        let mut bytes: Vec<u8> = Vec::new();
        bytes.push(CURSOR_VERSION);
        bytes.push(self.kind.code());
        let generation = u64_to_le_bytes(self.generation);
        push_bytes(&mut bytes, generation.as_slice());
        push_bytes(&mut bytes, self.stream_id.bytes.as_slice());
        push_bytes(&mut bytes, self.payload.as_slice());
        assert(bytes@ =~= covered(self@));
        let check = cursor_checksum(bytes.as_slice());
        push_bytes(&mut bytes, check.as_slice());
        assert(bytes@ =~= frame(self@));
        proof {
            lemma_frame(self@);
        }
        base64_encode(bytes.as_slice())
    }

    /// The payload, where the cursor continues what the caller expects.
    pub fn payload_for(
        &self,
        expected_kind: CursorKind,
        expected_generation: u64,
        expected_stream_id: StreamId,
    ) -> (r: Result<&Vec<u8>, Error>)
        ensures
            r is Ok <==> continues(
                self@,
                expected_kind,
                expected_generation,
                expected_stream_id@,
            ),
            match r {
                Ok(payload) => payload@ == self@.payload,
                Err(e) => e is StaleCursor,
            },
    {
        if self.kind != expected_kind || self.generation != expected_generation
            || !self.stream_id.same(&expected_stream_id) {
            return Err(Error::StaleCursor);
        }
        Ok(&self.payload)
    }

    /// The payload.
    pub fn payload(&self) -> (r: &Vec<u8>)
        ensures
            r@ == self@.payload,
    {
        &self.payload
    }
}

/// A cursor that holds one position in its stream.
#[derive(Debug, Clone, Copy)]
pub struct ContinuationCursor {
    kind: CursorKind,
    generation: u64,
    stream_id: StreamId,
    position: u64,
}

impl View for ContinuationCursor {
    type V = EnvelopeView;

    closed spec fn view(&self) -> EnvelopeView {
        EnvelopeView {
            kind: self.kind,
            generation: self.generation,
            stream: self.stream_id@,
            payload: spec_u64_to_le_bytes(self.position),
        }
    }
}

impl ContinuationCursor {
    /// The position that the cursor holds.
    pub closed spec fn place(self) -> u64 {
        self.position
    }

    /// A cursor that holds a position.
    pub fn at(kind: CursorKind, generation: u64, stream_id: StreamId, position: usize) -> (r:
        Result<ContinuationCursor, Error>)
        ensures
            match r {
                Ok(cursor) => cursor@ == (EnvelopeView {
                    kind,
                    generation,
                    stream: stream_id@,
                    payload: spec_u64_to_le_bytes(position as u64),
                }) && cursor.place() == position,
                Err(_) => false,
            },
    {
        Ok(ContinuationCursor { kind, generation, stream_id, position: position as u64 })
    }

    /// Reads a cursor where there is one.
    pub fn parse_optional(encoded: Option<&str>) -> (r: Result<Option<ContinuationCursor>, Error>)
        ensures
            match (encoded, r) {
                (None, Ok(cursor)) => cursor is None,
                (Some(text), Ok(Some(cursor))) => byte_len(text@) == ENCODED_CURSOR_BYTES
                    && carries(text@, cursor@),
                (Some(text), Err(e)) => e is StaleCursor && (byte_len(text@)
                    == ENCODED_CURSOR_BYTES ==> forall|content: EnvelopeView|
                    content.payload.len() == 8 ==> !carries(text@, content)),
                _ => false,
            },
    {
        match encoded {
            None => Ok(None),
            Some(text) => match ContinuationCursor::parse(text) {
                Ok(cursor) => Ok(Some(cursor)),
                Err(e) => Err(e),
            },
        }
    }

    /// Reads a cursor. Whatever is not the exact text of a position is stale.
    pub fn parse(encoded: &str) -> (r: Result<ContinuationCursor, Error>)
        ensures
            match r {
                Ok(cursor) => byte_len(encoded@) == ENCODED_CURSOR_BYTES && carries(
                    encoded@,
                    cursor@,
                ) && cursor@.payload == spec_u64_to_le_bytes(cursor.place()),
                Err(e) => e is StaleCursor && (byte_len(encoded@) == ENCODED_CURSOR_BYTES
                    ==> forall|content: EnvelopeView|
                    content.payload.len() == 8 ==> !carries(encoded@, content)),
            },
    {
        if encoded.as_bytes().len() != ENCODED_CURSOR_BYTES {
            return Err(Error::StaleCursor);
        }
        let envelope = match CursorEnvelope::parse(encoded, ENCODED_CURSOR_BYTES) {
            Ok(envelope) => envelope,
            Err(e) => {
                return Err(e);
            },
        };
        if envelope.payload.len() != 8 {
            proof {
                assert forall|content: EnvelopeView| content.payload.len() == 8 implies !carries(
                    encoded@,
                    content,
                ) by {
                    if carries(encoded@, content) {
                        cursor_content_is_unique(encoded@, content, envelope@);
                    }
                }
            }
            return Err(Error::StaleCursor);
        }
        let position: u64 = u64_from_le_bytes(envelope.payload.as_slice());
        proof {
            lemma_auto_spec_u64_to_from_le_bytes();
            assert(spec_u64_to_le_bytes(spec_u64_from_le_bytes(envelope.payload@))
                == envelope.payload@);
        }
        Ok(
            ContinuationCursor {
                kind: envelope.kind,
                generation: envelope.generation,
                stream_id: envelope.stream_id,
                position,
            },
        )
    }

    /// The text of the cursor, which [`ContinuationCursor::parse`] reads back.
    pub fn encode(self) -> (r: String)
        ensures
            carries(r@, self@),
            byte_len(r@) == ENCODED_CURSOR_BYTES,
    {
        proof {
            lemma_auto_spec_u64_to_from_le_bytes();
        }
        let envelope = CursorEnvelope {
            kind: self.kind,
            generation: self.generation,
            stream_id: self.stream_id,
            payload: u64_to_le_bytes(self.position),
        };
        envelope.encode()
    }

    /// The position, where the cursor continues what the caller expects.
    pub fn position_for(
        self,
        expected_kind: CursorKind,
        expected_generation: u64,
        expected_stream_id: StreamId,
    ) -> (r: Result<usize, Error>)
        ensures
            r is Ok <==> continues(
                self@,
                expected_kind,
                expected_generation,
                expected_stream_id@,
            ) && self.place() <= usize::MAX,
            match r {
                Ok(position) => position == self.place(),
                Err(e) => e is StaleCursor,
            },
    {
        if self.kind != expected_kind || self.generation != expected_generation
            || !self.stream_id.same(&expected_stream_id) {
            return Err(Error::StaleCursor);
        }
        if self.position > usize::MAX as u64 {
            return Err(Error::StaleCursor);
        }
        Ok(self.position as usize)
    }
}

/// Two positions whose cursors hold the same content are equal, so a position
/// comes back from the text of its cursor unchanged.
pub proof fn position_round_trip(written: ContinuationCursor, read: ContinuationCursor, text: Seq<
    char,
>)
    requires
        carries(text, written@),
        carries(text, read@),
    ensures
        read@ == written@,
        read.place() == written.place(),
{
    cursor_content_is_unique(text, written@, read@);
    lemma_auto_spec_u64_to_from_le_bytes();
    assert(spec_u64_from_le_bytes(read@.payload) == read.position);
    assert(spec_u64_from_le_bytes(written@.payload) == written.position);
}

} // verus!
