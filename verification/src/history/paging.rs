//! Pages of a comparison of symbols.

use crate::cursor::{
    blake3_digest, bytes_field, carries, cursor_content_is_unique, flag_field, number_field,
    position_round_trip, service_start, ContinuationCursor, CursorKind, EnvelopeView,
    ServiceIdentity, StreamId, StreamIdentityBuilder, STREAM_ID_BYTES,
};
use crate::error::{Error, Fault};
use crate::history::request::{
    HistoricalHeadTarget, PairView, ParsedDiffSymbolsRequest, ParsedDiffSymbolsTarget,
};
use crate::ordered::views;
use vstd::bytes::spec_u64_to_le_bytes;
use vstd::prelude::*;
use vstd::utf8::encode_utf8;

verus! {

/// What identifies one target.
pub open spec fn pair_fields(pair: PairView) -> Seq<u8> {
    let base = bytes_field("base_path"@, encode_utf8(pair.base.path)) + bytes_field(
        "base_symbol"@,
        encode_utf8(pair.base.symbol),
    );
    match pair.given {
        None => base + flag_field("head_override"@, false),
        Some(head) => base + flag_field("head_override"@, true) + bytes_field(
            "head_path"@,
            encode_utf8(head.path),
        ) + bytes_field("head_symbol"@, encode_utf8(head.symbol)),
    }
}

/// What identifies the first `upto` targets.
pub open spec fn all_pair_fields(list: Seq<PairView>, upto: int) -> Seq<u8>
    decreases upto,
{
    if upto <= 0 || upto > list.len() {
        Seq::empty()
    } else {
        all_pair_fields(list, upto - 1) + pair_fields(list[upto - 1])
    }
}

/// What identifies a comparison.
pub open spec fn comparison_fields(
    service: ServiceIdentity,
    targets: Seq<PairView>,
    base_revision: Seq<char>,
    head_revision: Seq<char>,
) -> Seq<u8> {
    service_start(service, CursorKind::HistoryDiffSymbols) + bytes_field(
        "base_revision"@,
        encode_utf8(base_revision),
    ) + bytes_field("head_revision"@, encode_utf8(head_revision)) + number_field(
        "target_count"@,
        targets.len() as usize,
    ) + all_pair_fields(targets, targets.len() as int)
}

/// The identity of a comparison.
pub open spec fn comparison_id(
    service: ServiceIdentity,
    targets: Seq<PairView>,
    base_revision: Seq<char>,
    head_revision: Seq<char>,
) -> Seq<u8> {
    blake3_digest(comparison_fields(service, targets, base_revision, head_revision)).take(
        STREAM_ID_BYTES as int,
    )
}

fn add_pair(stream: &mut StreamIdentityBuilder, target: &ParsedDiffSymbolsTarget)
    ensures
        final(stream)@ == old(stream)@ + pair_fields(target@),
{
    let ghost start = stream@;
    stream.field_str("base_path", target.base.path.as_str());
    stream.field_str("base_symbol", target.base.symbol.as_str());
    match &target.head {
        HistoricalHeadTarget::SameAsBase => {
            stream.field_bool("head_override", false);
        },
        HistoricalHeadTarget::Override(head) => {
            stream.field_bool("head_override", true);
            stream.field_str("head_path", head.path.as_str());
            stream.field_str("head_symbol", head.symbol.as_str());
        },
    }
    assert(stream@ =~= start + pair_fields(target@));
}

/// The identity of a comparison between two resolved revisions.
pub fn diff_symbols_stream_id(
    service: &ServiceIdentity,
    request: &ParsedDiffSymbolsRequest,
    base_revision: &str,
    head_revision: &str,
) -> (r: StreamId)
    ensures
        r@ == comparison_id(*service, views(request.targets@), base_revision@, head_revision@),
{
    let mut stream = StreamIdentityBuilder::for_service(service, CursorKind::HistoryDiffSymbols);
    stream.field_str("base_revision", base_revision);
    stream.field_str("head_revision", head_revision);
    stream.field_usize("target_count", request.targets.len());
    let ghost list = views(request.targets@);
    let ghost start = stream@;
    let mut i: usize = 0;
    assert(stream@ =~= start + all_pair_fields(list, 0));
    while i < request.targets.len()
        invariant
            i <= request.targets.len(),
            list == views(request.targets@),
            stream@ == start + all_pair_fields(list, i as int),
        decreases request.targets.len() - i,
    {
        add_pair(&mut stream, &request.targets[i]);
        assert(list[i as int] == request.targets@[i as int]@);
        assert(stream@ =~= start + all_pair_fields(list, i + 1));
        i += 1;
    }
    stream.finish()
}

/// What a cursor of a comparison holds.
pub open spec fn page_envelope(stream: Seq<u8>, offset: usize) -> EnvelopeView {
    EnvelopeView {
        kind: CursorKind::HistoryDiffSymbols,
        generation: 0,
        stream,
        payload: spec_u64_to_le_bytes(offset as u64),
    }
}

/// The text of a cursor that continues a comparison.
pub fn make_diff_symbols_cursor(stream_id: StreamId, offset: usize) -> (r: Result<String, Error>)
    ensures
        r is Ok,
        carries(r->Ok_0@, page_envelope(stream_id@, offset)),
{
    match ContinuationCursor::at(CursorKind::HistoryDiffSymbols, 0, stream_id, offset) {
        Ok(cursor) => Ok(cursor.encode()),
        Err(e) => Err(e),
    }
}

/// Where a comparison goes on: at its start without a cursor, and nowhere for a
/// cursor of something else or past the last target.
pub open spec fn page_offset(
    cursor: Option<ContinuationCursor>,
    targets: nat,
    stream: Seq<u8>,
) -> Result<usize, Fault> {
    match cursor {
        None => if targets == 0 {
            Err(Fault::StaleCursor)
        } else {
            Ok(0)
        },
        Some(cursor) => if cursor@.kind == CursorKind::HistoryDiffSymbols && cursor@.generation == 0
            && cursor@.stream == stream && cursor.place() < targets {
            Ok(cursor.place() as usize)
        } else {
            Err(Fault::StaleCursor)
        },
    }
}

/// Where a comparison goes on.
pub fn parse_diff_symbols_cursor(request: &ParsedDiffSymbolsRequest, stream_id: StreamId) -> (r:
    Result<usize, Error>)
    ensures
        match r {
            Ok(offset) => page_offset(request.cursor, request.targets@.len(), stream_id@) == Ok::<
                usize,
                Fault,
            >(offset),
            Err(e) => page_offset(request.cursor, request.targets@.len(), stream_id@) == Err::<
                usize,
                Fault,
            >(e@),
        },
{
    let total: usize = request.targets.len();
    let offset: usize = match request.cursor {
        None => 0,
        Some(cursor) => match cursor.position_for(CursorKind::HistoryDiffSymbols, 0, stream_id) {
            Ok(position) => position,
            Err(e) => {
                return Err(e);
            },
        },
    };
    if offset >= total {
        return Err(Error::StaleCursor);
    }
    Ok(offset)
}

/// A comparison goes on where its cursor was made to point: whatever cursor is
/// read from the text leads to that offset.
pub proof fn a_page_continues_at_its_offset(
    written: ContinuationCursor,
    read: ContinuationCursor,
    text: Seq<char>,
    stream: Seq<u8>,
    offset: usize,
    targets: nat,
)
    requires
        written@ == page_envelope(stream, offset),
        written.place() == offset,
        carries(text, written@),
        carries(text, read@),
        offset < targets,
    ensures
        page_offset(Some(read), targets, stream) == Ok::<usize, Fault>(offset),
{
    position_round_trip(written, read, text);
}

/// A cursor of one comparison does not continue another.
pub proof fn a_page_continues_only_its_comparison(
    written: ContinuationCursor,
    read: ContinuationCursor,
    text: Seq<char>,
    stream: Seq<u8>,
    other: Seq<u8>,
    offset: usize,
    targets: nat,
)
    requires
        written@ == page_envelope(stream, offset),
        carries(text, written@),
        carries(text, read@),
        stream != other,
    ensures
        page_offset(Some(read), targets, other) == Err::<usize, Fault>(Fault::StaleCursor),
{
    cursor_content_is_unique(text, written@, read@);
}

} // verus!
