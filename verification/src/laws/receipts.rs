//! What a receipt of changes tells.

use crate::change_receipt::{
    batch_gaps, by_body, by_identity, by_token, classifies, configuration_outcome,
    declares_public, invalid_json, kind_rank, modified_part, normal_signature, parse_outcome,
    BodyKeyView, GitBlobBatch, IdentityView, ParsedFile, RevisionFile,
};
use crate::model::{DiffSemanticChangeReceipt, DiffSymbolChangeKind};
use crate::ordered::text_lt;
use crate::text::{pieces, texts};
use vstd::prelude::*;

verus! {

/// A file that a revision does not have has no symbols; one that it has is known only
/// where it was parsed, in a known language and completely.
pub proof fn a_file_is_known_where_it_was_parsed(
    path: Seq<char>,
    text: Seq<char>,
    parsed: Option<ParsedFile>,
)
    ensures
        parse_outcome(path, None, parsed) is Ok,
        parse_outcome(path, None, parsed)->Ok_0.len() == 0,
        parsed is None ==> (parse_outcome(path, Some(text), parsed) matches Err(gap) && gap
            == "semantic_parse_failed"@),
        parsed is Some && (parsed->0).language is None ==> (parse_outcome(
            path,
            Some(text),
            parsed,
        ) matches Err(gap) && gap == "semantic_language_unsupported"@),
        parsed is Some && (parsed->0).language is Some && !(parsed->0).structurally_complete ==> (
        parse_outcome(path, Some(text), parsed) matches Err(gap) && gap
            == "semantic_parse_incomplete"@),
        parse_outcome(path, Some(text), parsed) is Ok ==> parsed is Some && (
        parsed->0).language is Some && (parsed->0).structurally_complete,
{
}

/// Each file that could not be read leaves a gap that names it, its revision and why.
pub proof fn an_unread_file_leaves_a_gap(side: Seq<char>, batch: GitBlobBatch, i: int)
    ensures
        0 <= i < batch.oversized_paths@.len() ==> batch_gaps(side, batch).contains(
            batch.oversized_paths@[i]@ + ":"@ + side + "_file_exceeds_semantic_limit"@,
        ),
        0 <= i < batch.total_limit_paths@.len() ==> batch_gaps(side, batch).contains(
            batch.total_limit_paths@[i]@ + ":"@ + side + "_semantic_total_bytes_limit"@,
        ),
        0 <= i < batch.invalid_utf8_paths@.len() ==> batch_gaps(side, batch).contains(
            batch.invalid_utf8_paths@[i]@ + ":"@ + side + "_semantic_content_not_utf8"@,
        ),
        0 <= i < batch.unsupported_paths@.len() ==> batch_gaps(side, batch).contains(
            batch.unsupported_paths@[i]@ + ":"@ + side + "_semantic_git_entry_unsupported"@,
        ),
        batch_gaps(side, batch).len() == batch.oversized_paths@.len()
            + batch.total_limit_paths@.len() + batch.invalid_utf8_paths@.len()
            + batch.unsupported_paths@.len(),
{
    let gaps = batch_gaps(side, batch);
    let a = batch.oversized_paths@.len() as int;
    let b = a + batch.total_limit_paths@.len();
    let c = b + batch.invalid_utf8_paths@.len();
    if 0 <= i < batch.oversized_paths@.len() {
        assert(gaps[i] == batch.oversized_paths@[i]@ + ":"@ + side
            + "_file_exceeds_semantic_limit"@);
    }
    if 0 <= i < batch.total_limit_paths@.len() {
        assert(gaps[a + i] == batch.total_limit_paths@[i]@ + ":"@ + side
            + "_semantic_total_bytes_limit"@);
    }
    if 0 <= i < batch.invalid_utf8_paths@.len() {
        assert(gaps[b + i] == batch.invalid_utf8_paths@[i]@ + ":"@ + side
            + "_semantic_content_not_utf8"@);
    }
    if 0 <= i < batch.unsupported_paths@.len() {
        assert(gaps[c + i] == batch.unsupported_paths@[i]@ + ":"@ + side
            + "_semantic_git_entry_unsupported"@);
    }
}

/// A modified symbol changed in its body alone exactly where its signature reads the same
/// but for white space.
pub proof fn a_symbol_keeps_its_signature_or_changes_it(
    before: Option<Seq<char>>,
    after: Option<Seq<char>>,
)
    ensures
        modified_part(before, after) is BodyOnly <==> normal_signature(before)
            == normal_signature(after),
        modified_part(before, after) is SignatureChanged <==> normal_signature(before)
            != normal_signature(after),
        modified_part(before, before) is BodyOnly,
{
}

/// A symbol is declared public by a word of its signature that says so, and a symbol
/// without a signature is not.
pub proof fn a_public_symbol_says_so(signature: Seq<char>)
    ensures
        declares_public(None) == false,
        pieces(signature, by_token()).contains("pub"@) ==> declares_public(Some(signature)),
        pieces(signature, by_token()).contains("public"@) ==> declares_public(Some(signature)),
        pieces(signature, by_token()).contains("export"@) ==> declares_public(Some(signature)),
        declares_public(Some(signature)) ==> exists|i: int|
            0 <= i < pieces(signature, by_token()).len() && ((#[trigger] pieces(
                signature,
                by_token(),
            )[i]) == "pub"@ || pieces(signature, by_token())[i] == "public"@ || pieces(
                signature,
                by_token(),
            )[i] == "export"@),
        by_token()(' '),
        by_token()('('),
        !by_token()('_'),
{
    let tokens = pieces(signature, by_token());
    if declares_public(Some(signature)) {
        let word = if tokens.contains("pub"@) {
            "pub"@
        } else if tokens.contains("public"@) {
            "public"@
        } else {
            "export"@
        };
        let i = choose|i: int| 0 <= i < tokens.len() && tokens[i] == word;
        assert(tokens[i] == word);
    }
}

/// At one place what was added is told before what was removed, then what was renamed,
/// and last what was modified.
pub proof fn kinds_of_change_have_their_order()
    ensures
        kind_rank(DiffSymbolChangeKind::Added) < kind_rank(DiffSymbolChangeKind::Removed),
        kind_rank(DiffSymbolChangeKind::Removed) < kind_rank(DiffSymbolChangeKind::Renamed),
        kind_rank(DiffSymbolChangeKind::Renamed) < kind_rank(DiffSymbolChangeKind::Modified),
{
}

/// Symbols are held against one another by path, then by name, then by kind, and then by
/// what they stand in, those that stand in nothing first; bodies by kind and then by
/// fingerprint.
pub proof fn symbols_are_told_apart(a: IdentityView, b: IdentityView, x: BodyKeyView, y: BodyKeyView)
    ensures
        text_lt(a.path, b.path) ==> by_identity()(a, b),
        a.path == b.path && text_lt(a.name, b.name) ==> by_identity()(a, b),
        a.path == b.path && a.name == b.name && text_lt(a.kind, b.kind) ==> by_identity()(a, b),
        a.path == b.path && a.name == b.name && a.kind == b.kind && a.parent is None
            && b.parent is Some ==> by_identity()(a, b),
        text_lt(x.kind, y.kind) ==> by_body()(x, y),
        x.kind == y.kind && text_lt(x.fingerprint, y.fingerprint) ==> by_body()(x, y),
        !by_identity()(a, a),
        !by_body()(x, x),
{
}

/// Changes are told only where both revisions could be read; where one could not, that is
/// the only gap.
pub proof fn changes_need_both_revisions(
    base: Option<GitBlobBatch>,
    head: Option<GitBlobBatch>,
    files: Seq<RevisionFile>,
    max_changes: usize,
    r: DiffSemanticChangeReceipt,
)
    requires
        classifies(base, head, files, max_changes, r),
    ensures
        base is None ==> r.symbol_changes@.len() == 0 && r.configuration_changes@.len() == 0
            && texts(r.gaps@) == seq!["base_revision_blob_read_failed"@],
        base is Some && head is None ==> r.symbol_changes@.len() == 0
            && r.configuration_changes@.len() == 0 && texts(r.gaps@)
            == seq!["head_revision_blob_read_failed"@],
        r.symbol_changes@.len() <= max_changes,
        r.configuration_changes@.len() <= max_changes,
        r.owner_tests@.len() == 0,
{
    if base is Some && head is Some {
        assert(crate::ordered::views(r.symbol_changes@).len() == r.symbol_changes@.len());
        assert(crate::ordered::views(r.configuration_changes@).len()
            == r.configuration_changes@.len());
    }
}

/// A configuration that does not parse at a revision leaves a gap that names the file and
/// the revision, and tells no change.
pub proof fn an_unread_configuration_leaves_a_gap(file: RevisionFile)
    ensures
        invalid_json(file.base) ==> configuration_outcome(file).0.len() == 0
            && configuration_outcome(file).1 == seq![
            file.path@ + ":base_configuration_json_invalid"@,
        ],
        !invalid_json(file.base) && invalid_json(file.head) ==> configuration_outcome(
            file,
        ).0.len() == 0 && configuration_outcome(file).1 == seq![
            file.path@ + ":head_configuration_json_invalid"@,
        ],
        !invalid_json(file.base) && !invalid_json(file.head) ==> configuration_outcome(
            file,
        ).1.len() == 0,
{
}

} // verus!
