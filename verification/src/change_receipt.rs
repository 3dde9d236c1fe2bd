//! Semantic classification of what changed between two revisions.

use crate::cursor::{blake3_digest, blake3_hash};
use crate::json::value::{fingerprint, json_fingerprint, JsonValue};
use crate::lists::{filter_map, filter_map_push, first_where, tally, tally_bounds, tally_push};
use crate::model::{
    ChangeView, ConfigurationView, DiffConfigurationChange, DiffConfigurationChangeKind,
    DiffOwnerTestCoverage, DiffOwnerTestStatus, DiffSemanticChangeReceipt, DiffSymbolChange,
    DiffSymbolChangeKind, DiffSymbolEvidence, DiffSymbolModification, EvidenceView, OwnerTestView,
    RelatedView,
};
use crate::model::DiffRelatedPath;
use crate::ordered::{
    remove_repeats, sort_by, sort_unique_texts, sorted_by, sorted_unique, sorting_out_repeats,
    tells_apart, text_lt, views, weak_order, without_repeats,
};
use crate::text::{
    begins, by_white, contains_text, copy_optional_text, copy_text, ends, ends_text, file_name,
    hex_of, hex_text, join_texts, joined_by, list_has, lower_text, lowered, name_of, nonempty,
    occurs, optional_text, pieces, same_text, slash_text, slashed, slice_bytes, split_text,
    starts_text, text_before, text_of, text_order, texts, trim_text, trimmed, trimmed_start, white,
    words, words_of,
};
use vstd::prelude::*;
use vstd::utf8::encode_utf8;

verus! {

/// The most source bytes of one revision that are read.
pub const MAX_SEMANTIC_TOTAL_BYTES: usize = 8388608;

/// The most symbols of both revisions that are compared.
pub const MAX_SEMANTIC_PARSED_SYMBOLS: usize = 1024;

/// The most owner tests that are listed for one path.
pub const MAX_OWNER_TESTS_PER_PATH: usize = 8;

/// A symbol as it stands in one revision.
#[derive(Debug)]
pub struct ParsedSymbol {
    pub evidence: DiffSymbolEvidence,
    pub parent: Option<String>,
    pub signature: Option<String>,
    pub content: String,
    pub body_fingerprint: Option<String>,
    pub explicitly_public: bool,
}

/// What a [`ParsedSymbol`] says.
pub struct SymbolView {
    pub evidence: EvidenceView,
    pub parent: Option<Seq<char>>,
    pub signature: Option<Seq<char>>,
    pub content: Seq<char>,
    pub body_fingerprint: Option<Seq<char>>,
    pub explicitly_public: bool,
}

impl View for ParsedSymbol {
    type V = SymbolView;

    open spec fn view(&self) -> SymbolView {
        SymbolView {
            evidence: self.evidence@,
            parent: optional_text(self.parent),
            signature: optional_text(self.signature),
            content: self.content@,
            body_fingerprint: optional_text(self.body_fingerprint),
            explicitly_public: self.explicitly_public,
        }
    }
}

/// What makes a symbol the same in two revisions.
#[derive(Debug)]
pub struct SymbolIdentity {
    pub path: String,
    pub name: String,
    pub kind: String,
    pub parent: Option<String>,
}

/// What a [`SymbolIdentity`] says.
pub struct IdentityView {
    pub path: Seq<char>,
    pub name: Seq<char>,
    pub kind: Seq<char>,
    pub parent: Option<Seq<char>>,
}

impl View for SymbolIdentity {
    type V = IdentityView;

    open spec fn view(&self) -> IdentityView {
        IdentityView {
            path: self.path@,
            name: self.name@,
            kind: self.kind@,
            parent: optional_text(self.parent),
        }
    }
}

/// The identity of a symbol.
pub open spec fn identity_of(symbol: SymbolView) -> IdentityView {
    IdentityView {
        path: symbol.evidence.path,
        name: symbol.evidence.name,
        kind: symbol.evidence.kind,
        parent: symbol.parent,
    }
}

/// A missing text comes before every other.
pub open spec fn optional_lt(a: Option<Seq<char>>, b: Option<Seq<char>>) -> bool {
    match (a, b) {
        (None, Some(_)) => true,
        (Some(x), Some(y)) => text_lt(x, y),
        _ => false,
    }
}

/// Identities in the order of their parts.
pub open spec fn by_identity() -> spec_fn(IdentityView, IdentityView) -> bool {
    |a: IdentityView, b: IdentityView|
        {
            ||| text_lt(a.path, b.path)
            ||| a.path == b.path && text_lt(a.name, b.name)
            ||| a.path == b.path && a.name == b.name && text_lt(a.kind, b.kind)
            ||| a.path == b.path && a.name == b.name && a.kind == b.kind && optional_lt(
                a.parent,
                b.parent,
            )
        }
}

/// Whether a symbol has an identity.
pub open spec fn with_identity(id: IdentityView) -> spec_fn(SymbolView) -> bool {
    |symbol: SymbolView| identity_of(symbol) == id
}

/// The identities of a list of symbols.
pub open spec fn identities(symbols: Seq<SymbolView>) -> Seq<IdentityView> {
    Seq::new(symbols.len(), |i: int| identity_of(symbols[i]))
}

/// The identities of both revisions, each once and in order.
pub open spec fn identity_list(before: Seq<SymbolView>, after: Seq<SymbolView>) -> Seq<
    IdentityView,
> {
    without_repeats(sorted_by(identities(before) + identities(after), by_identity()))
}

/// A signature with its words one space apart.
pub open spec fn normal_signature(signature: Option<Seq<char>>) -> Option<Seq<char>> {
    match signature {
        Some(text) => Some(joined_by(words(text), " "@)),
        None => None,
    }
}

/// What was modified, by the signatures.
pub open spec fn modified_part(before: Option<Seq<char>>, after: Option<Seq<char>>) -> DiffSymbolModification {
    if normal_signature(before) == normal_signature(after) {
        DiffSymbolModification::BodyOnly
    } else {
        DiffSymbolModification::SignatureChanged
    }
}

/// The change of a symbol that both revisions have once, where its content
/// differs.
pub open spec fn modified_change(before: Seq<SymbolView>, after: Seq<SymbolView>) -> spec_fn(
    IdentityView,
) -> Option<ChangeView> {
    |id: IdentityView|
        if tally(before, with_identity(id)) == 1 && tally(after, with_identity(id)) == 1 {
            let old = before[first_where(before, with_identity(id))];
            let new = after[first_where(after, with_identity(id))];
            if old.content == new.content {
                None
            } else {
                let part = modified_part(old.signature, new.signature);
                Some(
                    ChangeView {
                        kind: DiffSymbolChangeKind::Modified,
                        before: Some(old.evidence),
                        after: Some(new.evidence),
                        modification: Some(part),
                        public_contract_changed: part is SignatureChanged && (
                        old.explicitly_public || new.explicitly_public),
                    },
                )
            }
        } else {
            None
        }
}

/// The gap of an identity that a revision has more than once.
pub open spec fn ambiguity_gap(before: Seq<SymbolView>, after: Seq<SymbolView>) -> spec_fn(
    IdentityView,
) -> Option<Seq<char>> {
    |id: IdentityView|
        if tally(before, with_identity(id)) > 1 || tally(after, with_identity(id)) > 1 {
            Some(id.path + ":"@ + id.name + ":ambiguous_symbol_identity"@)
        } else {
            None
        }
}

/// Whether a symbol of one revision has no counterpart by identity: its
/// identity occurs once there and not in the other revision.
pub open spec fn left_over(own: Seq<SymbolView>, other: Seq<SymbolView>) -> spec_fn(
    SymbolView,
) -> bool {
    |symbol: SymbolView|
        tally(own, with_identity(identity_of(symbol))) <= 1 && tally(
            other,
            with_identity(identity_of(symbol)),
        ) == 0
}

/// A kind of symbol with the fingerprint of its body.
#[derive(Debug)]
pub struct BodyKey {
    pub kind: String,
    pub fingerprint: String,
}

/// What a [`BodyKey`] says.
pub struct BodyKeyView {
    pub kind: Seq<char>,
    pub fingerprint: Seq<char>,
}

impl View for BodyKey {
    type V = BodyKeyView;

    open spec fn view(&self) -> BodyKeyView {
        BodyKeyView { kind: self.kind@, fingerprint: self.fingerprint@ }
    }
}

/// Body keys in the order of their parts.
pub open spec fn by_body() -> spec_fn(BodyKeyView, BodyKeyView) -> bool {
    |a: BodyKeyView, b: BodyKeyView|
        text_lt(a.kind, b.kind) || (a.kind == b.kind && text_lt(a.fingerprint, b.fingerprint))
}

/// The body key of a left-over symbol that has a body.
pub open spec fn left_key(own: Seq<SymbolView>, other: Seq<SymbolView>) -> spec_fn(
    SymbolView,
) -> Option<BodyKeyView> {
    |symbol: SymbolView|
        if left_over(own, other)(symbol) {
            match symbol.body_fingerprint {
                Some(fingerprint) => Some(
                    BodyKeyView { kind: symbol.evidence.kind, fingerprint },
                ),
                None => None,
            }
        } else {
            None
        }
}

/// Whether a symbol is left over and has a body key.
pub open spec fn with_body(
    own: Seq<SymbolView>,
    other: Seq<SymbolView>,
    key: BodyKeyView,
) -> spec_fn(SymbolView) -> bool {
    |symbol: SymbolView| left_key(own, other)(symbol) == Some(key)
}

/// The body keys of the removed symbols, each once and in order.
pub open spec fn body_list(before: Seq<SymbolView>, after: Seq<SymbolView>) -> Seq<BodyKeyView> {
    without_repeats(sorted_by(filter_map(before, left_key(before, after)), by_body()))
}

/// Whether one symbol was removed and one added with a body, under two names.
pub open spec fn is_rename(
    before: Seq<SymbolView>,
    after: Seq<SymbolView>,
    key: BodyKeyView,
) -> bool {
    let gone = with_body(before, after, key);
    let new = with_body(after, before, key);
    &&& tally(before, gone) == 1
    &&& tally(after, new) == 1
    &&& before[first_where(before, gone)].evidence.name != after[first_where(
        after,
        new,
    )].evidence.name
}

/// The change of a symbol that was given another name.
pub open spec fn renamed_change(before: Seq<SymbolView>, after: Seq<SymbolView>) -> spec_fn(
    BodyKeyView,
) -> Option<ChangeView> {
    |key: BodyKeyView|
        if is_rename(before, after, key) {
            let old = before[first_where(before, with_body(before, after, key))];
            let new = after[first_where(after, with_body(after, before, key))];
            Some(
                ChangeView {
                    kind: DiffSymbolChangeKind::Renamed,
                    before: Some(old.evidence),
                    after: Some(new.evidence),
                    modification: None,
                    public_contract_changed: old.explicitly_public || new.explicitly_public,
                },
            )
        } else {
            None
        }
}

/// The gap of a body that more than one removed or added symbol has.
pub open spec fn rename_gap(before: Seq<SymbolView>, after: Seq<SymbolView>) -> spec_fn(
    BodyKeyView,
) -> Option<Seq<char>> {
    |key: BodyKeyView|
        if tally(after, with_body(after, before, key)) > 0 && !(tally(
            before,
            with_body(before, after, key),
        ) == 1 && tally(after, with_body(after, before, key)) == 1) {
            Some("ambiguous_symbol_rename_fingerprint"@)
        } else {
            None
        }
}

/// Whether a symbol of the earlier revision was only given another name.
pub open spec fn renamed_away(before: Seq<SymbolView>, after: Seq<SymbolView>) -> spec_fn(
    SymbolView,
) -> bool {
    |symbol: SymbolView|
        match left_key(before, after)(symbol) {
            Some(key) => is_rename(before, after, key),
            None => false,
        }
}

/// Whether a symbol of the later revision only got another name.
pub open spec fn renamed_here(before: Seq<SymbolView>, after: Seq<SymbolView>) -> spec_fn(
    SymbolView,
) -> bool {
    |symbol: SymbolView|
        match left_key(after, before)(symbol) {
            Some(key) => is_rename(before, after, key),
            None => false,
        }
}

/// The change of a symbol that is gone.
pub open spec fn removed_change(before: Seq<SymbolView>, after: Seq<SymbolView>) -> spec_fn(
    SymbolView,
) -> Option<ChangeView> {
    |symbol: SymbolView|
        if left_over(before, after)(symbol) && !renamed_away(before, after)(symbol) {
            Some(
                ChangeView {
                    kind: DiffSymbolChangeKind::Removed,
                    before: Some(symbol.evidence),
                    after: None,
                    modification: None,
                    public_contract_changed: symbol.explicitly_public,
                },
            )
        } else {
            None
        }
}

/// The change of a symbol that is new.
pub open spec fn added_change(before: Seq<SymbolView>, after: Seq<SymbolView>) -> spec_fn(
    SymbolView,
) -> Option<ChangeView> {
    |symbol: SymbolView|
        if left_over(after, before)(symbol) && !renamed_here(before, after)(symbol) {
            Some(
                ChangeView {
                    kind: DiffSymbolChangeKind::Added,
                    before: None,
                    after: Some(symbol.evidence),
                    modification: None,
                    public_contract_changed: symbol.explicitly_public,
                },
            )
        } else {
            None
        }
}

/// What a change is sorted by.
pub struct ChangeKey {
    pub path: Seq<char>,
    pub start_line: usize,
    pub name: Seq<char>,
    pub kind: u8,
}

/// The place of a kind of change among those of one symbol.
pub open spec fn kind_rank(kind: DiffSymbolChangeKind) -> u8 {
    match kind {
        DiffSymbolChangeKind::Added => 0,
        DiffSymbolChangeKind::Removed => 1,
        DiffSymbolChangeKind::Renamed => 2,
        DiffSymbolChangeKind::Modified => 3,
    }
}

/// What a change is sorted by: where it stands now, or where it stood.
pub open spec fn change_key(change: ChangeView) -> ChangeKey {
    let evidence = if change.after is Some {
        change.after
    } else {
        change.before
    };
    match evidence {
        Some(item) => ChangeKey {
            path: item.path,
            start_line: item.start_line,
            name: item.name,
            kind: kind_rank(change.kind),
        },
        None => ChangeKey {
            path: Seq::empty(),
            start_line: 0,
            name: Seq::empty(),
            kind: kind_rank(change.kind),
        },
    }
}

/// Changes in the order of their keys.
pub open spec fn by_change() -> spec_fn(ChangeView, ChangeView) -> bool {
    |x: ChangeView, y: ChangeView|
        {
            let a = change_key(x);
            let b = change_key(y);
            ||| text_lt(a.path, b.path)
            ||| a.path == b.path && a.start_line < b.start_line
            ||| a.path == b.path && a.start_line == b.start_line && text_lt(a.name, b.name)
            ||| a.path == b.path && a.start_line == b.start_line && a.name == b.name && a.kind
                < b.kind
        }
}

/// All changes between two revisions.
pub open spec fn all_changes(before: Seq<SymbolView>, after: Seq<SymbolView>) -> Seq<ChangeView> {
    sorted_by(
        filter_map(identity_list(before, after), modified_change(before, after)) + filter_map(
            body_list(before, after),
            renamed_change(before, after),
        ) + filter_map(before, removed_change(before, after)) + filter_map(
            after,
            added_change(before, after),
        ),
        by_change(),
    )
}

/// All gaps in the comparison of two revisions.
pub open spec fn all_gaps(before: Seq<SymbolView>, after: Seq<SymbolView>) -> Seq<Seq<char>> {
    filter_map(identity_list(before, after), ambiguity_gap(before, after)) + filter_map(
        body_list(before, after),
        rename_gap(before, after),
    )
}

/// The identity of a symbol.
pub fn symbol_identity(symbol: &ParsedSymbol) -> (r: SymbolIdentity)
    ensures
        r@ == identity_of(symbol@),
{
    SymbolIdentity {
        path: symbol.evidence.path.clone(),
        name: symbol.evidence.name.clone(),
        kind: symbol.evidence.kind.clone(),
        parent: copy_optional_text(&symbol.parent),
    }
}

fn precedes(a: &str, b: &str) -> (r: bool)
    ensures
        r == text_lt(a@, b@),
{
    text_before(a, b) && !same_text(a, b)
}

fn same_optional(a: &Option<String>, b: &Option<String>) -> (r: bool)
    ensures
        r == (optional_text(*a) == optional_text(*b)),
{
    match (a, b) {
        (None, None) => true,
        (Some(x), Some(y)) => same_text(x.as_str(), y.as_str()),
        _ => false,
    }
}

fn identity_precedes(a: &SymbolIdentity, b: &SymbolIdentity) -> (r: bool)
    ensures
        r == by_identity()(a@, b@),
{
    if !same_text(a.path.as_str(), b.path.as_str()) {
        return precedes(a.path.as_str(), b.path.as_str());
    }
    if !same_text(a.name.as_str(), b.name.as_str()) {
        return precedes(a.name.as_str(), b.name.as_str());
    }
    if !same_text(a.kind.as_str(), b.kind.as_str()) {
        return precedes(a.kind.as_str(), b.kind.as_str());
    }
    match (&a.parent, &b.parent) {
        (None, Some(_)) => true,
        (Some(x), Some(y)) => precedes(x.as_str(), y.as_str()),
        _ => false,
    }
}

fn same_identity(a: &SymbolIdentity, b: &SymbolIdentity) -> (r: bool)
    ensures
        r == (a@ == b@),
{
    same_text(a.path.as_str(), b.path.as_str()) && same_text(a.name.as_str(), b.name.as_str())
        && same_text(a.kind.as_str(), b.kind.as_str()) && same_optional(&a.parent, &b.parent)
}

fn body_precedes(a: &BodyKey, b: &BodyKey) -> (r: bool)
    ensures
        r == by_body()(a@, b@),
{
    if !same_text(a.kind.as_str(), b.kind.as_str()) {
        return precedes(a.kind.as_str(), b.kind.as_str());
    }
    precedes(a.fingerprint.as_str(), b.fingerprint.as_str())
}

fn same_body(a: &BodyKey, b: &BodyKey) -> (r: bool)
    ensures
        r == (a@ == b@),
{
    same_text(a.kind.as_str(), b.kind.as_str()) && same_text(
        a.fingerprint.as_str(),
        b.fingerprint.as_str(),
    )
}

fn has_identity(symbol: &ParsedSymbol, id: &SymbolIdentity) -> (r: bool)
    ensures
        r == with_identity(id@)(symbol@),
{
    same_text(symbol.evidence.path.as_str(), id.path.as_str()) && same_text(
        symbol.evidence.name.as_str(),
        id.name.as_str(),
    ) && same_text(symbol.evidence.kind.as_str(), id.kind.as_str()) && same_optional(
        &symbol.parent,
        &id.parent,
    )
}

/// How many symbols have an identity, and the first of them.
fn find_identity(symbols: &Vec<ParsedSymbol>, id: &SymbolIdentity) -> (r: (usize, usize))
    ensures
        r.0 == tally(views(symbols@), with_identity(id@)),
        r.0 > 0 ==> r.1 == first_where(views(symbols@), with_identity(id@)) && r.1 < symbols.len(),
{
    let ghost all = views(symbols@);
    let ghost p = with_identity(id@);
    let mut count: usize = 0;
    let mut first: usize = 0;
    let mut i: usize = 0;
    while i < symbols.len()
        invariant
            i <= symbols.len(),
            all == views(symbols@),
            p == with_identity(id@),
            count == tally(all.take(i as int), p),
            count <= i,
            count > 0 ==> first == first_where(all.take(i as int), p) && first < i,
        decreases symbols.len() - i,
    {
        proof {
            tally_push(all, p, i as int);
            tally_bounds(all.take(i as int), p);
            assert(all.take(i + 1).drop_last() =~= all.take(i as int));
            assert(all[i as int] == symbols@[i as int]@);
        }
        if has_identity(&symbols[i], id) {
            if count == 0 {
                first = i;
            }
            count += 1;
        }
        i += 1;
    }
    assert(all.take(all.len() as int) =~= all);
    (count, first)
}

/// Which symbols have no counterpart by identity.
fn left_flags(own: &Vec<ParsedSymbol>, other: &Vec<ParsedSymbol>) -> (r: Vec<bool>)
    ensures
        r@.len() == own@.len(),
        forall|i: int|
            0 <= i < own@.len() ==> #[trigger] r@[i] == left_over(views(own@), views(other@))(
                own@[i]@,
            ),
{
    let mut flags: Vec<bool> = Vec::new();
    let mut i: usize = 0;
    while i < own.len()
        invariant
            i <= own.len(),
            flags@.len() == i,
            forall|k: int|
                0 <= k < i ==> #[trigger] flags@[k] == left_over(views(own@), views(other@))(
                    own@[k]@,
                ),
        decreases own.len() - i,
    {
        let id = symbol_identity(&own[i]);
        let (own_count, _) = find_identity(own, &id);
        let (other_count, _) = find_identity(other, &id);
        flags.push(own_count <= 1 && other_count == 0);
        i += 1;
    }
    flags
}

/// How many left-over symbols have a body, and the first of them.
fn find_body(
    own: &Vec<ParsedSymbol>,
    flags: &Vec<bool>,
    key: &BodyKey,
    Ghost(other): Ghost<Seq<SymbolView>>,
) -> (r: (usize, usize))
    requires
        flags@.len() == own@.len(),
        forall|i: int|
            0 <= i < own@.len() ==> #[trigger] flags@[i] == left_over(views(own@), other)(
                own@[i]@,
            ),
    ensures
        r.0 == tally(views(own@), with_body(views(own@), other, key@)),
        r.0 > 0 ==> r.1 == first_where(views(own@), with_body(views(own@), other, key@)) && r.1
            < own.len(),
{
    let ghost all = views(own@);
    let ghost p = with_body(all, other, key@);
    let mut count: usize = 0;
    let mut first: usize = 0;
    let mut i: usize = 0;
    while i < own.len()
        invariant
            i <= own.len(),
            all == views(own@),
            p == with_body(all, other, key@),
            flags@.len() == own@.len(),
            forall|k: int|
                0 <= k < own@.len() ==> #[trigger] flags@[k] == left_over(all, other)(own@[k]@),
            count == tally(all.take(i as int), p),
            count <= i,
            count > 0 ==> first == first_where(all.take(i as int), p) && first < i,
        decreases own.len() - i,
    {
        proof {
            tally_push(all, p, i as int);
            tally_bounds(all.take(i as int), p);
            assert(all.take(i + 1).drop_last() =~= all.take(i as int));
            assert(all[i as int] == own@[i as int]@);
            assert(flags@[i as int] == left_over(all, other)(own@[i as int]@));
        }
        let symbol = &own[i];
        let mut matched = false;
        if flags[i] {
            if let Some(fingerprint) = &symbol.body_fingerprint {
                matched = same_text(fingerprint.as_str(), key.fingerprint.as_str()) && same_text(
                    symbol.evidence.kind.as_str(),
                    key.kind.as_str(),
                );
            }
        }
        assert(matched == p(own@[i as int]@));
        if matched {
            if count == 0 {
                first = i;
            }
            count += 1;
        }
        i += 1;
    }
    assert(all.take(all.len() as int) =~= all);
    (count, first)
}

fn identities_of(symbols: &Vec<ParsedSymbol>, out: &mut Vec<SymbolIdentity>)
    ensures
        views(final(out)@) == views(old(out)@) + identities(views(symbols@)),
{
    let ghost start = views(out@);
    let ghost all = views(symbols@);
    let mut i: usize = 0;
    assert(views(out@) =~= start + identities(all).take(0));
    while i < symbols.len()
        invariant
            i <= symbols.len(),
            all == views(symbols@),
            views(out@) == start + identities(all).take(i as int),
        decreases symbols.len() - i,
    {
        let id = symbol_identity(&symbols[i]);
        let ghost before = views(out@);
        let ghost added = id@;
        out.push(id);
        assert(views(out@) =~= before.push(added));
        assert(views(out@) =~= start + identities(all).take(i + 1));
        i += 1;
    }
    assert(identities(all).take(all.len() as int) =~= identities(all));
}

/// The modifications, and the gaps of ambiguous identities.
fn classify_identities(
    before: &Vec<ParsedSymbol>,
    after: &Vec<ParsedSymbol>,
    gaps: &mut Vec<String>,
) -> (r: Vec<DiffSymbolChange>)
    ensures
        views(r@) == filter_map(
            identity_list(views(before@), views(after@)),
            modified_change(views(before@), views(after@)),
        ),
        texts(final(gaps)@) == texts(old(gaps)@) + filter_map(
            identity_list(views(before@), views(after@)),
            ambiguity_gap(views(before@), views(after@)),
        ),
{
    let ghost b = views(before@);
    let ghost a = views(after@);
    let ghost start = texts(gaps@);
    let mut all: Vec<SymbolIdentity> = Vec::new();
    identities_of(before, &mut all);
    identities_of(after, &mut all);
    assert(views(all@) =~= identities(b) + identities(a));
    let ids = remove_repeats(
        sort_by(all, identity_precedes, Ghost(by_identity())),
        same_identity,
    );
    let ghost list = views(ids@);
    let mut changes: Vec<DiffSymbolChange> = Vec::new();
    let mut i: usize = 0;
    assert(views(changes@) =~= filter_map(list.take(0), modified_change(b, a)));
    assert(texts(gaps@) =~= start + filter_map(list.take(0), ambiguity_gap(b, a)));
    while i < ids.len()
        invariant
            i <= ids.len(),
            list == views(ids@),
            b == views(before@),
            a == views(after@),
            views(changes@) == filter_map(list.take(i as int), modified_change(b, a)),
            texts(gaps@) == start + filter_map(list.take(i as int), ambiguity_gap(b, a)),
        decreases ids.len() - i,
    {
        let id = &ids[i];
        proof {
            assert(list[i as int] == id@);
            filter_map_push(list, modified_change(b, a), i as int);
            filter_map_push(list, ambiguity_gap(b, a), i as int);
        }
        let ghost known = views(changes@);
        let ghost noted = texts(gaps@);
        let (before_count, before_index) = find_identity(before, id);
        let (after_count, after_index) = find_identity(after, id);
        if before_count > 1 || after_count > 1 {
            let mut gap = id.path.clone();
            gap.push_str(":");
            gap.push_str(id.name.as_str());
            gap.push_str(":ambiguous_symbol_identity");
            let ghost text = gap@;
            gaps.push(gap);
            assert(texts(gaps@) =~= noted.push(text));
        } else if before_count == 1 && after_count == 1 {
            let old = &before[before_index];
            let new = &after[after_index];
            assert(b[before_index as int] == old@);
            assert(a[after_index as int] == new@);
            if !same_text(old.content.as_str(), new.content.as_str()) {
                let part = modification(&old.signature, &new.signature);
                let change = DiffSymbolChange {
                    kind: DiffSymbolChangeKind::Modified,
                    before: Some(old.evidence.duplicate()),
                    after: Some(new.evidence.duplicate()),
                    modification: Some(part),
                    public_contract_changed: part == DiffSymbolModification::SignatureChanged && (
                    old.explicitly_public || new.explicitly_public),
                };
                let ghost added = change@;
                changes.push(change);
                assert(views(changes@) =~= known.push(added));
            }
        }
        assert(texts(gaps@) =~= start + filter_map(list.take(i + 1), ambiguity_gap(b, a)));
        i += 1;
    }
    assert(list.take(list.len() as int) =~= list);
    changes
}

/// The body keys of left-over symbols.
fn body_keys(
    own: &Vec<ParsedSymbol>,
    flags: &Vec<bool>,
    Ghost(other): Ghost<Seq<SymbolView>>,
) -> (r: Vec<BodyKey>)
    requires
        flags@.len() == own@.len(),
        forall|i: int|
            0 <= i < own@.len() ==> #[trigger] flags@[i] == left_over(views(own@), other)(
                own@[i]@,
            ),
    ensures
        views(r@) == filter_map(views(own@), left_key(views(own@), other)),
{
    let ghost all = views(own@);
    let ghost f = left_key(all, other);
    let mut keys: Vec<BodyKey> = Vec::new();
    let mut i: usize = 0;
    assert(views(keys@) =~= filter_map(all.take(0), f));
    while i < own.len()
        invariant
            i <= own.len(),
            all == views(own@),
            f == left_key(all, other),
            flags@.len() == own@.len(),
            forall|k: int|
                0 <= k < own@.len() ==> #[trigger] flags@[k] == left_over(all, other)(own@[k]@),
            views(keys@) == filter_map(all.take(i as int), f),
        decreases own.len() - i,
    {
        proof {
            assert(all[i as int] == own@[i as int]@);
            assert(flags@[i as int] == left_over(all, other)(own@[i as int]@));
            filter_map_push(all, f, i as int);
        }
        let ghost known = views(keys@);
        if flags[i] {
            if let Some(fingerprint) = &own[i].body_fingerprint {
                let key = BodyKey {
                    kind: own[i].evidence.kind.clone(),
                    fingerprint: fingerprint.clone(),
                };
                let ghost added = key@;
                keys.push(key);
                assert(views(keys@) =~= known.push(added));
            }
        }
        i += 1;
    }
    assert(all.take(all.len() as int) =~= all);
    keys
}

/// Whether a body stands for a symbol that was given another name.
fn rename_of(
    before: &Vec<ParsedSymbol>,
    before_left: &Vec<bool>,
    after: &Vec<ParsedSymbol>,
    after_left: &Vec<bool>,
    key: &BodyKey,
) -> (r: (bool, bool, usize, usize))
    requires
        before_left@.len() == before@.len(),
        forall|i: int|
            0 <= i < before@.len() ==> #[trigger] before_left@[i] == left_over(
                views(before@),
                views(after@),
            )(before@[i]@),
        after_left@.len() == after@.len(),
        forall|i: int|
            0 <= i < after@.len() ==> #[trigger] after_left@[i] == left_over(
                views(after@),
                views(before@),
            )(after@[i]@),
    ensures
        r.0 == is_rename(views(before@), views(after@), key@),
        r.1 == (rename_gap(views(before@), views(after@))(key@) is Some),
        r.0 ==> {
            &&& r.2 == first_where(
                views(before@),
                with_body(views(before@), views(after@), key@),
            )
            &&& r.3 == first_where(views(after@), with_body(views(after@), views(before@), key@))
            &&& r.2 < before@.len()
            &&& r.3 < after@.len()
        },
{
    let (removed, before_index) = find_body(before, before_left, key, Ghost(views(after@)));
    let (added, after_index) = find_body(after, after_left, key, Ghost(views(before@)));
    let single = removed == 1 && added == 1;
    let renamed = single && !same_text(
        before[before_index].evidence.name.as_str(),
        after[after_index].evidence.name.as_str(),
    );
    (renamed, added > 0 && !single, before_index, after_index)
}

/// Compares the symbols of two revisions: which were modified, renamed, removed
/// and added.
#[verifier::rlimit(60)]
pub fn classify_symbols(
    before: &Vec<ParsedSymbol>,
    after: &Vec<ParsedSymbol>,
    gaps: &mut Vec<String>,
) -> (r: Vec<DiffSymbolChange>)
    ensures
        views(r@) == all_changes(views(before@), views(after@)),
        texts(final(gaps)@) == texts(old(gaps)@) + all_gaps(views(before@), views(after@)),
{
    let ghost b = views(before@);
    let ghost a = views(after@);
    let ghost start = texts(gaps@);
    let mut changes = classify_identities(before, after, gaps);
    let ghost modified = views(changes@);
    let ghost noted = texts(gaps@);
    let before_left = left_flags(before, after);
    let after_left = left_flags(after, before);
    let keys = remove_repeats(
        sort_by(body_keys(before, &before_left, Ghost(a)), body_precedes, Ghost(by_body())),
        same_body,
    );
    let ghost list = views(keys@);
    let mut i: usize = 0;
    assert(views(changes@) =~= modified + filter_map(list.take(0), renamed_change(b, a)));
    assert(texts(gaps@) =~= noted + filter_map(list.take(0), rename_gap(b, a)));
    while i < keys.len()
        invariant
            i <= keys.len(),
            list == views(keys@),
            b == views(before@),
            a == views(after@),
            before_left@.len() == before@.len(),
            forall|k: int|
                0 <= k < before@.len() ==> #[trigger] before_left@[k] == left_over(b, a)(
                    before@[k]@,
                ),
            after_left@.len() == after@.len(),
            forall|k: int|
                0 <= k < after@.len() ==> #[trigger] after_left@[k] == left_over(a, b)(
                    after@[k]@,
                ),
            views(changes@) == modified + filter_map(list.take(i as int), renamed_change(b, a)),
            texts(gaps@) == noted + filter_map(list.take(i as int), rename_gap(b, a)),
        decreases keys.len() - i,
    {
        proof {
            assert(list[i as int] == keys@[i as int]@);
            filter_map_push(list, renamed_change(b, a), i as int);
            filter_map_push(list, rename_gap(b, a), i as int);
        }
        let ghost known = views(changes@);
        let ghost said = texts(gaps@);
        let (renamed, ambiguous, before_index, after_index) = rename_of(
            before,
            &before_left,
            after,
            &after_left,
            &keys[i],
        );
        if ambiguous {
            gaps.push(copy_text("ambiguous_symbol_rename_fingerprint"));
            assert(texts(gaps@) =~= said.push("ambiguous_symbol_rename_fingerprint"@));
        }
        if renamed {
            let old = &before[before_index];
            let new = &after[after_index];
            assert(b[before_index as int] == old@);
            assert(a[after_index as int] == new@);
            let change = DiffSymbolChange {
                kind: DiffSymbolChangeKind::Renamed,
                before: Some(old.evidence.duplicate()),
                after: Some(new.evidence.duplicate()),
                modification: None,
                public_contract_changed: old.explicitly_public || new.explicitly_public,
            };
            let ghost added = change@;
            changes.push(change);
            assert(views(changes@) =~= known.push(added));
        }
        assert(views(changes@) =~= modified + filter_map(list.take(i + 1), renamed_change(b, a)));
        assert(texts(gaps@) =~= noted + filter_map(list.take(i + 1), rename_gap(b, a)));
        i += 1;
    }
    assert(list.take(list.len() as int) =~= list);
    let ghost so_far = views(changes@);
    let mut j: usize = 0;
    assert(views(changes@) =~= so_far + filter_map(b.take(0), removed_change(b, a)));
    while j < before.len()
        invariant
            j <= before.len(),
            b == views(before@),
            a == views(after@),
            before_left@.len() == before@.len(),
            forall|k: int|
                0 <= k < before@.len() ==> #[trigger] before_left@[k] == left_over(b, a)(
                    before@[k]@,
                ),
            after_left@.len() == after@.len(),
            forall|k: int|
                0 <= k < after@.len() ==> #[trigger] after_left@[k] == left_over(a, b)(
                    after@[k]@,
                ),
            views(changes@) == so_far + filter_map(b.take(j as int), removed_change(b, a)),
        decreases before.len() - j,
    {
        let symbol = &before[j];
        proof {
            assert(b[j as int] == symbol@);
            assert(before_left@[j as int] == left_over(b, a)(before@[j as int]@));
            filter_map_push(b, removed_change(b, a), j as int);
        }
        let ghost known = views(changes@);
        let mut renamed = false;
        if before_left[j] {
            if let Some(fingerprint) = &symbol.body_fingerprint {
                let key = BodyKey {
                    kind: symbol.evidence.kind.clone(),
                    fingerprint: fingerprint.clone(),
                };
                let (found, _, _, _) = rename_of(before, &before_left, after, &after_left, &key);
                renamed = found;
            }
        }
        assert(renamed == renamed_away(b, a)(symbol@));
        if before_left[j] && !renamed {
            let change = DiffSymbolChange {
                kind: DiffSymbolChangeKind::Removed,
                before: Some(symbol.evidence.duplicate()),
                after: None,
                modification: None,
                public_contract_changed: symbol.explicitly_public,
            };
            let ghost added = change@;
            changes.push(change);
            assert(views(changes@) =~= known.push(added));
        }
        assert(views(changes@) =~= so_far + filter_map(b.take(j + 1), removed_change(b, a)));
        j += 1;
    }
    assert(b.take(b.len() as int) =~= b);
    let ghost with_removed = views(changes@);
    let mut m: usize = 0;
    assert(views(changes@) =~= with_removed + filter_map(a.take(0), added_change(b, a)));
    while m < after.len()
        invariant
            m <= after.len(),
            b == views(before@),
            a == views(after@),
            before_left@.len() == before@.len(),
            forall|k: int|
                0 <= k < before@.len() ==> #[trigger] before_left@[k] == left_over(b, a)(
                    before@[k]@,
                ),
            after_left@.len() == after@.len(),
            forall|k: int|
                0 <= k < after@.len() ==> #[trigger] after_left@[k] == left_over(a, b)(
                    after@[k]@,
                ),
            views(changes@) == with_removed + filter_map(a.take(m as int), added_change(b, a)),
        decreases after.len() - m,
    {
        let symbol = &after[m];
        proof {
            assert(a[m as int] == symbol@);
            assert(after_left@[m as int] == left_over(a, b)(after@[m as int]@));
            filter_map_push(a, added_change(b, a), m as int);
        }
        let ghost known = views(changes@);
        let mut renamed = false;
        if after_left[m] {
            if let Some(fingerprint) = &symbol.body_fingerprint {
                let key = BodyKey {
                    kind: symbol.evidence.kind.clone(),
                    fingerprint: fingerprint.clone(),
                };
                let (found, _, _, _) = rename_of(before, &before_left, after, &after_left, &key);
                renamed = found;
            }
        }
        assert(renamed == renamed_here(b, a)(symbol@));
        if after_left[m] && !renamed {
            let change = DiffSymbolChange {
                kind: DiffSymbolChangeKind::Added,
                before: None,
                after: Some(symbol.evidence.duplicate()),
                modification: None,
                public_contract_changed: symbol.explicitly_public,
            };
            let ghost added = change@;
            changes.push(change);
            assert(views(changes@) =~= known.push(added));
        }
        assert(views(changes@) =~= with_removed + filter_map(a.take(m + 1), added_change(b, a)));
        m += 1;
    }
    assert(a.take(a.len() as int) =~= a);
    assert(texts(gaps@) =~= start + all_gaps(b, a));
    sort_by(changes, change_precedes, Ghost(by_change()))
}

/// What a change is sorted by: path, line, name and kind.
pub fn change_sort_key(change: &DiffSymbolChange) -> (r: (String, usize, String, u8))
    ensures
        r.0@ == change_key(change@).path,
        r.1 == change_key(change@).start_line,
        r.2@ == change_key(change@).name,
        r.3 == change_key(change@).kind,
{
    let kind: u8 = match change.kind {
        DiffSymbolChangeKind::Added => 0,
        DiffSymbolChangeKind::Removed => 1,
        DiffSymbolChangeKind::Renamed => 2,
        DiffSymbolChangeKind::Modified => 3,
    };
    match (&change.after, &change.before) {
        (Some(item), _) => (item.path.clone(), item.start_line, item.name.clone(), kind),
        (None, Some(item)) => (item.path.clone(), item.start_line, item.name.clone(), kind),
        (None, None) => (String::new(), 0, String::new(), kind),
    }
}

fn change_precedes(x: &DiffSymbolChange, y: &DiffSymbolChange) -> (r: bool)
    ensures
        r == by_change()(x@, y@),
{
    let a = change_sort_key(x);
    let b = change_sort_key(y);
    if !same_text(a.0.as_str(), b.0.as_str()) {
        return precedes(a.0.as_str(), b.0.as_str());
    }
    if a.1 != b.1 {
        return a.1 < b.1;
    }
    if !same_text(a.2.as_str(), b.2.as_str()) {
        return precedes(a.2.as_str(), b.2.as_str());
    }
    a.3 < b.3
}

/// What was modified, by the signatures.
pub fn modification(before_signature: &Option<String>, after_signature: &Option<String>) -> (r:
    DiffSymbolModification)
    ensures
        r == modified_part(optional_text(*before_signature), optional_text(*after_signature)),
{
    if same_optional(&normalize_signature(before_signature), &normalize_signature(after_signature)) {
        DiffSymbolModification::BodyOnly
    } else {
        DiffSymbolModification::SignatureChanged
    }
}

/// A signature with its words one space apart.
pub fn normalize_signature(signature: &Option<String>) -> (r: Option<String>)
    ensures
        optional_text(r) == normal_signature(optional_text(*signature)),
{
    match signature {
        Some(text) => Some(join_texts(&words_of(text.as_str()), " ")),
        None => None,
    }
}

/// Separation by white space and opening brackets.
pub open spec fn by_token() -> spec_fn(char) -> bool {
    |c: char| white(c) || c == '('
}

fn is_token_end(c: char) -> (r: bool)
    ensures
        r == by_token()(c),
{
    crate::text::is_white(c) || c == '('
}

/// Whether a signature has a word that makes it public.
pub open spec fn declares_public(signature: Option<Seq<char>>) -> bool {
    match signature {
        Some(text) => {
            let tokens = pieces(text, by_token());
            tokens.contains("pub"@) || tokens.contains("public"@) || tokens.contains("export"@)
        },
        None => false,
    }
}

/// Whether a signature has a word that makes it public.
pub fn explicitly_public(signature: &Option<String>) -> (r: bool)
    ensures
        r == declares_public(optional_text(*signature)),
{
    match signature {
        Some(text) => {
            let tokens = split_text(text.as_str(), is_token_end, Ghost(by_token()));
            list_has(&tokens, "pub") || list_has(&tokens, "public") || list_has(&tokens, "export")
        },
        None => false,
    }
}

/// The fingerprint of a text, which this library defines as its hexadecimal BLAKE3
/// digest.
pub open spec fn text_fingerprint(text: Seq<char>) -> Seq<char> {
    hex_text(blake3_digest(encode_utf8(text)))
}

/// The fingerprint of a text, which this library defines as its hexadecimal BLAKE3
/// digest.
pub fn fingerprint_text(text: &str) -> (r: String)
    ensures
        r@ == text_fingerprint(text@),
{
    let digest = blake3_hash(text.as_bytes());
    hex_of(digest.as_slice())
}

/// The body of a symbol: its content with words one space apart, without the
/// signature that it starts with.
pub open spec fn body_of(content: Seq<char>, signature: Option<Seq<char>>) -> Seq<char> {
    let plain = joined_by(words(content), " "@);
    match normal_signature(signature) {
        Some(head) => if begins(plain, head) {
            trimmed(plain.subrange(head.len() as int, plain.len() as int))
        } else {
            plain
        },
        None => plain,
    }
}

/// The fingerprint of a body that is not empty.
pub open spec fn body_fingerprint(content: Seq<char>, signature: Option<Seq<char>>) -> Option<
    Seq<char>,
> {
    let body = body_of(content, signature);
    if body.len() == 0 {
        None
    } else {
        Some(text_fingerprint(body))
    }
}

/// The fingerprint of a symbol's body, where it has one.
pub fn symbol_body_fingerprint(content: &str, signature: &Option<String>) -> (r: Option<String>)
    ensures
        optional_text(r) == body_fingerprint(content@, optional_text(*signature)),
{
    let plain = join_texts(&words_of(content), " ");
    let body = match normalize_signature(signature) {
        Some(head) => {
            if starts_text(plain.as_str(), head.as_str()) {
                let chars = crate::text::chars_of(plain.as_str());
                let skip: usize = crate::text::chars_of(head.as_str()).len();
                let rest = text_of(chars.as_slice(), skip, chars.len());
                trim_text(rest.as_str())
            } else {
                plain
            }
        },
        None => plain,
    };
    if body.as_str().is_empty() {
        None
    } else {
        Some(fingerprint_text(body.as_str()))
    }
}

/// Whether a file is a JSON configuration that is compared key by key.
pub open spec fn json_configuration(path: Seq<char>) -> bool {
    let name = lowered(file_name(path));
    ||| name == "package.json"@
    ||| name == "deno.json"@
    ||| name == "composer.json"@
    ||| name == "config.json"@
    ||| name == "settings.json"@
    ||| begins(name, "tsconfig"@) && ends(name, ".json"@)
    ||| ends(name, ".config.json"@)
    ||| begins(name, "."@) && ends(name, "rc.json"@)
}

/// Whether a file is a JSON configuration that is compared key by key.
pub fn recognized_json_configuration(path: &str) -> (r: bool)
    ensures
        r == json_configuration(path@),
{
    let name = lower_text(name_of(path).as_str());
    let name = name.as_str();
    same_text(name, "package.json") || same_text(name, "deno.json") || same_text(
        name,
        "composer.json",
    ) || same_text(name, "config.json") || same_text(name, "settings.json") || (starts_text(
        name,
        "tsconfig",
    ) && ends_text(name, ".json")) || ends_text(name, ".config.json") || (starts_text(name, ".")
        && ends_text(name, "rc.json"))
}

/// Whether a path looks like that of a test.
pub open spec fn test_like(path: Seq<char>) -> bool {
    let low = lowered(slashed(path));
    ||| begins(low, "test"@)
    ||| begins(low, "spec"@)
    ||| occurs(low, "/test"@)
    ||| occurs(low, "/spec"@)
}

/// Whether a path looks like that of a test.
pub fn looks_like_test_path(path: &str) -> (r: bool)
    ensures
        r == test_like(path@),
{
    let low = lower_text(slash_text(path).as_str());
    starts_text(low.as_str(), "test") || starts_text(low.as_str(), "spec") || contains_text(
        low.as_str(),
        "/test",
    ) || contains_text(low.as_str(), "/spec")
}

proof fn lemma_nothing_left<A, B>(list: Seq<A>, f: spec_fn(A) -> Option<B>)
    requires
        forall|i: int| 0 <= i < list.len() ==> f(#[trigger] list[i]) is None,
    ensures
        filter_map(list, f) == Seq::<B>::empty(),
    decreases list.len(),
{
    if list.len() > 0 {
        let front = list.drop_last();
        assert forall|i: int| 0 <= i < front.len() implies f(#[trigger] front[i]) is None by {
            assert(front[i] == list[i]);
        }
        lemma_nothing_left(front, f);
        assert(f(list[list.len() - 1]) is None);
    }
}

proof fn lemma_identity_order()
    ensures
        weak_order(by_identity()),
        tells_apart(by_identity()),
{
    let before = by_identity();
    assert forall|a: IdentityView, b: IdentityView| #[trigger] before(a, b) implies !before(
        b,
        a,
    ) by {
        text_order(a.path, b.path, a.path);
        text_order(a.name, b.name, a.name);
        text_order(a.kind, b.kind, a.kind);
        if a.parent is Some && b.parent is Some {
            text_order(a.parent->0, b.parent->0, a.parent->0);
        }
    }
    assert forall|a: IdentityView, b: IdentityView| !(#[trigger] before(a, b)) && !before(
        b,
        a,
    ) implies a == b by {
        text_order(a.path, b.path, a.path);
        text_order(a.name, b.name, a.name);
        text_order(a.kind, b.kind, a.kind);
        if a.parent is Some && b.parent is Some {
            text_order(a.parent->0, b.parent->0, a.parent->0);
        }
    }
    assert forall|a: IdentityView, b: IdentityView, c: IdentityView|
        !(#[trigger] before(a, b)) && !(#[trigger] before(b, c)) implies !before(a, c) by {
        lemma_identity_follows(a, b, c);
    }
}

proof fn lemma_identity_follows(a: IdentityView, b: IdentityView, c: IdentityView)
    requires
        !by_identity()(a, b),
        !by_identity()(b, c),
    ensures
        !by_identity()(a, c),
{
    text_order(c.path, b.path, a.path);
    text_order(a.path, b.path, c.path);
    text_order(b.path, a.path, c.path);
    text_order(a.path, c.path, b.path);
    text_order(c.name, b.name, a.name);
    text_order(a.name, b.name, c.name);
    text_order(b.name, a.name, c.name);
    text_order(a.name, c.name, b.name);
    text_order(c.kind, b.kind, a.kind);
    text_order(a.kind, b.kind, c.kind);
    text_order(b.kind, a.kind, c.kind);
    text_order(a.kind, c.kind, b.kind);
    if a.parent is Some && b.parent is Some && c.parent is Some {
        text_order(c.parent->0, b.parent->0, a.parent->0);
        text_order(a.parent->0, b.parent->0, c.parent->0);
        text_order(b.parent->0, a.parent->0, c.parent->0);
        text_order(a.parent->0, c.parent->0, b.parent->0);
    }
}

/// The text that reports an identity which several symbols share.
pub open spec fn shared_identity_gap(id: IdentityView) -> Seq<char> {
    id.path + ":"@ + id.name + ":ambiguous_symbol_identity"@
}

/// Whether `shared` lists, each once, the identities that several symbols share.
pub open spec fn shared_identities(symbols: Seq<SymbolView>, shared: Seq<IdentityView>) -> bool {
    &&& shared.no_duplicates()
    &&& forall|id: IdentityView| #[trigger]
        shared.contains(id) <==> tally(symbols, with_identity(id)) > 1
}

proof fn lemma_shared_gaps(symbols: Seq<SymbolView>, list: Seq<IdentityView>) -> (shared: Seq<
    IdentityView,
>)
    requires
        list.no_duplicates(),
    ensures
        shared.no_duplicates(),
        forall|id: IdentityView| #[trigger]
            shared.contains(id) <==> list.contains(id) && tally(symbols, with_identity(id)) > 1,
        filter_map(list, ambiguity_gap(symbols, symbols)) == Seq::new(
            shared.len(),
            |i: int| shared_identity_gap(shared[i]),
        ),
    decreases list.len(),
{
    if list.len() == 0 {
        let shared = Seq::<IdentityView>::empty();
        assert(filter_map(list, ambiguity_gap(symbols, symbols)) =~= Seq::new(
            shared.len(),
            |i: int| shared_identity_gap(shared[i]),
        ));
        shared
    } else {
        let front = list.drop_last();
        let last = list.last();
        let before = lemma_shared_gaps(symbols, front);
        assert(list =~= front.push(last));
        assert(!front.contains(last)) by {
            if front.contains(last) {
                let k = choose|k: int| 0 <= k < front.len() && front[k] == last;
                assert(list[k] == list[list.len() - 1]);
            }
        }
        let shared = if tally(symbols, with_identity(last)) > 1 {
            before.push(last)
        } else {
            before
        };
        assert forall|id: IdentityView| #[trigger] shared.contains(id) <==> list.contains(id)
            && tally(symbols, with_identity(id)) > 1 by {
            assert(before.contains(id) <==> front.contains(id) && tally(
                symbols,
                with_identity(id),
            ) > 1);
            if list.contains(id) {
                let k = choose|k: int| 0 <= k < list.len() && list[k] == id;
                if k < front.len() {
                    assert(front[k] == id);
                }
            }
            if front.contains(id) {
                let k = choose|k: int| 0 <= k < front.len() && front[k] == id;
                assert(list[k] == id);
            }
            assert(list[list.len() - 1] == last);
            if before.contains(id) {
                let k = choose|k: int| 0 <= k < before.len() && before[k] == id;
                assert(shared[k] == id);
            }
            if shared.contains(id) && !before.contains(id) {
                let k = choose|k: int| 0 <= k < shared.len() && shared[k] == id;
                if k < before.len() {
                    assert(before[k] == id);
                }
            }
            if tally(symbols, with_identity(last)) > 1 {
                assert(shared[shared.len() - 1] == last);
            }
        }
        assert(shared.no_duplicates()) by {
            assert(!before.contains(last));
            assert forall|i: int, j: int|
                0 <= i < shared.len() && 0 <= j < shared.len() && i != j implies shared[i]
                != shared[j] by {
                if i < before.len() && j < before.len() {
                    assert(before[i] != before[j]);
                } else if i < before.len() {
                    assert(before.contains(before[i]));
                } else {
                    assert(before.contains(before[j]));
                }
            }
        }
        assert(filter_map(list, ambiguity_gap(symbols, symbols)) =~= Seq::new(
            shared.len(),
            |i: int| shared_identity_gap(shared[i]),
        ));
        shared
    }
}

/// A revision compared with itself has no changes. What is reported is, once for
/// each, the identities that several of its symbols share, and nothing else.
pub proof fn a_revision_equals_itself(symbols: Seq<SymbolView>)
    ensures
        all_changes(symbols, symbols) == Seq::<ChangeView>::empty(),
        exists|shared: Seq<IdentityView>| #[trigger]
            shared_identities(symbols, shared) && all_gaps(symbols, symbols) == Seq::new(
                shared.len(),
                |i: int| shared_identity_gap(shared[i]),
            ),
{
    let list = identity_list(symbols, symbols);
    assert forall|i: int| 0 <= i < list.len() implies modified_change(symbols, symbols)(
        #[trigger] list[i],
    ) is None by {}
    lemma_nothing_left(list, modified_change(symbols, symbols));
    assert forall|i: int| 0 <= i < symbols.len() implies {
        &&& left_key(symbols, symbols)(#[trigger] symbols[i]) is None
        &&& removed_change(symbols, symbols)(symbols[i]) is None
        &&& added_change(symbols, symbols)(symbols[i]) is None
    } by {
        let id = identity_of(symbols[i]);
        tally_bounds(symbols, with_identity(id));
        assert(with_identity(id)(symbols[i]));
    }
    lemma_nothing_left(symbols, left_key(symbols, symbols));
    lemma_nothing_left(symbols, removed_change(symbols, symbols));
    lemma_nothing_left(symbols, added_change(symbols, symbols));
    let keys = body_list(symbols, symbols);
    assert(keys =~= Seq::<BodyKeyView>::empty());
    lemma_nothing_left(keys, renamed_change(symbols, symbols));
    lemma_nothing_left(keys, rename_gap(symbols, symbols));
    assert(all_changes(symbols, symbols) =~= Seq::<ChangeView>::empty()) by {
        let none = Seq::<ChangeView>::empty();
        assert(none + none + none + none =~= none);
    }
    lemma_identity_order();
    let named = identities(symbols) + identities(symbols);
    sorting_out_repeats(named, by_identity());
    let shared = lemma_shared_gaps(symbols, list);
    assert forall|id: IdentityView| #[trigger] shared.contains(id) <==> tally(
        symbols,
        with_identity(id),
    ) > 1 by {
        if tally(symbols, with_identity(id)) > 1 {
            tally_bounds(symbols, with_identity(id));
            let k = first_where(symbols, with_identity(id));
            assert(with_identity(id)(symbols[k]));
            assert(named[k] == id);
            assert(named.contains(id));
            assert(list.contains(id));
        }
    }
    assert(all_gaps(symbols, symbols) =~= Seq::new(
        shared.len(),
        |i: int| shared_identity_gap(shared[i]),
    ));
    assert(shared_identities(symbols, shared));
}

proof fn lemma_pieces_unbroken(text: Seq<char>, sep: spec_fn(char) -> bool)
    ensures
        pieces(text, sep).len() > 0,
        forall|i: int, j: int|
            0 <= i < pieces(text, sep).len() && 0 <= j < pieces(text, sep)[i].len() ==> !sep(
                #[trigger] pieces(text, sep)[i][j],
            ),
    decreases text.len(),
{
    if text.len() > 0 {
        let front = pieces(text.drop_last(), sep);
        lemma_pieces_unbroken(text.drop_last(), sep);
        let all = pieces(text, sep);
        assert forall|i: int, j: int| 0 <= i < all.len() && 0 <= j < all[i].len() implies !sep(
            #[trigger] all[i][j],
        ) by {
            if i < front.len() - 1 {
                assert(all[i] == front[i]);
            } else if !sep(text.last()) {
                if j < front.last().len() {
                    assert(all[i][j] == front[i][j]);
                }
            } else if i < front.len() {
                assert(all[i] == front[i]);
            }
        }
    }
}

proof fn lemma_kept_pieces(list: Seq<Seq<char>>)
    ensures
        forall|i: int|
            0 <= i < nonempty(list).len() ==> (#[trigger] nonempty(list)[i]).len() > 0
                && list.contains(nonempty(list)[i]),
    decreases list.len(),
{
    if list.len() > 0 {
        let front = list.drop_last();
        lemma_kept_pieces(front);
        let all = nonempty(list);
        let before = nonempty(front);
        assert forall|i: int| 0 <= i < all.len() implies (#[trigger] all[i]).len() > 0
            && list.contains(all[i]) by {
            if i < before.len() {
                assert(all[i] == before[i]);
                let k = choose|k: int| 0 <= k < front.len() && front[k] == before[i];
                assert(list[k] == all[i]);
            } else {
                assert(list[list.len() - 1] == all[i]);
            }
        }
    }
}

/// A text with its words one space apart does not end in white space.
proof fn lemma_normal_text_ends(text: Seq<char>)
    ensures
        joined_by(words(text), " "@).len() > 0 ==> !white(joined_by(words(text), " "@).last()),
{
    let list = words(text);
    lemma_pieces_unbroken(text, by_white());
    lemma_kept_pieces(pieces(text, by_white()));
    if list.len() > 0 {
        let last = list[list.len() - 1];
        let parts = pieces(text, by_white());
        let k = choose|k: int| 0 <= k < parts.len() && parts[k] == last;
        assert(!by_white()(parts[k][last.len() - 1]));
        assert(joined_by(list, " "@).last() == last.last());
    }
}

proof fn lemma_trim_keeps_end(text: Seq<char>)
    requires
        text.len() > 0,
        !white(text.last()),
    ensures
        trimmed_start(text).len() > 0,
        trimmed_start(text).last() == text.last(),
    decreases text.len(),
{
    if white(text[0]) {
        let rest = text.subrange(1, text.len() as int);
        assert(rest.len() > 0);
        lemma_trim_keeps_end(rest);
    }
}

/// A symbol has no body exactly where, white space aside, it has no content or its
/// content is its signature.
pub proof fn only_a_bare_declaration_has_no_body(
    content: Seq<char>,
    signature: Option<Seq<char>>,
)
    ensures
        body_fingerprint(content, signature) is None <==> {
            let plain = joined_by(words(content), " "@);
            plain.len() == 0 || normal_signature(signature) == Some(plain)
        },
{
    let plain = joined_by(words(content), " "@);
    lemma_normal_text_ends(content);
    if let Some(head) = normal_signature(signature) {
        if begins(plain, head) {
            let rest = plain.subrange(head.len() as int, plain.len() as int);
            if rest.len() > 0 {
                assert(rest.last() == plain.last());
                lemma_trim_keeps_end(rest);
                assert(trimmed(rest) == trimmed_start(rest));
                assert(plain.len() > head.len());
            } else {
                assert(trimmed_start(rest) == rest);
                assert(trimmed(rest).len() == 0);
                assert(plain =~= head) by {
                    assert(plain.subrange(0, head.len() as int) =~= plain);
                }
            }
        } else if plain == head {
            assert(plain.subrange(0, head.len() as int) =~= head);
        }
    }
}

/// Symbols whose content is their signature and the same body behind it have the
/// same fingerprint, whatever their signatures say and however either is spaced:
/// a renamed symbol keeps its fingerprint.
pub proof fn a_body_keeps_its_fingerprint(
    first: Seq<char>,
    first_signature: Seq<char>,
    second: Seq<char>,
    second_signature: Seq<char>,
    body: Seq<char>,
)
    requires
        body.len() > 0,
        joined_by(words(first), " "@) == joined_by(words(first_signature), " "@) + " "@ + body,
        joined_by(words(second), " "@) == joined_by(words(second_signature), " "@) + " "@ + body,
    ensures
        body_fingerprint(first, Some(first_signature)) is Some,
        body_fingerprint(first, Some(first_signature)) == body_fingerprint(
            second,
            Some(second_signature),
        ),
{
    only_a_bare_declaration_has_no_body(first, Some(first_signature));
    let plain = joined_by(words(first), " "@);
    let head = joined_by(words(first_signature), " "@);
    let other = joined_by(words(second), " "@);
    let other_head = joined_by(words(second_signature), " "@);
    assert(plain.len() > head.len());
    assert(begins(plain, head)) by {
        assert(plain.take(head.len() as int) =~= head);
        assert(plain.subrange(0, head.len() as int) =~= head);
    }
    assert(begins(other, other_head)) by {
        assert(other.take(other_head.len() as int) =~= other_head);
        assert(other.subrange(0, other_head.len() as int) =~= other_head);
    }
    assert(plain.subrange(head.len() as int, plain.len() as int) =~= " "@ + body);
    assert(other.subrange(other_head.len() as int, other.len() as int) =~= " "@ + body);
}

/// A rename is claimed only where one symbol was removed and one added with the
/// same kind and body: a body that several symbols share claims none.
pub proof fn ambiguous_bodies_claim_no_rename(
    before: Seq<SymbolView>,
    after: Seq<SymbolView>,
    key: BodyKeyView,
)
    requires
        tally(before, with_body(before, after, key)) != 1 || tally(
            after,
            with_body(after, before, key),
        ) != 1,
    ensures
        renamed_change(before, after)(key) is None,
{
}

/// A symbol without a body is never renamed away: where it has no counterpart
/// it counts as removed.
pub proof fn declarations_without_bodies_are_not_renamed(
    before: Seq<SymbolView>,
    after: Seq<SymbolView>,
    symbol: SymbolView,
)
    requires
        symbol.body_fingerprint is None,
    ensures
        !renamed_away(before, after)(symbol),
        !renamed_here(before, after)(symbol),
        left_over(before, after)(symbol) <==> removed_change(before, after)(symbol) is Some,
        left_over(after, before)(symbol) <==> added_change(before, after)(symbol) is Some,
{
}

/// A symbol that one revision has once, and the other with the same content,
/// gives no change.
pub proof fn unchanged_symbols_give_no_change(
    before: Seq<SymbolView>,
    after: Seq<SymbolView>,
    id: IdentityView,
)
    requires
        tally(before, with_identity(id)) == 1,
        tally(after, with_identity(id)) == 1,
        before[first_where(before, with_identity(id))].content == after[first_where(
            after,
            with_identity(id),
        )].content,
    ensures
        modified_change(before, after)(id) is None,
        ambiguity_gap(before, after)(id) is None,
{
}

/// The related path of a name match with a changed path.
pub open spec fn owner_match(changed: Seq<char>) -> spec_fn(RelatedView) -> Option<Seq<char>> {
    |related: RelatedView|
        if related.changed_path == changed && related.signal == "test_name_match"@ {
            Some(related.related_path)
        } else {
            None
        }
}

/// The tests that own a changed path.
pub open spec fn owner_tests(
    changed: Seq<char>,
    relationships: Seq<RelatedView>,
    scan_truncated: bool,
) -> OwnerTestView {
    let found = filter_map(relationships, owner_match(changed));
    if test_like(changed) {
        OwnerTestView {
            changed_path: changed,
            status: DiffOwnerTestStatus::Found,
            paths: seq![changed],
        }
    } else {
        OwnerTestView {
            changed_path: changed,
            status: if found.len() > 0 {
                DiffOwnerTestStatus::Found
            } else if scan_truncated {
                DiffOwnerTestStatus::Unknown
            } else {
                DiffOwnerTestStatus::Missing
            },
            paths: crate::handoff::cut(found, MAX_OWNER_TESTS_PER_PATH as int),
        }
    }
}

/// The gap of a changed path with more owner tests than are listed.
pub open spec fn owner_gap(relationships: Seq<RelatedView>) -> spec_fn(Seq<char>) -> Option<
    Seq<char>,
> {
    |changed: Seq<char>|
        if !test_like(changed) && filter_map(relationships, owner_match(changed)).len()
            > MAX_OWNER_TESTS_PER_PATH {
            Some(changed + ":owner_test_paths_truncated"@)
        } else {
            None
        }
}

/// The tests that own each changed path.
pub open spec fn all_owner_tests(
    changed: Seq<Seq<char>>,
    relationships: Seq<RelatedView>,
    scan_truncated: bool,
) -> Seq<OwnerTestView> {
    Seq::new(changed.len(), |i: int| owner_tests(changed[i], relationships, scan_truncated))
}

fn owner_paths(changed: &str, relationships: &Vec<DiffRelatedPath>) -> (r: Vec<String>)
    ensures
        texts(r@) == filter_map(views(relationships@), owner_match(changed@)),
{
    let ghost all = views(relationships@);
    let mut paths: Vec<String> = Vec::new();
    let mut i: usize = 0;
    assert(texts(paths@) =~= filter_map(all.take(0), owner_match(changed@)));
    while i < relationships.len()
        invariant
            i <= relationships.len(),
            all == views(relationships@),
            texts(paths@) == filter_map(all.take(i as int), owner_match(changed@)),
        decreases relationships.len() - i,
    {
        let related = &relationships[i];
        proof {
            assert(all[i as int] == related@);
            filter_map_push(all, owner_match(changed@), i as int);
        }
        let ghost known = texts(paths@);
        if same_text(related.changed_path.as_str(), changed) && same_text(
            related.signal.as_str(),
            "test_name_match",
        ) {
            paths.push(related.related_path.clone());
            assert(texts(paths@) =~= known.push(related.related_path@));
        }
        i += 1;
    }
    assert(all.take(all.len() as int) =~= all);
    paths
}

/// The tests that own each changed path, by matching names.
pub fn owner_test_coverage(
    changed_paths: &Vec<String>,
    relationships: &Vec<DiffRelatedPath>,
    scan_truncated: bool,
    gaps: &mut Vec<String>,
) -> (r: Vec<DiffOwnerTestCoverage>)
    ensures
        views(r@) == all_owner_tests(
            texts(changed_paths@),
            views(relationships@),
            scan_truncated,
        ),
        texts(final(gaps)@) == texts(old(gaps)@) + filter_map(
            texts(changed_paths@),
            owner_gap(views(relationships@)),
        ),
{
    let ghost changed = texts(changed_paths@);
    let ghost known = views(relationships@);
    let ghost start = texts(gaps@);
    let mut out: Vec<DiffOwnerTestCoverage> = Vec::new();
    let mut i: usize = 0;
    assert(views(out@) =~= all_owner_tests(changed, known, scan_truncated).take(0));
    assert(texts(gaps@) =~= start + filter_map(changed.take(0), owner_gap(known)));
    while i < changed_paths.len()
        invariant
            i <= changed_paths.len(),
            changed == texts(changed_paths@),
            known == views(relationships@),
            views(out@) == all_owner_tests(changed, known, scan_truncated).take(i as int),
            texts(gaps@) == start + filter_map(changed.take(i as int), owner_gap(known)),
        decreases changed_paths.len() - i,
    {
        let path = &changed_paths[i];
        proof {
            assert(changed[i as int] == path@);
            filter_map_push(changed, owner_gap(known), i as int);
        }
        let ghost before = views(out@);
        let ghost noted = texts(gaps@);
        let mut item = DiffOwnerTestCoverage {
            changed_path: path.clone(),
            status: DiffOwnerTestStatus::Found,
            paths: Vec::new(),
        };
        if looks_like_test_path(path.as_str()) {
            item.paths.push(path.clone());
            assert(texts(item.paths@) =~= seq![path@]);
        } else {
            let mut paths = owner_paths(path.as_str(), relationships);
            let ghost found = texts(paths@);
            if paths.len() > MAX_OWNER_TESTS_PER_PATH {
                paths.truncate(MAX_OWNER_TESTS_PER_PATH);
                let mut gap = path.clone();
                gap.push_str(":owner_test_paths_truncated");
                let ghost text = gap@;
                gaps.push(gap);
                assert(texts(gaps@) =~= noted.push(text));
            }
            if paths.len() == 0 {
                item.status = if scan_truncated {
                    DiffOwnerTestStatus::Unknown
                } else {
                    DiffOwnerTestStatus::Missing
                };
            }
            assert(texts(paths@) =~= crate::handoff::cut(found, MAX_OWNER_TESTS_PER_PATH as int));
            item.paths = paths;
        }
        let ghost added = item@;
        assert(added == owner_tests(changed[i as int], known, scan_truncated));
        out.push(item);
        assert(views(out@) =~= before.push(added));
        assert(views(out@) =~= all_owner_tests(changed, known, scan_truncated).take(i + 1));
        assert(texts(gaps@) =~= start + filter_map(changed.take(i + 1), owner_gap(known)));
        i += 1;
    }
    assert(changed.take(changed.len() as int) =~= changed);
    assert(views(out@) =~= all_owner_tests(changed, known, scan_truncated));
    out
}

/// The paths of one revision whose content was not read, by reason.
#[derive(Debug)]
pub struct GitBlobBatch {
    pub oversized_paths: Vec<String>,
    pub total_limit_paths: Vec<String>,
    pub invalid_utf8_paths: Vec<String>,
    pub unsupported_paths: Vec<String>,
}

/// Paths with a remark on one side of the comparison.
pub open spec fn remarked(paths: Seq<Seq<char>>, side: Seq<char>, remark: Seq<char>) -> Seq<
    Seq<char>,
> {
    Seq::new(paths.len(), |i: int| paths[i] + ":"@ + side + remark)
}

/// The gaps of one revision.
pub open spec fn batch_gaps(side: Seq<char>, batch: GitBlobBatch) -> Seq<Seq<char>> {
    remarked(texts(batch.oversized_paths@), side, "_file_exceeds_semantic_limit"@) + remarked(
        texts(batch.total_limit_paths@),
        side,
        "_semantic_total_bytes_limit"@,
    ) + remarked(texts(batch.invalid_utf8_paths@), side, "_semantic_content_not_utf8"@) + remarked(
        texts(batch.unsupported_paths@),
        side,
        "_semantic_git_entry_unsupported"@,
    )
}

fn remark(gaps: &mut Vec<String>, paths: &Vec<String>, side: &str, text: &str)
    ensures
        texts(final(gaps)@) == texts(old(gaps)@) + remarked(texts(paths@), side@, text@),
{
    let ghost start = texts(gaps@);
    let ghost all = remarked(texts(paths@), side@, text@);
    let mut i: usize = 0;
    assert(texts(gaps@) =~= start + all.take(0));
    while i < paths.len()
        invariant
            i <= paths.len(),
            all == remarked(texts(paths@), side@, text@),
            texts(gaps@) == start + all.take(i as int),
        decreases paths.len() - i,
    {
        let mut gap = paths[i].clone();
        gap.push_str(":");
        gap.push_str(side);
        gap.push_str(text);
        let ghost before = texts(gaps@);
        let ghost added = gap@;
        gaps.push(gap);
        assert(texts(gaps@) =~= before.push(added));
        assert(added == all[i as int]);
        assert(texts(gaps@) =~= start + all.take(i + 1));
        i += 1;
    }
    assert(all.take(all.len() as int) =~= all);
}

/// Adds the gaps of one revision.
pub fn append_batch_gaps(gaps: &mut Vec<String>, side: &str, batch: &GitBlobBatch)
    ensures
        texts(final(gaps)@) == texts(old(gaps)@) + batch_gaps(side@, *batch),
{
    let ghost start = texts(gaps@);
    remark(gaps, &batch.oversized_paths, side, "_file_exceeds_semantic_limit");
    remark(gaps, &batch.total_limit_paths, side, "_semantic_total_bytes_limit");
    remark(gaps, &batch.invalid_utf8_paths, side, "_semantic_content_not_utf8");
    remark(gaps, &batch.unsupported_paths, side, "_semantic_git_entry_unsupported");
    assert(texts(gaps@) =~= start + batch_gaps(side@, *batch));
}

/// A symbol as a parser found it.
#[derive(Debug)]
pub struct ParserSymbol {
    pub name: String,
    pub kind: String,
    pub start_byte: usize,
    pub end_byte: usize,
    pub start_line: usize,
    pub end_line: usize,
    pub parent: Option<String>,
    pub signature: Option<String>,
}

/// A file as a parser read it.
#[derive(Debug)]
pub struct ParsedFile {
    pub language: Option<String>,
    pub structurally_complete: bool,
    pub symbols: Vec<ParserSymbol>,
}

/// A parsed symbol with its content, where its range is one of the text.
pub open spec fn symbol_in(path: Seq<char>, content: Seq<char>, symbol: ParserSymbol) -> Option<
    SymbolView,
> {
    match crate::text::byte_slice(content, symbol.start_byte as nat, symbol.end_byte as nat) {
        Some(part) => Some(
            SymbolView {
                evidence: EvidenceView {
                    path,
                    name: symbol.name@,
                    kind: symbol.kind@,
                    start_line: symbol.start_line,
                    end_line: symbol.end_line,
                },
                parent: optional_text(symbol.parent),
                signature: optional_text(symbol.signature),
                content: part,
                body_fingerprint: body_fingerprint(part, optional_text(symbol.signature)),
                explicitly_public: declares_public(optional_text(symbol.signature)),
            },
        ),
        None => None,
    }
}

/// The symbols of a list whose ranges are all ones of the text.
pub open spec fn symbols_in(path: Seq<char>, content: Seq<char>, symbols: Seq<ParserSymbol>) -> Option<
    Seq<SymbolView>,
>
    decreases symbols.len(),
{
    if symbols.len() == 0 {
        Some(Seq::empty())
    } else {
        match (
            symbols_in(path, content, symbols.drop_last()),
            symbol_in(path, content, symbols.last()),
        ) {
            (Some(front), Some(last)) => Some(front.push(last)),
            _ => None,
        }
    }
}

proof fn lemma_symbols_in(
    path: Seq<char>,
    content: Seq<char>,
    symbols: Seq<ParserSymbol>,
    i: int,
)
    requires
        0 <= i <= symbols.len(),
        symbols_in(path, content, symbols.take(i)) is None,
    ensures
        symbols_in(path, content, symbols) is None,
    decreases symbols.len() - i,
{
    if i < symbols.len() {
        assert(symbols.take(i + 1).drop_last() =~= symbols.take(i));
        lemma_symbols_in(path, content, symbols, i + 1);
    } else {
        assert(symbols.take(i) =~= symbols);
    }
}

/// The symbols of one file in one revision, or why they cannot be compared.
pub open spec fn parse_outcome(
    path: Seq<char>,
    content: Option<Seq<char>>,
    parsed: Option<ParsedFile>,
) -> Result<Seq<SymbolView>, Seq<char>> {
    match content {
        None => Ok(Seq::empty()),
        Some(text) => match parsed {
            None => Err("semantic_parse_failed"@),
            Some(file) => if file.language is None {
                Err("semantic_language_unsupported"@)
            } else if !file.structurally_complete {
                Err("semantic_parse_incomplete"@)
            } else {
                match symbols_in(path, text, file.symbols@) {
                    Some(symbols) => Ok(symbols),
                    None => Err("semantic_symbol_range_invalid"@),
                }
            },
        },
    }
}

/// The symbols of one file in one revision, or why they cannot be compared.
/// `parsed` is missing where the parser failed.
pub fn parse_symbols(path: &str, content: &Option<String>, parsed: &Option<ParsedFile>) -> (r: Result<
    Vec<ParsedSymbol>,
    &'static str,
>)
    ensures
        match (r, parse_outcome(path@, optional_text(*content), *parsed)) {
            (Ok(symbols), Ok(expected)) => views(symbols@) == expected,
            (Err(reason), Err(expected)) => reason@ == expected,
            _ => false,
        },
{
    let text = match content {
        Some(text) => text,
        None => {
            let none: Vec<ParsedSymbol> = Vec::new();
            assert(views(none@) =~= Seq::<SymbolView>::empty());
            return Ok(none);
        },
    };
    let file = match parsed {
        Some(file) => file,
        None => {
            return Err("semantic_parse_failed");
        },
    };
    if file.language.is_none() {
        return Err("semantic_language_unsupported");
    }
    if !file.structurally_complete {
        return Err("semantic_parse_incomplete");
    }
    let ghost all = file.symbols@;
    let mut out: Vec<ParsedSymbol> = Vec::new();
    let mut i: usize = 0;
    assert(views(out@) =~= Seq::<SymbolView>::empty());
    assert(all.take(0) =~= Seq::<ParserSymbol>::empty());
    while i < file.symbols.len()
        invariant
            i <= file.symbols.len(),
            all == file.symbols@,
            symbols_in(path@, text@, all.take(i as int)) == Some(views(out@)),
            *parsed == Some(*file),
            *content == Some(*text),
            file.language is Some,
            file.structurally_complete,
        decreases file.symbols.len() - i,
    {
        let symbol = &file.symbols[i];
        assert(all.take(i + 1).drop_last() =~= all.take(i as int));
        let part = match slice_bytes(text.as_str(), symbol.start_byte, symbol.end_byte) {
            Some(part) => part,
            None => {
                proof {
                    assert(symbols_in(path@, text@, all.take(i + 1)) is None);
                    lemma_symbols_in(path@, text@, all, i + 1);
                }
                return Err("semantic_symbol_range_invalid");
            },
        };
        let found = ParsedSymbol {
            evidence: DiffSymbolEvidence {
                path: copy_text(path),
                name: symbol.name.clone(),
                kind: symbol.kind.clone(),
                start_line: symbol.start_line,
                end_line: symbol.end_line,
            },
            parent: copy_optional_text(&symbol.parent),
            signature: copy_optional_text(&symbol.signature),
            body_fingerprint: symbol_body_fingerprint(part.as_str(), &symbol.signature),
            explicitly_public: explicitly_public(&symbol.signature),
            content: part,
        };
        let ghost before = views(out@);
        let ghost added = found@;
        out.push(found);
        assert(views(out@) =~= before.push(added));
        assert(symbol_in(path@, text@, all[i as int]) == Some(added));
        i += 1;
    }
    assert(all.take(all.len() as int) =~= all);
    Ok(out)
}

/// A key of a document with the fingerprint of its value.
#[derive(Debug)]
pub struct KeyPrint {
    pub pointer: String,
    pub print: String,
}

/// What a [`KeyPrint`] says.
pub struct KeyPrintView {
    pub pointer: Seq<char>,
    pub print: Seq<char>,
}

impl View for KeyPrint {
    type V = KeyPrintView;

    open spec fn view(&self) -> KeyPrintView {
        KeyPrintView { pointer: self.pointer@, print: self.print@ }
    }
}

/// The keys of a document that hold no further keys.
pub open spec fn leaf_keys(value: JsonValue, pointer: Seq<char>) -> Seq<KeyPrintView>
    decreases value,
{
    match value {
        JsonValue::Object(members) => if members@.len() > 0 {
            member_keys(members@, pointer)
        } else {
            seq![KeyPrintView { pointer, print: fingerprint(value) }]
        },
        _ => seq![KeyPrintView { pointer, print: fingerprint(value) }],
    }
}

/// The keys below the members of an object.
pub open spec fn member_keys(members: Seq<(String, JsonValue)>, pointer: Seq<char>) -> Seq<
    KeyPrintView,
>
    decreases members,
{
    if members.len() == 0 {
        Seq::empty()
    } else {
        member_keys(members.drop_last(), pointer) + leaf_keys(
            members[members.len() - 1].1,
            pointer + "/"@ + crate::json::pointer::escaped(members[members.len() - 1].0@),
        )
    }
}

/// Adds the keys of a document that hold no further keys.
pub fn collect_json_keys(value: &JsonValue, pointer: &str, keys: &mut Vec<KeyPrint>)
    ensures
        views(final(keys)@) == views(old(keys)@) + leaf_keys(*value, pointer@),
    decreases value,
{
    let ghost start = views(keys@);
    if let JsonValue::Object(members) = value {
        if members.len() > 0 {
            collect_member_keys(members, pointer, keys);
            return ;
        }
    }
    let key = KeyPrint { pointer: copy_text(pointer), print: json_fingerprint(value) };
    let ghost added = key@;
    keys.push(key);
    assert(views(keys@) =~= start + seq![added]);
}

fn collect_member_keys(
    members: &Vec<(String, JsonValue)>,
    pointer: &str,
    keys: &mut Vec<KeyPrint>,
)
    ensures
        views(final(keys)@) == views(old(keys)@) + member_keys(members@, pointer@),
    decreases members@,
{
    let ghost start = views(keys@);
    let mut i: usize = 0;
    assert(views(keys@) =~= start + member_keys(members@.take(0), pointer@));
    while i < members.len()
        invariant
            i <= members.len(),
            views(keys@) == start + member_keys(members@.take(i as int), pointer@),
        decreases members.len() - i,
    {
        let member = &members[i];
        let mut inner = copy_text(pointer);
        inner.push_str("/");
        let escaped = crate::json::pointer::escape_pointer(member.0.as_str());
        inner.push_str(escaped.as_str());
        collect_json_keys(&member.1, inner.as_str(), keys);
        proof {
            let next = members@.take(i + 1);
            assert(next.drop_last() =~= members@.take(i as int));
            assert(views(keys@) =~= start + member_keys(next, pointer@));
        }
        i += 1;
    }
    assert(members@.take(members@.len() as int) =~= members@);
}

/// The fingerprint of a key, the last one where it occurs more than once.
pub open spec fn print_of(keys: Seq<KeyPrintView>, pointer: Seq<char>) -> Option<Seq<char>>
    decreases keys.len(),
{
    if keys.len() == 0 {
        None
    } else if keys.last().pointer == pointer {
        Some(keys.last().print)
    } else {
        print_of(keys.drop_last(), pointer)
    }
}

/// The keys of one side of a configuration change.
pub open spec fn side_keys(value: Option<JsonValue>) -> Seq<KeyPrintView> {
    match value {
        Some(value) => leaf_keys(value, Seq::empty()),
        None => Seq::empty(),
    }
}

/// The pointers of a list of keys.
pub open spec fn pointers(keys: Seq<KeyPrintView>) -> Seq<Seq<char>> {
    Seq::new(keys.len(), |i: int| keys[i].pointer)
}

/// The change of one key.
pub open spec fn key_change(
    path: Seq<char>,
    before: Seq<KeyPrintView>,
    after: Seq<KeyPrintView>,
) -> spec_fn(Seq<char>) -> Option<ConfigurationView> {
    |pointer: Seq<char>|
        match (print_of(before, pointer), print_of(after, pointer)) {
            (None, Some(_)) => Some(
                ConfigurationView {
                    path,
                    key_path: pointer,
                    kind: DiffConfigurationChangeKind::Added,
                },
            ),
            (Some(_), None) => Some(
                ConfigurationView {
                    path,
                    key_path: pointer,
                    kind: DiffConfigurationChangeKind::Removed,
                },
            ),
            (Some(old), Some(new)) => if old != new {
                Some(
                    ConfigurationView {
                        path,
                        key_path: pointer,
                        kind: DiffConfigurationChangeKind::Modified,
                    },
                )
            } else {
                None
            },
            (None, None) => None,
        }
}

/// The changes between two configuration documents, key by key and in order.
pub open spec fn configuration_changes(
    path: Seq<char>,
    before: Option<JsonValue>,
    after: Option<JsonValue>,
) -> Seq<ConfigurationView> {
    let old = side_keys(before);
    let new = side_keys(after);
    filter_map(sorted_unique(pointers(old) + pointers(new)), key_change(path, old, new))
}

fn find_print(keys: &Vec<KeyPrint>, pointer: &str) -> (r: Option<usize>)
    ensures
        match r {
            Some(i) => i < keys@.len() && print_of(views(keys@), pointer@) == Some(
                keys@[i as int].print@,
            ),
            None => print_of(views(keys@), pointer@) is None,
        },
{
    let ghost all = views(keys@);
    let mut i: usize = keys.len();
    assert(all.take(all.len() as int) =~= all);
    while i > 0
        invariant
            i <= keys.len(),
            all == views(keys@),
            print_of(all, pointer@) == print_of(all.take(i as int), pointer@),
        decreases i,
    {
        i -= 1;
        assert(all.take(i + 1).drop_last() =~= all.take(i as int));
        assert(all.take(i + 1).last() == keys@[i as int]@);
        if same_text(keys[i].pointer.as_str(), pointer) {
            return Some(i);
        }
    }
    None
}

fn push_pointers(keys: &Vec<KeyPrint>, out: &mut Vec<String>)
    ensures
        texts(final(out)@) == texts(old(out)@) + pointers(views(keys@)),
{
    let ghost start = texts(out@);
    let ghost all = pointers(views(keys@));
    let mut i: usize = 0;
    assert(texts(out@) =~= start + all.take(0));
    while i < keys.len()
        invariant
            i <= keys.len(),
            all == pointers(views(keys@)),
            texts(out@) == start + all.take(i as int),
        decreases keys.len() - i,
    {
        let ghost before = texts(out@);
        out.push(keys[i].pointer.clone());
        assert(texts(out@) =~= before.push(all[i as int]));
        assert(texts(out@) =~= start + all.take(i + 1));
        i += 1;
    }
    assert(all.take(all.len() as int) =~= all);
}

fn keys_of(value: &Option<JsonValue>) -> (r: Vec<KeyPrint>)
    ensures
        views(r@) == side_keys(*value),
{
    let mut keys: Vec<KeyPrint> = Vec::new();
    assert(views(keys@) =~= Seq::<KeyPrintView>::empty());
    if let Some(value) = value {
        proof {
            reveal_strlit("");
        }
        collect_json_keys(value, "", &mut keys);
        assert(""@ =~= Seq::<char>::empty());
        assert(views(keys@) =~= leaf_keys(*value, Seq::empty()));
    }
    keys
}

/// Compares two configuration documents key by key.
pub fn compare_configuration(
    path: &str,
    before: &Option<JsonValue>,
    after: &Option<JsonValue>,
    changes: &mut Vec<DiffConfigurationChange>,
)
    ensures
        views(final(changes)@) == views(old(changes)@) + configuration_changes(
            path@,
            *before,
            *after,
        ),
{
    let ghost start = views(changes@);
    let old_keys = keys_of(before);
    let new_keys = keys_of(after);
    let ghost old_views = views(old_keys@);
    let ghost new_views = views(new_keys@);
    let mut all: Vec<String> = Vec::new();
    push_pointers(&old_keys, &mut all);
    push_pointers(&new_keys, &mut all);
    assert(texts(all@) =~= pointers(old_views) + pointers(new_views));
    let ordered = sort_unique_texts(all);
    let ghost list = texts(ordered@);
    let ghost f = key_change(path@, old_views, new_views);
    let mut i: usize = 0;
    assert(views(changes@) =~= start + filter_map(list.take(0), f));
    while i < ordered.len()
        invariant
            i <= ordered.len(),
            list == texts(ordered@),
            old_views == views(old_keys@),
            new_views == views(new_keys@),
            f == key_change(path@, old_views, new_views),
            views(changes@) == start + filter_map(list.take(i as int), f),
        decreases ordered.len() - i,
    {
        proof {
            assert(list[i as int] == ordered@[i as int]@);
            filter_map_push(list, f, i as int);
        }
        let pointer = &ordered[i];
        let kind = match (
            find_print(&old_keys, pointer.as_str()),
            find_print(&new_keys, pointer.as_str()),
        ) {
            (None, Some(_)) => Some(DiffConfigurationChangeKind::Added),
            (Some(_), None) => Some(DiffConfigurationChangeKind::Removed),
            (Some(x), Some(y)) => if same_text(
                old_keys[x].print.as_str(),
                new_keys[y].print.as_str(),
            ) {
                None
            } else {
                Some(DiffConfigurationChangeKind::Modified)
            },
            (None, None) => None,
        };
        let ghost known = views(changes@);
        if let Some(kind) = kind {
            let change = DiffConfigurationChange {
                path: copy_text(path),
                key_path: pointer.clone(),
                kind,
            };
            let ghost added = change@;
            changes.push(change);
            assert(views(changes@) =~= known.push(added));
        }
        assert(views(changes@) =~= start + filter_map(list.take(i + 1), f));
        i += 1;
    }
    assert(list.take(list.len() as int) =~= list);
}

/// One file in one revision. `missing` says that the revision has no such path;
/// `configuration` and `parsed` are missing where the content is no JSON, or
/// the parser failed.
#[derive(Debug)]
pub struct RevisionSide {
    pub content: Option<String>,
    pub missing: bool,
    pub configuration: Option<JsonValue>,
    pub parsed: Option<ParsedFile>,
}

/// One changed path in both revisions.
#[derive(Debug)]
pub struct RevisionFile {
    pub path: String,
    pub base: RevisionSide,
    pub head: RevisionSide,
}

/// The value of a configuration, where its file is there.
pub open spec fn side_value(side: RevisionSide) -> Option<JsonValue> {
    if side.content is Some {
        side.configuration
    } else {
        None
    }
}

/// Whether a file is there and not JSON.
pub open spec fn invalid_json(side: RevisionSide) -> bool {
    side.content is Some && side.configuration is None
}

/// What the comparison of configuration files finds.
pub open spec fn configuration_outcome(file: RevisionFile) -> (Seq<ConfigurationView>, Seq<
    Seq<char>,
>) {
    if invalid_json(file.base) {
        (Seq::empty(), seq![file.path@ + ":base_configuration_json_invalid"@])
    } else if invalid_json(file.head) {
        (Seq::empty(), seq![file.path@ + ":head_configuration_json_invalid"@])
    } else {
        (
            configuration_changes(file.path@, side_value(file.base), side_value(file.head)),
            Seq::empty(),
        )
    }
}

pub(crate) fn push_remark(gaps: &mut Vec<String>, path: &str, text: &str)
    ensures
        texts(final(gaps)@) == texts(old(gaps)@) + seq![path@ + text@],
{
    let ghost start = texts(gaps@);
    let mut gap = copy_text(path);
    gap.push_str(text);
    let ghost added = gap@;
    gaps.push(gap);
    assert(texts(gaps@) =~= start + seq![added]);
}

/// Compares a configuration file of two revisions.
pub fn classify_configuration(
    file: &RevisionFile,
    changes: &mut Vec<DiffConfigurationChange>,
    gaps: &mut Vec<String>,
)
    ensures
        views(final(changes)@) == views(old(changes)@) + configuration_outcome(*file).0,
        texts(final(gaps)@) == texts(old(gaps)@) + configuration_outcome(*file).1,
{
    let ghost known = views(changes@);
    let ghost noted = texts(gaps@);
    if file.base.content.is_some() && file.base.configuration.is_none() {
        push_remark(gaps, file.path.as_str(), ":base_configuration_json_invalid");
        assert(views(changes@) =~= known + Seq::<ConfigurationView>::empty());
    } else if file.head.content.is_some() && file.head.configuration.is_none() {
        push_remark(gaps, file.path.as_str(), ":head_configuration_json_invalid");
        assert(views(changes@) =~= known + Seq::<ConfigurationView>::empty());
    } else {
        let nothing: Option<JsonValue> = None;
        let before = if file.base.content.is_some() {
            &file.base.configuration
        } else {
            &nothing
        };
        let after = if file.head.content.is_some() {
            &file.head.configuration
        } else {
            &nothing
        };
        compare_configuration(file.path.as_str(), before, after, changes);
        assert(texts(gaps@) =~= noted + Seq::<Seq<char>>::empty());
    }
}

/// What a scan of changed files has found.
pub struct ScanView {
    pub before: Seq<SymbolView>,
    pub after: Seq<SymbolView>,
    pub configuration: Seq<ConfigurationView>,
    pub gaps: Seq<Seq<char>>,
}

/// A scan that has found one more gap.
pub open spec fn with_gap(state: ScanView, gap: Seq<char>) -> ScanView {
    ScanView { gaps: state.gaps + seq![gap], ..state }
}

/// A scan after one more file.
pub open spec fn scan_step(state: ScanView, file: RevisionFile) -> ScanView {
    if file.base.content is None && file.head.content is None {
        if !file.base.missing || !file.head.missing {
            with_gap(state, file.path@ + ":semantic_content_unavailable"@)
        } else {
            state
        }
    } else if json_configuration(file.path@) {
        ScanView {
            configuration: state.configuration + configuration_outcome(file).0,
            gaps: state.gaps + configuration_outcome(file).1,
            ..state
        }
    } else {
        match parse_outcome(file.path@, optional_text(file.base.content), file.base.parsed) {
            Err(reason) => with_gap(state, file.path@ + (":base_"@ + reason)),
            Ok(old) => match parse_outcome(
                file.path@,
                optional_text(file.head.content),
                file.head.parsed,
            ) {
                Err(reason) => with_gap(state, file.path@ + (":head_"@ + reason)),
                Ok(new) => if state.before.len() + state.after.len() + old.len() + new.len()
                    > MAX_SEMANTIC_PARSED_SYMBOLS {
                    with_gap(state, file.path@ + ":semantic_symbol_scan_limit"@)
                } else {
                    ScanView { before: state.before + old, after: state.after + new, ..state }
                },
            },
        }
    }
}

/// A scan of changed files, one after another.
pub open spec fn scan(files: Seq<RevisionFile>) -> ScanView
    decreases files.len(),
{
    if files.len() == 0 {
        ScanView {
            before: Seq::empty(),
            after: Seq::empty(),
            configuration: Seq::empty(),
            gaps: Seq::empty(),
        }
    } else {
        scan_step(scan(files.drop_last()), files.last())
    }
}

/// The gaps of a comparison of two revisions, in the order in which they are
/// found.
pub open spec fn revision_gaps(
    base: GitBlobBatch,
    head: GitBlobBatch,
    files: Seq<RevisionFile>,
    max_changes: usize,
) -> Seq<Seq<char>> {
    let found = scan(files);
    batch_gaps("base"@, base) + batch_gaps("head"@, head) + found.gaps + all_gaps(
        found.before,
        found.after,
    ) + crate::handoff::note(
        all_changes(found.before, found.after).len() > max_changes,
        "semantic_symbol_changes_truncated"@,
    ) + crate::handoff::note(
        found.configuration.len() > max_changes,
        "semantic_configuration_changes_truncated"@,
    )
}

pub(crate) fn push_fixed(gaps: &mut Vec<String>, made: bool, text: &str)
    ensures
        texts(final(gaps)@) == texts(old(gaps)@) + crate::handoff::note(made, text@),
{
    let ghost start = texts(gaps@);
    if made {
        gaps.push(copy_text(text));
    }
    assert(texts(gaps@) =~= start + crate::handoff::note(made, text@));
}

fn prefixed_reason(prefix: &str, reason: &str) -> (r: String)
    ensures
        r@ == prefix@ + reason@,
{
    let mut out = copy_text(prefix);
    out.push_str(reason);
    out
}

/// Whether `r` says what changed between two revisions.
pub open spec fn classifies(
    base: Option<GitBlobBatch>,
    head: Option<GitBlobBatch>,
    files: Seq<RevisionFile>,
    max_changes: usize,
    r: DiffSemanticChangeReceipt,
) -> bool {
    &&& r.owner_tests@.len() == 0
    &&& match (base, head) {
        (None, _) => r.symbol_changes@.len() == 0 && r.configuration_changes@.len() == 0 && texts(
            r.gaps@,
        ) == seq!["base_revision_blob_read_failed"@],
        (Some(_), None) => r.symbol_changes@.len() == 0 && r.configuration_changes@.len() == 0
            && texts(r.gaps@) == seq!["head_revision_blob_read_failed"@],
        (Some(base), Some(head)) => {
            &&& views(r.symbol_changes@) == crate::handoff::cut(
                all_changes(scan(files).before, scan(files).after),
                max_changes as int,
            )
            &&& views(r.configuration_changes@) == crate::handoff::cut(
                scan(files).configuration,
                max_changes as int,
            )
            &&& texts(r.gaps@) == sorted_unique(revision_gaps(base, head, files, max_changes))
        },
    }
}

/// Classifies what changed between two revisions. A batch is missing where its
/// revision could not be read.
#[verifier::rlimit(60)]
pub fn classify_revision_changes(
    base: &Option<GitBlobBatch>,
    head: &Option<GitBlobBatch>,
    files: &Vec<RevisionFile>,
    max_changes: usize,
) -> (r: DiffSemanticChangeReceipt)
    ensures
        classifies(*base, *head, files@, max_changes, r),
{
    let mut gaps: Vec<String> = Vec::new();
    let mut configuration: Vec<DiffConfigurationChange> = Vec::new();
    let (base, head) = match (base, head) {
        (Some(base), Some(head)) => (base, head),
        (None, _) => {
            gaps.push(copy_text("base_revision_blob_read_failed"));
            assert(texts(gaps@) =~= seq!["base_revision_blob_read_failed"@]);
            return DiffSemanticChangeReceipt {
                symbol_changes: Vec::new(),
                configuration_changes: configuration,
                owner_tests: Vec::new(),
                gaps,
            };
        },
        (Some(_), None) => {
            gaps.push(copy_text("head_revision_blob_read_failed"));
            assert(texts(gaps@) =~= seq!["head_revision_blob_read_failed"@]);
            return DiffSemanticChangeReceipt {
                symbol_changes: Vec::new(),
                configuration_changes: configuration,
                owner_tests: Vec::new(),
                gaps,
            };
        },
    };
    append_batch_gaps(&mut gaps, "base", base);
    append_batch_gaps(&mut gaps, "head", head);
    let ghost start = texts(gaps@);
    assert(start =~= batch_gaps("base"@, *base) + batch_gaps("head"@, *head));
    let mut before: Vec<ParsedSymbol> = Vec::new();
    let mut after: Vec<ParsedSymbol> = Vec::new();
    let mut i: usize = 0;
    proof {
        assert(files@.take(0) =~= Seq::<RevisionFile>::empty());
        assert(views(before@) =~= Seq::<SymbolView>::empty());
        assert(views(after@) =~= Seq::<SymbolView>::empty());
        assert(views(configuration@) =~= Seq::<ConfigurationView>::empty());
        assert(texts(gaps@) =~= start + Seq::<Seq<char>>::empty());
    }
    while i < files.len()
        invariant
            i <= files.len(),
            views(before@) == scan(files@.take(i as int)).before,
            views(after@) == scan(files@.take(i as int)).after,
            views(configuration@) == scan(files@.take(i as int)).configuration,
            texts(gaps@) == start + scan(files@.take(i as int)).gaps,
            before.len() + after.len() <= MAX_SEMANTIC_PARSED_SYMBOLS,
        decreases files.len() - i,
    {
        let file = &files[i];
        let ghost state = scan(files@.take(i as int));
        let ghost next = scan(files@.take(i + 1));
        proof {
            assert(files@.take(i + 1).drop_last() =~= files@.take(i as int));
            assert(next == scan_step(state, *file));
        }
        i += 1;
        if file.base.content.is_none() && file.head.content.is_none() {
            if !file.base.missing || !file.head.missing {
                push_remark(&mut gaps, file.path.as_str(), ":semantic_content_unavailable");
                assert(texts(gaps@) =~= start + next.gaps);
            }
        } else if recognized_json_configuration(file.path.as_str()) {
            classify_configuration(file, &mut configuration, &mut gaps);
            assert(texts(gaps@) =~= start + next.gaps);
        } else {
            match parse_symbols(file.path.as_str(), &file.base.content, &file.base.parsed) {
                Err(reason) => {
                    let text = prefixed_reason(":base_", reason);
                    push_remark(&mut gaps, file.path.as_str(), text.as_str());
                    assert(texts(gaps@) =~= start + next.gaps);
                },
                Ok(mut old_symbols) => {
                    match parse_symbols(file.path.as_str(), &file.head.content, &file.head.parsed) {
                        Err(reason) => {
                            let text = prefixed_reason(":head_", reason);
                            push_remark(&mut gaps, file.path.as_str(), text.as_str());
                            assert(texts(gaps@) =~= start + next.gaps);
                        },
                        Ok(mut new_symbols) => {
                            let path_symbols: usize = old_symbols.len().saturating_add(
                                new_symbols.len(),
                            );
                            let parsed_symbols: usize = before.len() + after.len();
                            if parsed_symbols.saturating_add(path_symbols)
                                > MAX_SEMANTIC_PARSED_SYMBOLS {
                                push_remark(
                                    &mut gaps,
                                    file.path.as_str(),
                                    ":semantic_symbol_scan_limit",
                                );
                                assert(texts(gaps@) =~= start + next.gaps);
                            } else {
                                let ghost b0 = before@;
                                let ghost a0 = after@;
                                let ghost b1 = old_symbols@;
                                let ghost a1 = new_symbols@;
                                before.append(&mut old_symbols);
                                after.append(&mut new_symbols);
                                assert(views(before@) =~= views(b0) + views(b1));
                                assert(views(after@) =~= views(a0) + views(a1));
                            }
                        },
                    }
                },
            }
        }
    }
    assert(files@.take(files@.len() as int) =~= files@);
    let mut symbol_changes = classify_symbols(&before, &after, &mut gaps);
    let ghost changes = views(symbol_changes@);
    let too_many_symbols = symbol_changes.len() > max_changes;
    symbol_changes.truncate(max_changes);
    assert(views(symbol_changes@) =~= crate::handoff::cut(changes, max_changes as int));
    push_fixed(&mut gaps, too_many_symbols, "semantic_symbol_changes_truncated");
    let ghost keys = views(configuration@);
    let too_many_keys = configuration.len() > max_changes;
    configuration.truncate(max_changes);
    assert(views(configuration@) =~= crate::handoff::cut(keys, max_changes as int));
    push_fixed(&mut gaps, too_many_keys, "semantic_configuration_changes_truncated");
    assert(texts(gaps@) =~= revision_gaps(*base, *head, files@, max_changes));
    let gaps = sort_unique_texts(gaps);
    DiffSemanticChangeReceipt {
        symbol_changes,
        configuration_changes: configuration,
        owner_tests: Vec::new(),
        gaps,
    }
}

} // verus!
