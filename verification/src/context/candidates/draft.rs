//! Candidates of a context request, and how queries agree on them.

use crate::context::facets::{kind_names, ContextQuery, FacetKind, QueryView, Vocabulary};
use crate::lists::{
    filter_map, filter_map_push, first_where, first_where_is, flat_map, flat_map_push,
};
use crate::ordered::{
    sort_by, sort_unique_texts, sorted_by, sorted_unique, text_lt, text_precedes, views,
};
use crate::text::{
    appended, char_count, code_words, code_words_of, contains_text, copy_text, copy_texts, distinct,
    distinct_texts, has_char, list_has, lower_all, lower_text, lowered, lowered_all, occurs,
    optional_text, same_folded, same_text, texts,
};
use vstd::prelude::*;

verus! {

/// The least weight, in hundredths, of a query that counts as corroboration.
pub const MIN_CORROBORATED_QUERY_WEIGHT: u32 = 65;

/// The rank, in the fusion of queries, at which a hit counts half.
pub const FUSION_RANK: u64 = 60;

/// A facet of the query that found a candidate.
#[derive(Debug)]
pub struct FacetMark {
    pub name: String,
    pub key: String,
}

/// What a [`FacetMark`] says.
pub struct FacetView {
    pub name: Seq<char>,
    pub key: Seq<char>,
}

impl View for FacetMark {
    type V = FacetView;

    open spec fn view(&self) -> FacetView {
        FacetView { name: self.name@, key: self.key@ }
    }
}

/// The source that found a candidate, and the rank there.
#[derive(Debug)]
pub struct ChannelMark {
    pub name: String,
    pub rank: usize,
}

/// What a [`ChannelMark`] says.
pub struct ChannelView {
    pub name: Seq<char>,
    pub rank: usize,
}

impl View for ChannelMark {
    type V = ChannelView;

    open spec fn view(&self) -> ChannelView {
        ChannelView { name: self.name@, rank: self.rank }
    }
}

/// A query of a piece of required evidence that a candidate holds.
#[derive(Debug, Clone, Copy, PartialEq, Eq, Structural)]
pub struct EvidenceMark {
    pub requirement: usize,
    pub query: usize,
}

/// Lines, the last one included.
#[derive(Debug, Clone, Copy, PartialEq, Eq, Structural)]
pub struct LineRange {
    pub start: usize,
    pub end: usize,
}

/// How a full-text search ranks a candidate: its score in millionths, and how
/// often the query occurs.
#[derive(Debug, Clone, Copy, PartialEq, Eq, Structural)]
pub struct LexicalSignal {
    pub score: u64,
    pub occurrences: usize,
}

/// The best rank at which a query found a path.
#[derive(Debug)]
pub struct FusionHit {
    pub path: String,
    pub key: String,
    pub weight: u32,
    pub rank: u32,
}

/// What a [`FusionHit`] says.
pub struct FusionView {
    pub path: Seq<char>,
    pub key: Seq<char>,
    pub weight: u32,
    pub rank: u32,
}

impl View for FusionHit {
    type V = FusionView;

    open spec fn view(&self) -> FusionView {
        FusionView { path: self.path@, key: self.key@, weight: self.weight, rank: self.rank }
    }
}

impl FusionHit {
    /// A copy.
    pub fn duplicate(&self) -> (r: FusionHit)
        ensures
            r@ == self@,
    {
        FusionHit {
            path: self.path.clone(),
            key: self.key.clone(),
            weight: self.weight,
            rank: self.rank,
        }
    }
}

/// Lines of a file that may answer a request, and what speaks for them. Weights
/// and boosts are in hundredths.
#[derive(Debug)]
pub struct Candidate {
    pub path: String,
    pub start_line: usize,
    pub end_line: usize,
    pub content: String,
    pub match_kinds: Vec<String>,
    pub facets: Vec<FacetMark>,
    pub channels: Vec<ChannelMark>,
    pub evidence: Vec<EvidenceMark>,
    pub concepts: Vec<String>,
    pub concept_weight: u32,
    pub representation: Option<String>,
    pub symbol_name: Option<String>,
    pub target: Option<LineRange>,
    pub exact: u32,
    pub symbol: u32,
    pub reference: u32,
    pub lexical: Option<LexicalSignal>,
    pub path_score: u64,
    pub focus_boost: u32,
    pub import_boost: u32,
    pub change_boost: u32,
    pub fused: Vec<FusionHit>,
}

/// What a [`Candidate`] says.
pub struct CandidateView {
    pub path: Seq<char>,
    pub start_line: usize,
    pub end_line: usize,
    pub content: Seq<char>,
    pub match_kinds: Seq<Seq<char>>,
    pub facets: Seq<FacetView>,
    pub channels: Seq<ChannelView>,
    pub evidence: Seq<EvidenceMark>,
    pub concepts: Seq<Seq<char>>,
    pub concept_weight: u32,
    pub representation: Option<Seq<char>>,
    pub symbol_name: Option<Seq<char>>,
    pub target: Option<LineRange>,
    pub exact: u32,
    pub symbol: u32,
    pub reference: u32,
    pub lexical: Option<LexicalSignal>,
    pub path_score: u64,
    pub focus_boost: u32,
    pub import_boost: u32,
    pub change_boost: u32,
    pub fused: Seq<FusionView>,
}

impl View for Candidate {
    type V = CandidateView;

    open spec fn view(&self) -> CandidateView {
        CandidateView {
            path: self.path@,
            start_line: self.start_line,
            end_line: self.end_line,
            content: self.content@,
            match_kinds: texts(self.match_kinds@),
            facets: views(self.facets@),
            channels: views(self.channels@),
            evidence: self.evidence@,
            concepts: texts(self.concepts@),
            concept_weight: self.concept_weight,
            representation: optional_text(self.representation),
            symbol_name: optional_text(self.symbol_name),
            target: self.target,
            exact: self.exact,
            symbol: self.symbol,
            reference: self.reference,
            lexical: self.lexical,
            path_score: self.path_score,
            focus_boost: self.focus_boost,
            import_boost: self.import_boost,
            change_boost: self.change_boost,
            fused: views(self.fused@),
        }
    }
}

/// Lines that nothing speaks for yet.
pub open spec fn plain(path: Seq<char>, start_line: usize, end_line: usize, content: Seq<char>) ->
    CandidateView {
    CandidateView {
        path,
        start_line,
        end_line,
        content,
        match_kinds: Seq::empty(),
        facets: Seq::empty(),
        channels: Seq::empty(),
        evidence: Seq::empty(),
        concepts: Seq::empty(),
        concept_weight: 0,
        representation: None,
        symbol_name: None,
        target: None,
        exact: 0,
        symbol: 0,
        reference: 0,
        lexical: None,
        path_score: 0,
        focus_boost: 0,
        import_boost: 0,
        change_boost: 0,
        fused: Seq::empty(),
    }
}

impl CandidateView {
    /// The candidate, found in one more way.
    pub open spec fn found_as(self, kind: Seq<char>) -> CandidateView {
        CandidateView { match_kinds: self.match_kinds.push(kind), ..self }
    }

    /// The candidate, about one more concept.
    pub open spec fn about(self, concept: Seq<char>, weight: u32) -> CandidateView {
        CandidateView {
            concepts: self.concepts.push(concept),
            concept_weight: weight,
            ..self
        }
    }

    /// The candidate, shown in a form.
    pub open spec fn shown_as(self, representation: Seq<char>) -> CandidateView {
        CandidateView { representation: Some(representation), ..self }
    }

    /// The candidate, found under a facet.
    pub open spec fn under(self, name: Seq<char>, key: Seq<char>) -> CandidateView {
        CandidateView { facets: self.facets.push(FacetView { name, key }), ..self }
    }

    /// The candidate, found by a source at a rank.
    pub open spec fn through(self, name: Seq<char>, rank: usize) -> CandidateView {
        CandidateView { channels: self.channels.push(ChannelView { name, rank }), ..self }
    }
}

impl Candidate {
    /// Lines that nothing speaks for yet.
    pub fn new(path: &str, start_line: usize, end_line: usize, content: &str) -> (r: Candidate)
        ensures
            r@ == plain(path@, start_line, end_line, content@),
    {
        let r = Candidate {
            path: copy_text(path),
            start_line,
            end_line,
            content: copy_text(content),
            match_kinds: Vec::new(),
            facets: Vec::new(),
            channels: Vec::new(),
            evidence: Vec::new(),
            concepts: Vec::new(),
            concept_weight: 0,
            representation: None,
            symbol_name: None,
            target: None,
            exact: 0,
            symbol: 0,
            reference: 0,
            lexical: None,
            path_score: 0,
            focus_boost: 0,
            import_boost: 0,
            change_boost: 0,
            fused: Vec::new(),
        };
        proof {
            assert(r@.match_kinds =~= Seq::<Seq<char>>::empty());
            assert(r@.facets =~= Seq::<FacetView>::empty());
            assert(r@.channels =~= Seq::<ChannelView>::empty());
            assert(r@.concepts =~= Seq::<Seq<char>>::empty());
            assert(r@.fused =~= Seq::<FusionView>::empty());
        }
        r
    }

    /// The candidate, found in one more way.
    pub fn match_kind(self, kind: &str) -> (r: Candidate)
        ensures
            r@ == self@.found_as(kind@),
    {
        let mut out = self;
        out.match_kinds.push(copy_text(kind));
        assert(out@.match_kinds =~= self@.match_kinds.push(kind@));
        out
    }

    /// The candidate, about one more concept.
    pub fn concept(self, concept: &str, weight: u32) -> (r: Candidate)
        ensures
            r@ == self@.about(concept@, weight),
    {
        let mut out = self;
        out.concepts.push(copy_text(concept));
        out.concept_weight = weight;
        assert(out@.concepts =~= self@.concepts.push(concept@));
        out
    }

    /// The candidate, shown in a form.
    pub fn representation(self, representation: &str) -> (r: Candidate)
        ensures
            r@ == self@.shown_as(representation@),
    {
        let mut out = self;
        out.representation = Some(copy_text(representation));
        out
    }

    /// The candidate, found under a facet.
    pub fn facet(self, name: &str, key: &str) -> (r: Candidate)
        ensures
            r@ == self@.under(name@, key@),
    {
        let mut out = self;
        let mark = FacetMark { name: copy_text(name), key: copy_text(key) };
        let ghost added = mark@;
        out.facets.push(mark);
        assert(out@.facets =~= self@.facets.push(added));
        out
    }

    /// The candidate, found by a source at a rank.
    pub fn channel(self, name: &str, rank: usize) -> (r: Candidate)
        ensures
            r@ == self@.through(name@, rank),
    {
        let mut out = self;
        let mark = ChannelMark { name: copy_text(name), rank };
        let ghost added = mark@;
        out.channels.push(mark);
        assert(out@.channels =~= self@.channels.push(added));
        out
    }
}

/// A candidate under the first `upto` names.
pub open spec fn under_names(
    candidate: CandidateView,
    names: Seq<Seq<char>>,
    key: Seq<char>,
    upto: int,
) -> CandidateView
    decreases upto,
{
    if upto <= 0 || upto > names.len() {
        candidate
    } else {
        under_names(candidate, names, key, upto - 1).under(names[upto - 1], key)
    }
}

/// A candidate that names the facets of its query, its source and its rank.
pub open spec fn annotated(
    candidate: CandidateView,
    query: QueryView,
    channel: Seq<char>,
    rank: usize,
) -> CandidateView {
    let names = kind_names(query.facets);
    under_names(candidate, names, query.fusion_key, names.len() as int).through(channel, rank)
}

/// Lets a candidate name the facets of its query, its source and its rank.
pub fn annotate_candidate(
    candidate: Candidate,
    query: &ContextQuery,
    channel: &str,
    rank: usize,
) -> (r: Candidate)
    ensures
        r@ == annotated(candidate@, query@, channel@, rank),
{
    let names = query.facet_names();
    let ghost all = texts(names@);
    let ghost start = candidate@;
    let mut out = candidate;
    let mut i: usize = 0;
    while i < names.len()
        invariant
            i <= names.len(),
            all == texts(names@),
            out@ == under_names(start, all, query.fusion_key@, i as int),
        decreases names.len() - i,
    {
        assert(all[i as int] == names@[i as int]@);
        out = out.facet(names[i].as_str(), query.fusion_key.as_str());
        i += 1;
    }
    assert(all.len() == names@.len());
    out.channel(channel, rank)
}

/// Whether a hit is of a query on a path.
pub open spec fn same_hit(path: Seq<char>, key: Seq<char>) -> spec_fn(FusionView) -> bool {
    |hit: FusionView| hit.path == path && hit.key == key
}

/// Whether one hit counts more than another: its weight over its rank is
/// greater.
pub open spec fn counts_more(weight: u32, rank: u32, held: FusionView) -> bool {
    weight * (FUSION_RANK + 1 + held.rank) > held.weight * (FUSION_RANK + 1 + rank)
}

/// Ranks of 32 bits.
pub open spec fn short_rank(rank: usize) -> u32 {
    if rank > u32::MAX {
        u32::MAX
    } else {
        rank as u32
    }
}

/// The hits of queries on paths, with one more. Of a query on a path only the
/// hit that counts most is kept; weak queries leave none.
pub open spec fn with_hit(
    fusion: Seq<FusionView>,
    path: Seq<char>,
    key: Seq<char>,
    weight: u32,
    rank: usize,
) -> Seq<FusionView> {
    let at = first_where(fusion, same_hit(path, key));
    let hit = FusionView { path, key, weight, rank: short_rank(rank) };
    if weight < MIN_CORROBORATED_QUERY_WEIGHT {
        fusion
    } else if at == fusion.len() {
        fusion.push(hit)
    } else if counts_more(weight, short_rank(rank), fusion[at]) {
        fusion.update(at, hit)
    } else {
        fusion
    }
}

/// Notes a hit of a query on a path.
pub fn record_query_hit(
    fusion: &mut Vec<FusionHit>,
    path: &str,
    fusion_key: &str,
    weight: u32,
    rank: usize,
)
    ensures
        views(final(fusion)@) == with_hit(
            views(old(fusion)@),
            path@,
            fusion_key@,
            weight,
            rank,
        ),
{
    if weight < MIN_CORROBORATED_QUERY_WEIGHT {
        return;
    }
    let short: u32 = if rank > u32::MAX as usize {
        u32::MAX
    } else {
        rank as u32
    };
    let ghost start = views(fusion@);
    let p = Ghost(same_hit(path@, fusion_key@));
    let mut at: usize = 0;
    while at < fusion.len() && !(same_text(fusion[at].path.as_str(), path) && same_text(
        fusion[at].key.as_str(),
        fusion_key,
    ))
        invariant
            at <= fusion.len(),
            start == views(fusion@),
            p@ == same_hit(path@, fusion_key@),
            forall|k: int| 0 <= k < at ==> !p@(#[trigger] start[k]),
        decreases fusion.len() - at,
    {
        assert(start[at as int] == fusion@[at as int]@);
        at += 1;
    }
    proof {
        if at < fusion.len() {
            assert(start[at as int] == fusion@[at as int]@);
        }
        first_where_is(start, p@, at as int);
    }
    let hit = FusionHit {
        path: copy_text(path),
        key: copy_text(fusion_key),
        weight,
        rank: short,
    };
    let ghost added = hit@;
    if at == fusion.len() {
        fusion.push(hit);
        assert(views(fusion@) =~= start.push(added));
    } else {
        let mine: u128 = times(weight, fusion[at].rank);
        let its: u128 = times(fusion[at].weight, short);
        if mine > its {
            let old_hit = fusion.remove(at);
            fusion.insert(at, hit);
            assert(views(fusion@) =~= start.update(at as int, added));
        }
    }
}

fn times(weight: u32, rank: u32) -> (r: u128)
    ensures
        r == weight * (FUSION_RANK + 1 + rank),
{
    let factor: u128 = FUSION_RANK as u128 + 1 + rank as u128;
    assert(0 <= weight * factor <= 0x1_0000_0000 * 0x1_0000_00ff) by (nonlinear_arith)
        requires
            weight <= 0xffff_ffff,
            factor <= 0xffff_ffff + 61,
    ;
    weight as u128 * factor
}

/// A hit, where it is on a path.
pub open spec fn hit_on(path: Seq<char>) -> spec_fn(FusionView) -> Option<FusionView> {
    |hit: FusionView|
        if hit.path == path {
            Some(hit)
        } else {
            None
        }
}

/// A candidate with the hits of queries on its path, where more than one query
/// found it.
pub open spec fn with_fusion(candidate: CandidateView, fusion: Seq<FusionView>) -> CandidateView {
    let hits = filter_map(fusion, hit_on(candidate.path));
    if hits.len() > 1 {
        CandidateView {
            fused: hits,
            match_kinds: if candidate.match_kinds.contains("multi-query"@) {
                candidate.match_kinds
            } else {
                candidate.match_kinds.push("multi-query"@)
            },
            ..candidate
        }
    } else {
        candidate
    }
}

fn hits_on(fusion: &Vec<FusionHit>, path: &str) -> (r: Vec<FusionHit>)
    ensures
        views(r@) == filter_map(views(fusion@), hit_on(path@)),
{
    let ghost all = views(fusion@);
    let mut out: Vec<FusionHit> = Vec::new();
    let mut i: usize = 0;
    assert(views(out@) =~= filter_map(all.take(0), hit_on(path@)));
    while i < fusion.len()
        invariant
            i <= fusion.len(),
            all == views(fusion@),
            views(out@) == filter_map(all.take(i as int), hit_on(path@)),
        decreases fusion.len() - i,
    {
        let ghost before = views(out@);
        proof {
            filter_map_push(all, hit_on(path@), i as int);
            assert(all[i as int] == fusion@[i as int]@);
        }
        if same_text(fusion[i].path.as_str(), path) {
            out.push(fusion[i].duplicate());
            assert(views(out@) =~= before.push(fusion@[i as int]@));
        }
        i += 1;
    }
    assert(all.take(all.len() as int) =~= all);
    out
}

fn fuse(candidate: Candidate, fusion: &Vec<FusionHit>) -> (r: Candidate)
    ensures
        r@ == with_fusion(candidate@, views(fusion@)),
{
    let hits = hits_on(fusion, candidate.path.as_str());
    assert(views(hits@).len() == hits@.len());
    if hits.len() > 1 {
        let mut out = candidate;
        if !list_has(&out.match_kinds, "multi-query") {
            out = out.match_kind("multi-query");
        }
        out.fused = hits;
        out
    } else {
        candidate
    }
}

/// Gives each candidate the hits of queries on its path, where more than one
/// query found it.
pub fn apply_query_fusion(candidates: Vec<Candidate>, fusion: &Vec<FusionHit>) -> (r: Vec<
    Candidate,
>)
    ensures
        views(r@) == Seq::new(
            candidates@.len(),
            |i: int| with_fusion(candidates@[i]@, views(fusion@)),
        ),
{
    let ghost all = Seq::new(
        candidates@.len(),
        |i: int| with_fusion(candidates@[i]@, views(fusion@)),
    );
    let mut out: Vec<Candidate> = Vec::new();
    assert(views(out@) =~= all.take(0));
    for candidate in it: candidates
        invariant
            it.seq() == candidates@,
            all == Seq::new(
                candidates@.len(),
                |i: int| with_fusion(candidates@[i]@, views(fusion@)),
            ),
            views(out@) == all.take(it.index() as int),
    {
        let ghost before = views(out@);
        let item = fuse(candidate, fusion);
        let ghost added = item@;
        out.push(item);
        assert(views(out@) =~= before.push(added));
        assert(views(out@) =~= all.take(it.index() as int + 1));
    }
    assert(all.take(all.len() as int) =~= all);
    out
}

/// The key of a query for an exact name.
pub open spec fn exact_key() -> spec_fn(QueryView) -> Option<Seq<char>> {
    |query: QueryView|
        if query.facets.holds(FacetKind::ExactAtom) {
            Some(query.fusion_key)
        } else {
            None
        }
}

/// Whether the queries name exactly one thing exactly.
pub fn low_cardinality_exact_query(queries: &Vec<ContextQuery>) -> (r: bool)
    ensures
        r == (sorted_unique(filter_map(views(queries@), exact_key())).len() == 1),
{
    let ghost all = views(queries@);
    let mut keys: Vec<String> = Vec::new();
    let mut i: usize = 0;
    assert(texts(keys@) =~= filter_map(all.take(0), exact_key()));
    while i < queries.len()
        invariant
            i <= queries.len(),
            all == views(queries@),
            texts(keys@) == filter_map(all.take(i as int), exact_key()),
        decreases queries.len() - i,
    {
        let ghost before = texts(keys@);
        proof {
            filter_map_push(all, exact_key(), i as int);
            assert(all[i as int] == queries@[i as int]@);
        }
        if queries[i].has_facet(FacetKind::ExactAtom) {
            keys.push(queries[i].fusion_key.clone());
            assert(texts(keys@) =~= before.push(queries@[i as int].fusion_key@));
        }
        i += 1;
    }
    assert(all.take(all.len() as int) =~= all);
    let unique = sort_unique_texts(keys);
    assert(texts(unique@).len() == unique@.len());
    unique.len() == 1
}

/// The words of a word, in small letters, that are not too short.
pub open spec fn long_words(vocabulary: Vocabulary) -> spec_fn(Seq<char>) -> Seq<Seq<char>> {
    |word: Seq<char>|
        filter_map(
            lowered_all(vocabulary.entry(word).words),
            |part: Seq<char>|
                if part.len() >= 2 {
                    Some(part)
                } else {
                    None
                },
        )
}

/// The parts of a qualified name.
pub open spec fn name_parts(concept: Seq<char>, vocabulary: Vocabulary) -> Seq<Seq<char>> {
    distinct(flat_map(code_words(concept), long_words(vocabulary)))
}

/// What is known of a symbol, in small letters.
pub open spec fn symbol_text(
    name: Seq<char>,
    parent: Option<Seq<char>>,
    signature: Option<Seq<char>>,
) -> Seq<char> {
    lowered(name + " "@ + or_empty(parent) + " "@ + or_empty(signature))
}

/// A text, or none.
pub open spec fn or_empty(text: Option<Seq<char>>) -> Seq<char> {
    match text {
        Some(value) => value,
        None => Seq::empty(),
    }
}

/// Whether a symbol answers a qualified name: it speaks of each of two or more
/// parts.
pub open spec fn qualifies(
    concept: Seq<char>,
    name: Seq<char>,
    parent: Option<Seq<char>>,
    signature: Option<Seq<char>>,
    vocabulary: Vocabulary,
) -> bool {
    let parts = name_parts(concept, vocabulary);
    &&& concept.contains('.') || concept.contains(':')
    &&& parts.len() >= 2
    &&& forall|i: int|
        0 <= i < parts.len() ==> occurs(symbol_text(name, parent, signature), #[trigger] parts[i])
}

fn keep_long(words: &Vec<String>) -> (r: Vec<String>)
    ensures
        texts(r@) == filter_map(
            lowered_all(texts(words@)),
            |part: Seq<char>|
                if part.len() >= 2 {
                    Some(part)
                } else {
                    None
                },
        ),
{
    let low = lower_all(words);
    let ghost all = texts(low@);
    let f = Ghost(
        |part: Seq<char>|
            if part.len() >= 2 {
                Some(part)
            } else {
                None
            },
    );
    let mut out: Vec<String> = Vec::new();
    let mut i: usize = 0;
    assert(texts(out@) =~= filter_map(all.take(0), f@));
    while i < low.len()
        invariant
            i <= low.len(),
            all == texts(low@),
            f@ == (|part: Seq<char>|
                if part.len() >= 2 {
                    Some(part)
                } else {
                    None
                }),
            texts(out@) == filter_map(all.take(i as int), f@),
        decreases low.len() - i,
    {
        let ghost before = texts(out@);
        proof {
            filter_map_push(all, f@, i as int);
            assert(all[i as int] == low@[i as int]@);
        }
        if char_count(low[i].as_str()) >= 2 {
            out.push(low[i].clone());
            assert(texts(out@) =~= before.push(low@[i as int]@));
        }
        i += 1;
    }
    assert(all.take(all.len() as int) =~= all);
    out
}

fn parts_of(concept: &str, vocabulary: &Vocabulary) -> (r: Vec<String>)
    ensures
        texts(r@) == name_parts(concept@, *vocabulary),
{
    let words = code_words_of(concept);
    let ghost all = texts(words@);
    let mut out: Vec<String> = Vec::new();
    let mut i: usize = 0;
    assert(texts(out@) =~= flat_map(all.take(0), long_words(*vocabulary)));
    while i < words.len()
        invariant
            i <= words.len(),
            all == texts(words@),
            texts(out@) == flat_map(all.take(i as int), long_words(*vocabulary)),
        decreases words.len() - i,
    {
        let ghost before = texts(out@);
        proof {
            flat_map_push(all, long_words(*vocabulary), i as int);
            assert(all[i as int] == words@[i as int]@);
        }
        let parts = vocabulary.identifier_words(words[i].as_str());
        let mut kept = keep_long(&parts);
        let ghost more = texts(kept@);
        out.append(&mut kept);
        assert(texts(out@) =~= before + more);
        i += 1;
    }
    assert(all.take(all.len() as int) =~= all);
    distinct_texts(&out)
}

fn text_or_empty(text: &Option<String>) -> (r: String)
    ensures
        r@ == or_empty(optional_text(*text)),
{
    match text {
        Some(value) => value.clone(),
        None => {
            let r = String::new();
            assert(r@ =~= Seq::<char>::empty());
            r
        },
    }
}

/// Whether a symbol answers a qualified name.
pub fn qualified_symbol_match(
    concept: &str,
    name: &str,
    parent: &Option<String>,
    signature: &Option<String>,
    vocabulary: &Vocabulary,
) -> (r: bool)
    ensures
        r == qualifies(
            concept@,
            name@,
            optional_text(*parent),
            optional_text(*signature),
            *vocabulary,
        ),
{
    if !has_char(concept, '.') && !has_char(concept, ':') {
        return false;
    }
    let parts = parts_of(concept, vocabulary);
    let ghost all = texts(parts@);
    assert(all.len() == parts@.len());
    if parts.len() < 2 {
        return false;
    }
    let with_parent = appended(
        appended(copy_text(name), " "),
        text_or_empty(parent).as_str(),
    );
    let whole = appended(appended(with_parent, " "), text_or_empty(signature).as_str());
    let text = lower_text(whole.as_str());
    let mut i: usize = 0;
    while i < parts.len()
        invariant
            i <= parts.len(),
            all == texts(parts@),
            all == name_parts(concept@, *vocabulary),
            text@ == symbol_text(name@, optional_text(*parent), optional_text(*signature)),
            forall|k: int| 0 <= k < i ==> occurs(text@, #[trigger] all[k]),
        decreases parts.len() - i,
    {
        assert(all[i as int] == parts@[i as int]@);
        if !contains_text(text.as_str(), parts[i].as_str()) {
            return false;
        }
        i += 1;
    }
    true
}

/// A symbol that an import leads to.
#[derive(Debug)]
pub struct ImportSymbol {
    pub name: String,
    pub parent: Option<String>,
    pub signature: Option<String>,
    pub start_line: usize,
    pub end_line: usize,
}

/// What a [`ImportSymbol`] says.
pub struct ImportSymbolView {
    pub name: Seq<char>,
    pub parent: Option<Seq<char>>,
    pub signature: Option<Seq<char>>,
    pub start_line: usize,
    pub end_line: usize,
}

impl View for ImportSymbol {
    type V = ImportSymbolView;

    open spec fn view(&self) -> ImportSymbolView {
        ImportSymbolView {
            name: self.name@,
            parent: optional_text(self.parent),
            signature: optional_text(self.signature),
            start_line: self.start_line,
            end_line: self.end_line,
        }
    }
}

/// Whether a query can corroborate what an import of a file leads to.
pub open spec fn can_corroborate(query: QueryView, seeds: Seq<Seq<char>>) -> bool {
    &&& query.concept_weight >= MIN_CORROBORATED_QUERY_WEIGHT
    &&& seeds.contains(query.fusion_key)
    &&& query.facets.holds(FacetKind::ExactAtom) || query.facets.holds(FacetKind::Symbol)
        || query.facets.holds(FacetKind::Configuration)
}

/// Whether a symbol has the name that a query asks for, letter case aside.
pub open spec fn names_exactly(symbol: ImportSymbolView, query: QueryView) -> bool {
    lowered(symbol.name) == lowered(query.value)
}

/// Whether a symbol answers the qualified name of a query.
pub open spec fn names_qualified(
    symbol: ImportSymbolView,
    query: QueryView,
    vocabulary: Vocabulary,
) -> bool {
    qualifies(query.fusion_key, symbol.name, symbol.parent, symbol.signature, vocabulary)
}

/// How well a symbol answers a query.
pub open spec fn answer_class(
    symbol: ImportSymbolView,
    query: QueryView,
    vocabulary: Vocabulary,
) -> nat {
    (if names_qualified(symbol, query, vocabulary) {
        2nat
    } else {
        0
    }) + (if names_exactly(symbol, query) {
        1nat
    } else {
        0
    })
}

/// What speaks for a symbol that answers a query, in hundredths.
pub open spec fn answer_evidence(
    symbol: ImportSymbolView,
    query: QueryView,
    vocabulary: Vocabulary,
) -> u32 {
    ((if names_exactly(symbol, query) {
        100int
    } else {
        0
    }) + (if names_qualified(symbol, query, vocabulary) {
        150int
    } else {
        0
    })) as u32
}

/// Whether a symbol answers a query that can corroborate it.
pub open spec fn answers(
    symbol: ImportSymbolView,
    query: QueryView,
    seeds: Seq<Seq<char>>,
    vocabulary: Vocabulary,
) -> bool {
    can_corroborate(query, seeds) && answer_class(symbol, query, vocabulary) > 0
}

/// Whether an answer of class `class` at a line is better than another: by class,
/// then by the query's rank, then by the line.
pub open spec fn answers_better(
    class: nat,
    query: int,
    line: usize,
    other_class: nat,
    other_query: int,
    other_line: usize,
) -> bool {
    ||| class > other_class
    ||| class == other_class && query < other_query
    ||| class == other_class && query == other_query && line < other_line
}

/// Whether no answer among the first pairs is better than one, and no earlier one
/// is as good.
pub open spec fn best_answer(
    symbols: Seq<ImportSymbolView>,
    queries: Seq<QueryView>,
    seeds: Seq<Seq<char>>,
    vocabulary: Vocabulary,
    symbol: int,
    query: int,
    upto_query: int,
    upto_symbol: int,
) -> bool {
    &&& 0 <= symbol < symbols.len() && 0 <= query < queries.len()
    &&& answers(symbols[symbol], queries[query], seeds, vocabulary)
    &&& forall|s: int, q: int|
        #![trigger symbols[s], queries[q]]
        0 <= s < symbols.len() && 0 <= q < queries.len() && (q < upto_query || q == upto_query && s
            < upto_symbol) && answers(symbols[s], queries[q], seeds, vocabulary) ==> {
            let mine = answer_class(symbols[symbol], queries[query], vocabulary);
            let its = answer_class(symbols[s], queries[q], vocabulary);
            &&& !answers_better(
                its,
                q,
                symbols[s].start_line,
                mine,
                query,
                symbols[symbol].start_line,
            )
            &&& its == mine && q == query && symbols[s].start_line == symbols[symbol].start_line
                ==> symbol <= s
        }
}

/// Whether none of the first pairs is an answer.
pub open spec fn no_answer(
    symbols: Seq<ImportSymbolView>,
    queries: Seq<QueryView>,
    seeds: Seq<Seq<char>>,
    vocabulary: Vocabulary,
    upto_query: int,
    upto_symbol: int,
) -> bool {
    forall|s: int, q: int|
        #![trigger symbols[s], queries[q]]
        0 <= s < symbols.len() && 0 <= q < queries.len() && (q < upto_query || q == upto_query && s
            < upto_symbol) ==> !answers(symbols[s], queries[q], seeds, vocabulary)
}

/// A symbol that answers a query.
#[derive(Debug, Clone, Copy, PartialEq, Eq, Structural)]
pub struct Corroboration {
    pub symbol: usize,
    pub query: usize,
    pub evidence: u32,
}

/// Whether `found` is the best answer among the first pairs, or none.
pub open spec fn best_found(
    symbols: Seq<ImportSymbolView>,
    queries: Seq<QueryView>,
    seeds: Seq<Seq<char>>,
    vocabulary: Vocabulary,
    upto_query: int,
    upto_symbol: int,
    found: Option<Corroboration>,
) -> bool {
    match found {
        Some(best) => {
            &&& best_answer(
                symbols,
                queries,
                seeds,
                vocabulary,
                best.symbol as int,
                best.query as int,
                upto_query,
                upto_symbol,
            )
            &&& best.evidence == answer_evidence(
                symbols[best.symbol as int],
                queries[best.query as int],
                vocabulary,
            )
        },
        None => no_answer(symbols, queries, seeds, vocabulary, upto_query, upto_symbol),
    }
}

/// The best answer among symbols, where there is one.
pub open spec fn corroborated(
    symbols: Seq<ImportSymbolView>,
    queries: Seq<QueryView>,
    seeds: Seq<Seq<char>>,
    vocabulary: Vocabulary,
) -> Option<Corroboration> {
    let all = queries.len() as int;
    if no_answer(symbols, queries, seeds, vocabulary, all, 0) {
        None
    } else {
        Some(
            choose|best: Corroboration|
                #[trigger] best_found(symbols, queries, seeds, vocabulary, all, 0, Some(best)),
        )
    }
}

/// There is at most one best answer.
pub proof fn the_best_answer_is_unique(
    symbols: Seq<ImportSymbolView>,
    queries: Seq<QueryView>,
    seeds: Seq<Seq<char>>,
    vocabulary: Vocabulary,
    found: Option<Corroboration>,
)
    requires
        best_found(symbols, queries, seeds, vocabulary, queries.len() as int, 0, found),
    ensures
        found == corroborated(symbols, queries, seeds, vocabulary),
{
    let all = queries.len() as int;
    if let Some(a) = found {
        assert(answers(
            symbols[a.symbol as int],
            queries[a.query as int],
            seeds,
            vocabulary,
        ));
        assert(!no_answer(symbols, queries, seeds, vocabulary, all, 0));
        let b = choose|best: Corroboration|
            #[trigger] best_found(symbols, queries, seeds, vocabulary, all, 0, Some(best));
        assert(best_found(symbols, queries, seeds, vocabulary, all, 0, Some(b)));
        let (s, q) = (symbols[a.symbol as int], queries[a.query as int]);
        let (t, p) = (symbols[b.symbol as int], queries[b.query as int]);
        assert(a.symbol == b.symbol && a.query == b.query);
    }
}

fn class_of(exact: bool, qualified: bool) -> (r: usize)
    ensures
        r == (if qualified {
            2int
        } else {
            0
        }) + (if exact {
            1int
        } else {
            0
        }),
{
    if exact && qualified {
        3
    } else if qualified {
        2
    } else if exact {
        1
    } else {
        0
    }
}

fn evidence_of(exact: bool, qualified: bool) -> (r: u32)
    ensures
        r == (if exact {
            100int
        } else {
            0
        }) + (if qualified {
            150int
        } else {
            0
        }),
{
    if exact && qualified {
        250
    } else if qualified {
        150
    } else if exact {
        100
    } else {
        0
    }
}

/// The symbol behind an import that best answers a query on a concept of the
/// importing file.
#[verifier::rlimit(60)]
pub fn corroborated_import_symbol(
    symbols: &Vec<ImportSymbol>,
    queries: &Vec<ContextQuery>,
    seed_concepts: &Vec<String>,
    vocabulary: &Vocabulary,
) -> (r: Option<Corroboration>)
    ensures
        best_found(
            views(symbols@),
            views(queries@),
            texts(seed_concepts@),
            *vocabulary,
            queries@.len() as int,
            0,
            r,
        ),
        r == corroborated(views(symbols@), views(queries@), texts(seed_concepts@), *vocabulary),
{
    let ghost all = views(symbols@);
    let ghost asked = views(queries@);
    let ghost seeds = texts(seed_concepts@);
    let mut best: Option<Corroboration> = None;
    let mut best_class: usize = 0;
    let mut q: usize = 0;
    while q < queries.len()
        invariant
            q <= queries.len(),
            all == views(symbols@),
            asked == views(queries@),
            seeds == texts(seed_concepts@),
            best_found(all, asked, seeds, *vocabulary, q as int, 0, best),
            best matches Some(held) ==> held.query < q,
            best matches Some(held) ==> best_class == answer_class(
                all[held.symbol as int],
                asked[held.query as int],
                *vocabulary,
            ),
        decreases queries.len() - q,
    {
        let query = &queries[q];
        assert(asked[q as int] == query@);
        let usable = query.concept_weight >= MIN_CORROBORATED_QUERY_WEIGHT && list_has(
            seed_concepts,
            query.fusion_key.as_str(),
        ) && (query.has_facet(FacetKind::ExactAtom) || query.has_facet(FacetKind::Symbol)
            || query.has_facet(FacetKind::Configuration));
        if !usable {
            q += 1;
            continue;
        }
        let mut s: usize = 0;
        while s < symbols.len()
            invariant
                s <= symbols.len(),
                q < queries.len(),
                all == views(symbols@),
                asked == views(queries@),
                seeds == texts(seed_concepts@),
                query@ == asked[q as int],
                can_corroborate(query@, seeds),
                best_found(all, asked, seeds, *vocabulary, q as int, s as int, best),
                best matches Some(held) ==> held.query < q || held.query == q && held.symbol < s,
                best matches Some(held) ==> best_class == answer_class(
                    all[held.symbol as int],
                    asked[held.query as int],
                    *vocabulary,
                ),
            decreases symbols.len() - s,
        {
            let symbol = &symbols[s];
            assert(all[s as int] == symbol@);
            let exact = same_folded(symbol.name.as_str(), query.value.as_str());
            let qualified = qualified_symbol_match(
                query.fusion_key.as_str(),
                symbol.name.as_str(),
                &symbol.parent,
                &symbol.signature,
                vocabulary,
            );
            proof {
                assert(exact == names_exactly(all[s as int], asked[q as int]));
                assert(qualified == names_qualified(all[s as int], asked[q as int], *vocabulary));
            }
            if exact || qualified {
                let class: usize = class_of(exact, qualified);
                let better = match &best {
                    None => true,
                    Some(held) => class > best_class || class == best_class && (q < held.query || q
                        == held.query && symbol.start_line < symbols[held.symbol].start_line),
                };
                if better {
                    best =
                    Some(
                        Corroboration { symbol: s, query: q, evidence: evidence_of(
                            exact,
                            qualified,
                        ) },
                    );
                    best_class = class;
                }
            }
            s += 1;
        }
        q += 1;
    }
    proof {
        assert(asked.len() == queries@.len());
        the_best_answer_is_unique(all, asked, seeds, *vocabulary, best);
    }
    best
}

/// A path whose imports are followed, with its best score and its concepts.
#[derive(Debug)]
pub struct SeedPath {
    pub path: String,
    pub score: u64,
    pub concepts: Vec<String>,
}

/// What a [`SeedPath`] says.
pub struct SeedView {
    pub path: Seq<char>,
    pub score: u64,
    pub concepts: Seq<Seq<char>>,
}

impl View for SeedPath {
    type V = SeedView;

    open spec fn view(&self) -> SeedView {
        SeedView { path: self.path@, score: self.score, concepts: texts(self.concepts@) }
    }
}

/// Whether the imports of a candidate's file are worth following.
pub open spec fn seeds(candidate: CandidateView) -> bool {
    candidate.concept_weight >= MIN_CORROBORATED_QUERY_WEIGHT && candidate.concepts.len() > 0
}

/// The path of a candidate whose imports are followed.
pub open spec fn seed_path() -> spec_fn(CandidateView) -> Option<Seq<char>> {
    |candidate: CandidateView|
        if seeds(candidate) {
            Some(candidate.path)
        } else {
            None
        }
}

/// The concepts of a candidate on a path.
pub open spec fn seed_concepts(path: Seq<char>) -> spec_fn(CandidateView) -> Seq<Seq<char>> {
    |candidate: CandidateView|
        if seeds(candidate) && candidate.path == path {
            candidate.concepts
        } else {
            Seq::empty()
        }
}

/// A score, or none where it is missing.
pub open spec fn score_at(scores: Seq<u64>, i: int) -> u64 {
    if 0 <= i < scores.len() {
        scores[i]
    } else {
        0
    }
}

/// The best score of the first `upto` candidates on a path.
pub open spec fn best_score(
    candidates: Seq<CandidateView>,
    scores: Seq<u64>,
    path: Seq<char>,
    upto: int,
) -> u64
    decreases upto,
{
    if upto <= 0 || upto > candidates.len() {
        0
    } else {
        let before = best_score(candidates, scores, path, upto - 1);
        let score = score_at(scores, upto - 1);
        if seeds(candidates[upto - 1]) && candidates[upto - 1].path == path && score > before {
            score
        } else {
            before
        }
    }
}

/// What is followed of a path.
pub open spec fn seed_of(
    candidates: Seq<CandidateView>,
    scores: Seq<u64>,
    path: Seq<char>,
) -> SeedView {
    SeedView {
        path,
        score: best_score(candidates, scores, path, candidates.len() as int),
        concepts: sorted_unique(flat_map(candidates, seed_concepts(path))),
    }
}

/// Whether the imports of one path are followed before those of another.
pub open spec fn seed_first() -> spec_fn(SeedView, SeedView) -> bool {
    |a: SeedView, b: SeedView| a.score > b.score || a.score == b.score && text_lt(a.path, b.path)
}

/// The paths whose imports are followed, the best first. `scores` ranks the
/// candidates.
pub open spec fn seed_list(
    candidates: Seq<CandidateView>,
    queries: Seq<QueryView>,
    scores: Seq<u64>,
) -> Seq<SeedView> {
    let paths = sorted_unique(filter_map(candidates, seed_path()));
    if sorted_unique(filter_map(queries, exact_key())).len() == 1 {
        Seq::empty()
    } else {
        sorted_by(
            Seq::new(paths.len(), |i: int| seed_of(candidates, scores, paths[i])),
            seed_first(),
        )
    }
}

fn is_seed(candidate: &Candidate) -> (r: bool)
    ensures
        r == seeds(candidate@),
{
    assert(texts(candidate.concepts@).len() == candidate.concepts@.len());
    candidate.concept_weight >= MIN_CORROBORATED_QUERY_WEIGHT && candidate.concepts.len() > 0
}

fn gather_seed(candidates: &Vec<Candidate>, scores: &Vec<u64>, path: &str) -> (r: SeedPath)
    ensures
        r@ == seed_of(views(candidates@), scores@, path@),
{
    let ghost all = views(candidates@);
    let mut concepts: Vec<String> = Vec::new();
    let mut score: u64 = 0;
    let mut i: usize = 0;
    assert(texts(concepts@) =~= flat_map(all.take(0), seed_concepts(path@)));
    while i < candidates.len()
        invariant
            i <= candidates.len(),
            all == views(candidates@),
            all.len() == candidates@.len(),
            texts(concepts@) == flat_map(all.take(i as int), seed_concepts(path@)),
            score == best_score(all, scores@, path@, i as int),
        decreases candidates.len() - i,
    {
        let ghost before = texts(concepts@);
        proof {
            flat_map_push(all, seed_concepts(path@), i as int);
            assert(all[i as int] == candidates@[i as int]@);
        }
        if is_seed(&candidates[i]) && same_text(candidates[i].path.as_str(), path) {
            let mut more = copy_texts(&candidates[i].concepts);
            let ghost added = texts(more@);
            concepts.append(&mut more);
            assert(texts(concepts@) =~= before + added);
            let mine: u64 = if i < scores.len() {
                scores[i]
            } else {
                0
            };
            if mine > score {
                score = mine;
            }
        } else {
            assert(before + Seq::<Seq<char>>::empty() =~= before);
        }
        i += 1;
    }
    assert(all.take(all.len() as int) =~= all);
    SeedPath { path: copy_text(path), score, concepts: sort_unique_texts(concepts) }
}

fn seed_precedes(a: &SeedPath, b: &SeedPath) -> (r: bool)
    ensures
        r == seed_first()(a@, b@),
{
    a.score > b.score || a.score == b.score && text_precedes(&a.path, &b.path)
}

fn seed_paths_of(candidates: &Vec<Candidate>) -> (r: Vec<String>)
    ensures
        texts(r@) == sorted_unique(filter_map(views(candidates@), seed_path())),
{
    let ghost all = views(candidates@);
    let mut paths: Vec<String> = Vec::new();
    let mut i: usize = 0;
    assert(texts(paths@) =~= filter_map(all.take(0), seed_path()));
    while i < candidates.len()
        invariant
            i <= candidates.len(),
            all == views(candidates@),
            texts(paths@) == filter_map(all.take(i as int), seed_path()),
        decreases candidates.len() - i,
    {
        let ghost before = texts(paths@);
        proof {
            filter_map_push(all, seed_path(), i as int);
            assert(all[i as int] == candidates@[i as int]@);
        }
        if is_seed(&candidates[i]) {
            paths.push(candidates[i].path.clone());
            assert(texts(paths@) =~= before.push(candidates@[i as int].path@));
        }
        i += 1;
    }
    assert(all.take(all.len() as int) =~= all);
    sort_unique_texts(paths)
}

/// The paths whose imports are followed, the best first. Nothing is followed
/// where the queries name exactly one thing.
pub fn import_seed_paths(
    candidates: &Vec<Candidate>,
    queries: &Vec<ContextQuery>,
    scores: &Vec<u64>,
) -> (r: Vec<SeedPath>)
    ensures
        views(r@) == seed_list(views(candidates@), views(queries@), scores@),
{
    let mut found: Vec<SeedPath> = Vec::new();
    if low_cardinality_exact_query(queries) {
        assert(views(found@) =~= Seq::<SeedView>::empty());
        return found;
    }
    let paths = seed_paths_of(candidates);
    let ghost known = texts(paths@);
    let ghost all = Seq::new(
        known.len(),
        |i: int| seed_of(views(candidates@), scores@, known[i]),
    );
    let mut i: usize = 0;
    assert(views(found@) =~= all.take(0));
    while i < paths.len()
        invariant
            i <= paths.len(),
            known == texts(paths@),
            all == Seq::new(
                known.len(),
                |i: int| seed_of(views(candidates@), scores@, known[i]),
            ),
            views(found@) == all.take(i as int),
        decreases paths.len() - i,
    {
        let ghost before = views(found@);
        assert(known[i as int] == paths@[i as int]@);
        let item = gather_seed(candidates, scores, paths[i].as_str());
        let ghost added = item@;
        found.push(item);
        assert(views(found@) =~= before.push(added));
        assert(views(found@) =~= all.take(i + 1));
        i += 1;
    }
    assert(all.take(all.len() as int) =~= all);
    sort_by(found, seed_precedes, Ghost(seed_first()))
}

} // verus!
