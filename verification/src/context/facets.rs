//! What a task asks for, as a bounded plan of queries.

use crate::lists::{
    distinct_by, distinct_by_push, filter_map, filter_map_push, first_where, first_where_is,
    flat_map, flat_map_push, holds_key,
};
use crate::ordered::{
    bounded_selection_is_the_first, first_of, insert_within, put, put_all, put_members, sort_by,
    sorted_by, strictly_ordered, text_lt, views, weak_order,
};
use crate::text::{
    appended, begins, byte_len, byte_len_push, char_bytes, char_count, chars_of, code_words,
    code_words_of, contains_text, copy_text, copy_texts, drop_empty, find_from, first_at,
    first_at_bounds, has_char, join_texts, joined_by, list_has, lower_text, lowered, nonempty,
    occurs, only, pieces, same_folded, same_text, split_on, split_text, starts_text, text_of, texts,
    trim_text, trimmed, unicode_alphabetic, unicode_alphanumeric, unicode_uppercase, word_break,
    words, words_of,
};
use vstd::prelude::*;

verus! {

/// The most technical atoms of a task.
pub const MAX_ATOMS: usize = 16;

/// The most variants of a facet.
pub const MAX_FACET_VARIANTS: usize = 4;

/// The most quoted phrases of a task.
pub const MAX_QUOTED_PHRASES: usize = 4;

/// The most single terms of a task.
pub const MAX_BEHAVIOR_TERMS: usize = 6;

/// The most phrases of two words of a task.
pub const MAX_NATURAL_PHRASES: usize = 2;

/// What a query stands for in a task.
#[derive(Debug, Clone, Copy, PartialEq, Eq, Structural)]
pub enum FacetKind {
    ExactAtom,
    PrimaryChange,
    FailureTrace,
    PreserveConstraint,
    Symbol,
    Path,
    Behavior,
    TestIntent,
    Configuration,
}

impl FacetKind {
    /// The name of a kind.
    pub open spec fn name(self) -> Seq<char> {
        match self {
            FacetKind::ExactAtom => "exact_atom"@,
            FacetKind::PrimaryChange => "primary_change"@,
            FacetKind::FailureTrace => "failure_trace"@,
            FacetKind::PreserveConstraint => "preserve_constraint"@,
            FacetKind::Symbol => "symbol"@,
            FacetKind::Path => "path"@,
            FacetKind::Behavior => "behavior"@,
            FacetKind::TestIntent => "test_intent"@,
            FacetKind::Configuration => "configuration"@,
        }
    }

    /// The name of a kind.
    pub fn as_str(self) -> (r: &'static str)
        ensures
            r@ == self.name(),
    {
        match self {
            FacetKind::ExactAtom => "exact_atom",
            FacetKind::PrimaryChange => "primary_change",
            FacetKind::FailureTrace => "failure_trace",
            FacetKind::PreserveConstraint => "preserve_constraint",
            FacetKind::Symbol => "symbol",
            FacetKind::Path => "path",
            FacetKind::Behavior => "behavior",
            FacetKind::TestIntent => "test_intent",
            FacetKind::Configuration => "configuration",
        }
    }
}

/// A set of kinds.
#[derive(Debug, Clone, Copy, PartialEq, Eq, Structural)]
pub struct FacetSet {
    pub exact_atom: bool,
    pub primary_change: bool,
    pub failure_trace: bool,
    pub preserve_constraint: bool,
    pub symbol: bool,
    pub path: bool,
    pub behavior: bool,
    pub test_intent: bool,
    pub configuration: bool,
}

/// The set of no kind.
pub open spec fn no_facets() -> FacetSet {
    FacetSet {
        exact_atom: false,
        primary_change: false,
        failure_trace: false,
        preserve_constraint: false,
        symbol: false,
        path: false,
        behavior: false,
        test_intent: false,
        configuration: false,
    }
}

impl FacetSet {
    /// Whether a set holds a kind.
    pub open spec fn holds(self, kind: FacetKind) -> bool {
        match kind {
            FacetKind::ExactAtom => self.exact_atom,
            FacetKind::PrimaryChange => self.primary_change,
            FacetKind::FailureTrace => self.failure_trace,
            FacetKind::PreserveConstraint => self.preserve_constraint,
            FacetKind::Symbol => self.symbol,
            FacetKind::Path => self.path,
            FacetKind::Behavior => self.behavior,
            FacetKind::TestIntent => self.test_intent,
            FacetKind::Configuration => self.configuration,
        }
    }

    /// A set with one more kind.
    pub open spec fn plus(self, kind: FacetKind) -> FacetSet {
        match kind {
            FacetKind::ExactAtom => FacetSet { exact_atom: true, ..self },
            FacetKind::PrimaryChange => FacetSet { primary_change: true, ..self },
            FacetKind::FailureTrace => FacetSet { failure_trace: true, ..self },
            FacetKind::PreserveConstraint => FacetSet { preserve_constraint: true, ..self },
            FacetKind::Symbol => FacetSet { symbol: true, ..self },
            FacetKind::Path => FacetSet { path: true, ..self },
            FacetKind::Behavior => FacetSet { behavior: true, ..self },
            FacetKind::TestIntent => FacetSet { test_intent: true, ..self },
            FacetKind::Configuration => FacetSet { configuration: true, ..self },
        }
    }

    /// The set of one kind.
    pub fn of(kind: FacetKind) -> (r: FacetSet)
        ensures
            r == no_facets().plus(kind),
    {
        FacetSet {
            exact_atom: false,
            primary_change: false,
            failure_trace: false,
            preserve_constraint: false,
            symbol: false,
            path: false,
            behavior: false,
            test_intent: false,
            configuration: false,
        }.with(kind)
    }

    /// Whether a set holds a kind.
    pub fn has(self, kind: FacetKind) -> (r: bool)
        ensures
            r == self.holds(kind),
    {
        match kind {
            FacetKind::ExactAtom => self.exact_atom,
            FacetKind::PrimaryChange => self.primary_change,
            FacetKind::FailureTrace => self.failure_trace,
            FacetKind::PreserveConstraint => self.preserve_constraint,
            FacetKind::Symbol => self.symbol,
            FacetKind::Path => self.path,
            FacetKind::Behavior => self.behavior,
            FacetKind::TestIntent => self.test_intent,
            FacetKind::Configuration => self.configuration,
        }
    }

    /// A set with one more kind.
    pub fn with(self, kind: FacetKind) -> (r: FacetSet)
        ensures
            r == self.plus(kind),
    {
        let mut out = self;
        match kind {
            FacetKind::ExactAtom => {
                out.exact_atom = true;
            },
            FacetKind::PrimaryChange => {
                out.primary_change = true;
            },
            FacetKind::FailureTrace => {
                out.failure_trace = true;
            },
            FacetKind::PreserveConstraint => {
                out.preserve_constraint = true;
            },
            FacetKind::Symbol => {
                out.symbol = true;
            },
            FacetKind::Path => {
                out.path = true;
            },
            FacetKind::Behavior => {
                out.behavior = true;
            },
            FacetKind::TestIntent => {
                out.test_intent = true;
            },
            FacetKind::Configuration => {
                out.configuration = true;
            },
        }
        out
    }
}

/// What is known of one term's parts.
#[derive(Debug)]
pub struct VocabularyEntry {
    pub term: String,
    pub terms: Vec<String>,
    pub words: Vec<String>,
    pub identifier: Vec<String>,
}

/// What a [`VocabularyEntry`] says.
pub struct EntryView {
    pub term: Seq<char>,
    pub terms: Seq<Seq<char>>,
    pub words: Seq<Seq<char>>,
    pub identifier: Seq<Seq<char>>,
}

impl View for VocabularyEntry {
    type V = EntryView;

    open spec fn view(&self) -> EntryView {
        EntryView {
            term: self.term@,
            terms: texts(self.terms@),
            words: texts(self.words@),
            identifier: texts(self.identifier@),
        }
    }
}

/// The parts of terms, as the caller's tokenizer splits them. A term without an
/// entry has no parts.
#[derive(Debug)]
pub struct Vocabulary {
    pub entries: Vec<VocabularyEntry>,
}

/// Whether an entry is about a term.
pub open spec fn about(term: Seq<char>) -> spec_fn(EntryView) -> bool {
    |entry: EntryView| entry.term == term
}

impl Vocabulary {
    /// The entry of a term, or one without parts.
    pub open spec fn entry(self, term: Seq<char>) -> EntryView {
        let all = views(self.entries@);
        let at = first_where(all, about(term));
        if at < all.len() {
            all[at]
        } else {
            EntryView { term, terms: Seq::empty(), words: Seq::empty(), identifier: Seq::empty() }
        }
    }

    /// The search terms that a term expands to.
    pub open spec fn terms_of(self, term: Seq<char>) -> Seq<Seq<char>> {
        self.entry(term).terms
    }

    fn find(&self, term: &str) -> (r: usize)
        ensures
            r == first_where(views(self.entries@), about(term@)),
            r <= self.entries@.len(),
    {
        let ghost all = views(self.entries@);
        let mut i: usize = 0;
        while i < self.entries.len() && !same_text(self.entries[i].term.as_str(), term)
            invariant
                i <= self.entries.len(),
                all == views(self.entries@),
                forall|k: int| 0 <= k < i ==> !about(term@)(#[trigger] all[k]),
            decreases self.entries.len() - i,
        {
            assert(all[i as int] == self.entries@[i as int]@);
            i += 1;
        }
        proof {
            if i < self.entries.len() {
                assert(all[i as int] == self.entries@[i as int]@);
            }
            first_where_is(all, about(term@), i as int);
        }
        i
    }

    /// The search terms that a term expands to.
    pub fn expand_terms(&self, term: &str) -> (r: Vec<String>)
        ensures
            texts(r@) == self.terms_of(term@),
    {
        let at: usize = self.find(term);
        if at < self.entries.len() {
            assert(views(self.entries@)[at as int] == self.entries@[at as int]@);
            copy_texts(&self.entries[at].terms)
        } else {
            let none: Vec<String> = Vec::new();
            assert(texts(none@) =~= Seq::<Seq<char>>::empty());
            none
        }
    }

    /// The words that an identifier is made of.
    pub fn identifier_words(&self, term: &str) -> (r: Vec<String>)
        ensures
            texts(r@) == self.entry(term@).words,
    {
        let at: usize = self.find(term);
        if at < self.entries.len() {
            assert(views(self.entries@)[at as int] == self.entries@[at as int]@);
            copy_texts(&self.entries[at].words)
        } else {
            let none: Vec<String> = Vec::new();
            assert(texts(none@) =~= Seq::<Seq<char>>::empty());
            none
        }
    }

    /// The forms that an identifier is also written in.
    pub fn expand_identifier(&self, term: &str) -> (r: Vec<String>)
        ensures
            texts(r@) == self.entry(term@).identifier,
    {
        let at: usize = self.find(term);
        if at < self.entries.len() {
            assert(views(self.entries@)[at as int] == self.entries@[at as int]@);
            copy_texts(&self.entries[at].identifier)
        } else {
            let none: Vec<String> = Vec::new();
            assert(texts(none@) =~= Seq::<Seq<char>>::empty());
            none
        }
    }
}

/// A text, where it has at least `count` characters.
pub open spec fn at_least(count: nat) -> spec_fn(Seq<char>) -> Option<Seq<char>> {
    |text: Seq<char>|
        if text.len() >= count {
            Some(text)
        } else {
            None
        }
}

/// The terms of a task: its words of two characters and more.
pub open spec fn terms_in(task: Seq<char>) -> Seq<Seq<char>> {
    filter_map(pieces(task, word_break()), at_least(2))
}

fn is_word_break(c: char) -> (r: bool)
    ensures
        r == word_break()(c),
{
    !c.is_alphanumeric() && c != '_'
}

/// The terms of a task: its words of two characters and more.
pub fn task_terms(task: &str) -> (r: Vec<String>)
    ensures
        texts(r@) == terms_in(task@),
{
    let parts = split_text(task, is_word_break, Ghost(word_break()));
    let ghost all = texts(parts@);
    let mut out: Vec<String> = Vec::new();
    let mut i: usize = 0;
    assert(texts(out@) =~= filter_map(all.take(0), at_least(2)));
    while i < parts.len()
        invariant
            i <= parts.len(),
            all == texts(parts@),
            texts(out@) == filter_map(all.take(i as int), at_least(2)),
        decreases parts.len() - i,
    {
        let ghost before = texts(out@);
        proof {
            filter_map_push(all, at_least(2), i as int);
        }
        if char_count(parts[i].as_str()) >= 2 {
            out.push(parts[i].clone());
            assert(texts(out@) =~= before.push(parts@[i as int]@));
        }
        i += 1;
    }
    assert(all.take(all.len() as int) =~= all);
    out
}

/// Whether a term asks for tests.
pub open spec fn test_term(term: Seq<char>) -> bool {
    let low = lowered(term);
    ||| low == "test"@
    ||| low == "tests"@
    ||| low == "testing"@
    ||| low == "coverage"@
    ||| low == "regression"@
    ||| low == "spec"@
}

/// Whether a term asks for tests.
pub fn is_test_term(term: &str) -> (r: bool)
    ensures
        r == test_term(term@),
{
    let folded = lower_text(term);
    let low = folded.as_str();
    same_text(low, "test") || same_text(low, "tests") || same_text(low, "testing") || same_text(
        low,
        "coverage",
    ) || same_text(low, "regression") || same_text(low, "spec")
}

/// Whether a term speaks of configuration.
pub open spec fn configuration_term(term: Seq<char>) -> bool {
    let low = lowered(term);
    ||| occurs(low, "config"@)
    ||| occurs(low, "setting"@)
    ||| occurs(low, "option"@)
    ||| occurs(low, "feature"@)
    ||| occurs(low, "server_name"@)
    ||| begins(low, "env_"@)
}

/// Whether a term speaks of configuration.
pub fn is_configuration_term(term: &str) -> (r: bool)
    ensures
        r == configuration_term(term@),
{
    let folded = lower_text(term);
    let low = folded.as_str();
    contains_text(low, "config") || contains_text(low, "setting") || contains_text(low, "option")
        || contains_text(low, "feature") || contains_text(low, "server_name") || starts_text(
        low,
        "env_",
    )
}

/// Whether a word says too little to be looked for.
#[verifier::opaque]
pub open spec fn stop_word(term: Seq<char>) -> bool {
    let low = lowered(term);
    ||| low == "a"@
    ||| low == "an"@
    ||| low == "and"@
    ||| low == "add"@
    ||| low == "adding"@
    ||| low == "are"@
    ||| low == "as"@
    ||| low == "be"@
    ||| low == "before"@
    ||| low == "both"@
    ||| low == "but"@
    ||| low == "by"@
    ||| low == "calling"@
    ||| low == "can"@
    ||| low == "callback"@
    ||| low == "change"@
    ||| low == "does"@
    ||| low == "each"@
    ||| low == "ensure"@
    ||| low == "every"@
    ||| low == "fail"@
    ||| low == "find"@
    ||| low == "fix"@
    ||| low == "for"@
    ||| low == "from"@
    ||| low == "how"@
    ||| low == "if"@
    ||| low == "in"@
    ||| low == "into"@
    ||| low == "is"@
    ||| low == "it"@
    ||| low == "its"@
    ||| low == "keep"@
    ||| low == "locate"@
    ||| low == "loudly"@
    ||| low == "make"@
    ||| low == "must"@
    ||| low == "not"@
    ||| low == "of"@
    ||| low == "on"@
    ||| low == "one"@
    ||| low == "only"@
    ||| low == "or"@
    ||| low == "preserve"@
    ||| low == "same"@
    ||| low == "so"@
    ||| low == "than"@
    ||| low == "then"@
    ||| low == "the"@
    ||| low == "this"@
    ||| low == "to"@
    ||| low == "trace"@
    ||| low == "update"@
    ||| low == "when"@
    ||| low == "while"@
    ||| low == "within"@
    ||| low == "without"@
    ||| low == "with"@
}

/// Whether a word says too little to be looked for.
#[verifier::rlimit(40)]
pub fn is_stop_word(term: &str) -> (r: bool)
    ensures
        r == stop_word(term@),
{
    proof {
        reveal(stop_word);
    }
    let folded = lower_text(term);
    let low = folded.as_str();
    same_text(low, "a") || same_text(low, "an") || same_text(low, "and") || same_text(low, "add")
        || same_text(low, "adding") || same_text(low, "are") || same_text(low, "as") || same_text(
        low,
        "be",
    ) || same_text(low, "before") || same_text(low, "both") || same_text(low, "but") || same_text(
        low,
        "by",
    ) || same_text(low, "calling") || same_text(low, "can") || same_text(low, "callback")
        || same_text(low, "change") || same_text(low, "does") || same_text(low, "each")
        || same_text(low, "ensure") || same_text(low, "every") || same_text(low, "fail")
        || same_text(low, "find") || same_text(low, "fix") || same_text(low, "for") || same_text(
        low,
        "from",
    ) || same_text(low, "how") || same_text(low, "if") || same_text(low, "in") || same_text(
        low,
        "into",
    ) || same_text(low, "is") || same_text(low, "it") || same_text(low, "its") || same_text(
        low,
        "keep",
    ) || same_text(low, "locate") || same_text(low, "loudly") || same_text(low, "make")
        || same_text(low, "must") || same_text(low, "not") || same_text(low, "of") || same_text(
        low,
        "on",
    ) || same_text(low, "one") || same_text(low, "only") || same_text(low, "or") || same_text(
        low,
        "preserve",
    ) || same_text(low, "same") || same_text(low, "so") || same_text(low, "than") || same_text(
        low,
        "then",
    ) || same_text(low, "the") || same_text(low, "this") || same_text(low, "to") || same_text(
        low,
        "trace",
    ) || same_text(low, "update") || same_text(low, "when") || same_text(low, "while")
        || same_text(low, "within") || same_text(low, "without") || same_text(low, "with")
}

/// The weight of a word of prose by its length, in hundredths.
pub open spec fn word_weight(term: Seq<char>) -> u32 {
    if term.len() >= 10 {
        80
    } else if term.len() >= 7 {
        65
    } else if term.len() >= 4 {
        45
    } else {
        25
    }
}

/// The weight of a word of prose by its length, in hundredths.
pub fn prose_weight(term: &str) -> (r: u32)
    ensures
        r == word_weight(term@),
{
    let count: usize = char_count(term);
    if count >= 10 {
        80
    } else if count >= 7 {
        65
    } else if count >= 4 {
        45
    } else {
        25
    }
}

/// Whether a text holds a mark that joins the parts of code names.
pub open spec fn has_joint(term: Seq<char>) -> bool {
    term.contains('_') || term.contains(':') || term.contains('.') || term.contains('-')
}

/// The weight of a query's text, in hundredths.
pub open spec fn text_weight(term: Seq<char>, code: bool) -> u32 {
    if code {
        if has_joint(term) {
            100
        } else {
            95
        }
    } else if has_joint(term) {
        90
    } else {
        word_weight(term)
    }
}

/// The weight of a query's text, in hundredths.
pub fn context_query_weight(term: &str, explicit_code_token: bool) -> (r: u32)
    ensures
        r == text_weight(term@, explicit_code_token),
{
    let joint = has_char(term, '_') || has_char(term, ':') || has_char(term, '.') || has_char(
        term,
        '-',
    );
    if explicit_code_token {
        if joint {
            100
        } else {
            95
        }
    } else if joint {
        90
    } else {
        prose_weight(term)
    }
}

/// A text without the word breaks at its beginning.
pub open spec fn without_start(s: Seq<char>) -> Seq<char>
    decreases s.len(),
{
    if s.len() > 0 && word_break()(s[0]) {
        without_start(s.subrange(1, s.len() as int))
    } else {
        s
    }
}

/// A text without the word breaks at its end.
pub open spec fn without_end(s: Seq<char>) -> Seq<char>
    decreases s.len(),
{
    if s.len() > 0 && word_break()(s.last()) {
        without_end(s.drop_last())
    } else {
        s
    }
}

/// A text without the word breaks at its ends.
pub open spec fn word_core(s: Seq<char>) -> Seq<char> {
    without_end(without_start(s))
}

fn core_of(s: &str) -> (r: String)
    ensures
        r@ == word_core(s@),
{
    let chars = chars_of(s);
    let mut from: usize = 0;
    assert(s@.subrange(0, s@.len() as int) =~= s@);
    while from < chars.len() && is_word_break(chars[from])
        invariant
            from <= chars.len(),
            chars@ == s@,
            without_start(s@) == without_start(s@.subrange(from as int, s@.len() as int)),
        decreases chars.len() - from,
    {
        assert(s@.subrange(from as int, s@.len() as int).subrange(
            1,
            s@.len() - from,
        ) =~= s@.subrange(from + 1, s@.len() as int));
        from += 1;
    }
    assert(without_start(s@) == s@.subrange(from as int, s@.len() as int));
    let mut to: usize = chars.len();
    while to > from && is_word_break(chars[to - 1])
        invariant
            from <= to <= chars.len(),
            chars@ == s@,
            without_end(s@.subrange(from as int, s@.len() as int)) == without_end(
                s@.subrange(from as int, to as int),
            ),
        decreases to,
    {
        assert(s@.subrange(from as int, to as int).drop_last() =~= s@.subrange(
            from as int,
            to - 1,
        ));
        to -= 1;
    }
    text_of(chars.as_slice(), from, to)
}

/// Whether a text holds a capital letter.
pub open spec fn has_upper(s: Seq<char>) -> bool {
    exists|i: int| 0 <= i < s.len() && unicode_uppercase(#[trigger] s[i])
}

fn any_upper(s: &str) -> (r: bool)
    ensures
        r == has_upper(s@),
{
    let chars = chars_of(s);
    let mut i: usize = 0;
    while i < chars.len()
        invariant
            i <= chars.len(),
            chars@ == s@,
            forall|k: int| 0 <= k < i ==> !unicode_uppercase(#[trigger] s@[k]),
        decreases chars.len() - i,
    {
        if chars[i].is_uppercase() {
            assert(unicode_uppercase(s@[i as int]));
            return true;
        }
        i += 1;
    }
    false
}

/// Whether a word is written as code is.
pub open spec fn code_like(token: Seq<char>) -> bool {
    ||| token.contains('_')
    ||| occurs(token, "::"@)
    ||| token.contains('.')
    ||| token.contains('-') && has_upper(token)
}

/// The core of a word, where it is written as code is.
pub open spec fn code_core() -> spec_fn(Seq<char>) -> Option<Seq<char>> {
    |word: Seq<char>|
        if code_like(word_core(word)) {
            Some(word_core(word))
        } else {
            None
        }
}

/// The words of a task that are written as code is.
pub open spec fn token_list(task: Seq<char>) -> Seq<Seq<char>> {
    filter_map(words(task), code_core())
}

/// The words of a task that are written as code is.
pub fn code_tokens(task: &str) -> (r: Vec<String>)
    ensures
        texts(r@) == token_list(task@),
{
    let parts = words_of(task);
    let ghost all = texts(parts@);
    let mut out: Vec<String> = Vec::new();
    let mut i: usize = 0;
    assert(texts(out@) =~= filter_map(all.take(0), code_core()));
    while i < parts.len()
        invariant
            i <= parts.len(),
            all == texts(parts@),
            texts(out@) == filter_map(all.take(i as int), code_core()),
        decreases parts.len() - i,
    {
        let ghost before = texts(out@);
        proof {
            filter_map_push(all, code_core(), i as int);
        }
        let token = core_of(parts[i].as_str());
        let like = has_char(token.as_str(), '_') || contains_text(token.as_str(), "::")
            || has_char(token.as_str(), '.') || (has_char(token.as_str(), '-') && any_upper(
            token.as_str(),
        ));
        if like {
            let ghost added = token@;
            out.push(token);
            assert(texts(out@) =~= before.push(added));
        }
        i += 1;
    }
    assert(all.take(all.len() as int) =~= all);
    out
}

/// Whether an atom may begin with a character.
pub open spec fn opens_atom(c: char) -> bool {
    unicode_alphanumeric(c) || c == '_' || c == '#' || c == '@'
}

/// Whether an atom may end with a character.
pub open spec fn closes_atom(c: char) -> bool {
    unicode_alphanumeric(c) || c == '_' || c == ']' || c == '>'
}

/// Characters that may begin an atom.
pub open spec fn by_opening() -> spec_fn(char) -> bool {
    |c: char| opens_atom(c)
}

/// The end of what may be an atom: behind the last character that may end one.
pub open spec fn atom_end(raw: Seq<char>) -> int
    decreases raw.len(),
{
    if raw.len() == 0 {
        0
    } else if closes_atom(raw.last()) {
        raw.len() as int
    } else {
        atom_end(raw.drop_last())
    }
}

/// What of a text may be an atom, before a call's arguments are cut off.
pub open spec fn atom_core(raw: Seq<char>) -> Seq<char> {
    let start = first_where(raw, by_opening());
    let end = atom_end(raw);
    if start < end {
        raw.subrange(start, end)
    } else {
        Seq::empty()
    }
}

/// A text without what stands from a bracket on, but for generic types.
pub open spec fn without_call(text: Seq<char>) -> Seq<char> {
    match first_at(text, "("@, 0) {
        Some(at) => if text.contains('<') {
            text
        } else {
            text.take(at)
        },
        None => text,
    }
}

/// The atom in a piece of a task, if it holds one.
pub open spec fn atom_of(raw: Seq<char>) -> Option<Seq<char>> {
    match first_at(raw, "]"@, 0) {
        Some(end) if begins(raw, "#["@) => Some(raw.take(end + 1)),
        _ => if without_call(atom_core(raw)).len() > 0 {
            Some(without_call(atom_core(raw)))
        } else {
            None
        },
    }
}

fn atom_bounds(chars: &Vec<char>) -> (r: (usize, usize))
    ensures
        r.0 == first_where(chars@, by_opening()),
        r.1 == atom_end(chars@),
        r.0 <= chars@.len(),
        r.1 <= chars@.len(),
{
    let mut start: usize = 0;
    while start < chars.len() && !(chars[start].is_alphanumeric() || chars[start] == '_'
        || chars[start] == '#' || chars[start] == '@')
        invariant
            start <= chars.len(),
            forall|k: int| 0 <= k < start ==> !by_opening()(#[trigger] chars@[k]),
        decreases chars.len() - start,
    {
        start += 1;
    }
    proof {
        first_where_is(chars@, by_opening(), start as int);
    }
    let mut end: usize = chars.len();
    assert(chars@.take(chars@.len() as int) =~= chars@);
    while end > 0 && !(chars[end - 1].is_alphanumeric() || chars[end - 1] == '_' || chars[end - 1]
        == ']' || chars[end - 1] == '>')
        invariant
            end <= chars.len(),
            atom_end(chars@) == atom_end(chars@.take(end as int)),
        decreases end,
    {
        assert(chars@.take(end as int).drop_last() =~= chars@.take(end - 1));
        end -= 1;
    }
    (start, end)
}

/// What an optional text says.
pub open spec fn optional_view(value: Option<String>) -> Option<Seq<char>> {
    match value {
        Some(text) => Some(text@),
        None => None,
    }
}

/// The atom in a piece of a task, if it holds one: an attribute as it stands,
/// else what lies between the first character that may begin an atom and the
/// last that may end one, without a call's arguments.
pub fn normalize_atom(raw: &str) -> (r: Option<String>)
    ensures
        optional_view(r) == atom_of(raw@),
{
    let chars = chars_of(raw);
    let bracket = chars_of("]");
    if starts_text(raw, "#[") {
        if let Some(end) = find_from(&chars, &bracket, 0) {
            let total: usize = chars.len();
            proof {
                reveal_strlit("]");
                first_at_bounds(raw@, "]"@, 0);
                assert(end + 1 <= total);
            }
            let text = text_of(chars.as_slice(), 0, end + 1);
            assert(text@ =~= raw@.take(end + 1));
            return Some(text);
        }
    }
    let (start, end) = atom_bounds(&chars);
    if start >= end {
        proof {
            first_at_bounds(atom_core(raw@), "("@, 0);
            assert(without_call(atom_core(raw@)).len() == 0);
        }
        return None;
    }
    let text = text_of(chars.as_slice(), start, end);
    assert(text@ == atom_core(raw@));
    let found = chars_of(text.as_str());
    let opening = chars_of("(");
    let kept = match find_from(&found, &opening, 0) {
        Some(at) => if has_char(text.as_str(), '<') {
            text
        } else {
            proof {
                first_at_bounds(text@, "("@, 0);
            }
            let short = text_of(found.as_slice(), 0, at);
            assert(short@ =~= text@.take(at as int));
            short
        },
        None => text,
    };
    if kept.as_str().is_empty() {
        None
    } else {
        Some(kept)
    }
}

/// Whether a small letter stands before a capital.
pub open spec fn humped(s: Seq<char>) -> bool {
    exists|i: int| 0 <= i < s.len() - 1 && hump_at(s, i)
}

/// Whether a small letter and a capital stand at a position.
pub open spec fn hump_at(s: Seq<char>, i: int) -> bool {
    'a' <= s[i] && s[i] <= 'z' && 'A' <= s[i + 1] && s[i + 1] <= 'Z'
}

/// Whether all characters are letters or numbers, and there is one.
pub open spec fn solid(part: Seq<char>) -> bool {
    part.len() > 0 && forall|i: int|
        0 <= i < part.len() ==> unicode_alphanumeric(#[trigger] part[i])
}

/// Whether hyphens join words of letters and numbers.
pub open spec fn hyphenated(s: Seq<char>) -> bool {
    s.contains('-') && forall|i: int|
        0 <= i < pieces(s, only('-')).len() ==> solid(#[trigger] pieces(s, only('-'))[i])
}

/// Whether a text has letters, and all of them are capitals.
pub open spec fn capitals(s: Seq<char>) -> bool {
    &&& exists|i: int| 0 <= i < s.len() && unicode_alphabetic(#[trigger] s[i])
    &&& forall|i: int|
        0 <= i < s.len() && unicode_alphabetic(#[trigger] s[i]) ==> unicode_uppercase(s[i])
}

/// Whether a text looks like a name out of code, a path or a constant.
pub open spec fn technical(value: Seq<char>) -> bool {
    ||| begins(value, "#["@)
    ||| begins(value, "@"@)
    ||| occurs(value, "::"@)
    ||| value.contains('.')
    ||| value.contains('/')
    ||| value.contains('_')
    ||| value.contains('<')
    ||| humped(value)
    ||| hyphenated(value)
    ||| value.len() >= 3 && capitals(value)
}

fn has_hump(s: &str) -> (r: bool)
    ensures
        r == humped(s@),
{
    let chars = chars_of(s);
    let mut i: usize = 1;
    while i < chars.len()
        invariant
            1 <= i,
            chars@ == s@,
            forall|k: int| 0 <= k < i - 1 && k < s@.len() - 1 ==> !(#[trigger] hump_at(s@, k)),
        decreases chars.len() - i,
    {
        let a = chars[i - 1];
        let b = chars[i];
        if 'a' <= a && a <= 'z' && 'A' <= b && b <= 'Z' {
            assert(hump_at(s@, i - 1));
            return true;
        }
        assert(!hump_at(s@, i - 1));
        i += 1;
    }
    false
}

fn is_solid(part: &str) -> (r: bool)
    ensures
        r == solid(part@),
{
    let chars = chars_of(part);
    let mut i: usize = 0;
    while i < chars.len()
        invariant
            i <= chars.len(),
            chars@ == part@,
            forall|k: int| 0 <= k < i ==> unicode_alphanumeric(#[trigger] part@[k]),
        decreases chars.len() - i,
    {
        if !chars[i].is_alphanumeric() {
            assert(!unicode_alphanumeric(part@[i as int]));
            return false;
        }
        i += 1;
    }
    chars.len() > 0
}

fn is_hyphenated(s: &str) -> (r: bool)
    ensures
        r == hyphenated(s@),
{
    if !has_char(s, '-') {
        return false;
    }
    let parts = split_on(s, '-');
    let ghost all = texts(parts@);
    let mut i: usize = 0;
    while i < parts.len()
        invariant
            i <= parts.len(),
            all == texts(parts@),
            all == pieces(s@, only('-')),
            forall|k: int| 0 <= k < i ==> solid(#[trigger] all[k]),
        decreases parts.len() - i,
    {
        assert(all[i as int] == parts@[i as int]@);
        if !is_solid(parts[i].as_str()) {
            assert(!solid(pieces(s@, only('-'))[i as int]));
            return false;
        }
        i += 1;
    }
    true
}

fn all_capitals(s: &str) -> (r: bool)
    ensures
        r == capitals(s@),
{
    let chars = chars_of(s);
    let mut any = false;
    let mut i: usize = 0;
    while i < chars.len()
        invariant
            i <= chars.len(),
            chars@ == s@,
            any == exists|k: int| 0 <= k < i && unicode_alphabetic(#[trigger] s@[k]),
            forall|k: int|
                0 <= k < i && unicode_alphabetic(#[trigger] s@[k]) ==> unicode_uppercase(s@[k]),
        decreases chars.len() - i,
    {
        let c = chars[i];
        if c.is_alphabetic() {
            assert(unicode_alphabetic(s@[i as int]));
            any = true;
            if !c.is_uppercase() {
                assert(!unicode_uppercase(s@[i as int]));
                return false;
            }
        }
        i += 1;
    }
    any
}

/// Whether a text looks like a name out of code, a path or a constant.
pub fn looks_technical(value: &str) -> (r: bool)
    ensures
        r == technical(value@),
{
    starts_text(value, "#[") || starts_text(value, "@") || contains_text(value, "::") || has_char(
        value,
        '.',
    ) || has_char(value, '/') || has_char(value, '_') || has_char(value, '<') || has_hump(value)
        || is_hyphenated(value) || (char_count(value) >= 3 && all_capitals(value))
}

/// The pieces of the first `upto` words that may hold an atom: what stands
/// before an equals sign, and behind the first.
pub open spec fn atom_pieces(list: Seq<Seq<char>>, upto: int) -> Seq<Seq<char>>
    decreases upto,
{
    if upto <= 0 || upto > list.len() {
        Seq::empty()
    } else {
        atom_pieces(list, upto - 1) + first_of(pieces(list[upto - 1], only('=')), 2)
    }
}

/// The atom in a piece, where it looks technical.
pub open spec fn technical_atom() -> spec_fn(Seq<char>) -> Option<Seq<char>> {
    |piece: Seq<char>|
        match atom_of(piece) {
            Some(atom) => if technical(atom) {
                Some(atom)
            } else {
                None
            },
            None => None,
        }
}

/// A text without regard to the case of ASCII letters.
pub open spec fn folded() -> spec_fn(Seq<char>) -> Seq<char> {
    |text: Seq<char>| lowered(text)
}

/// All technical atoms of a task, in order.
pub open spec fn all_atoms(task: Seq<char>) -> Seq<Seq<char>> {
    filter_map(atom_pieces(words(task), words(task).len() as int), technical_atom())
}

/// The technical atoms of a task: the first distinct ones.
pub open spec fn atoms_in(task: Seq<char>) -> Seq<Seq<char>> {
    first_of(distinct_by(all_atoms(task), folded()), MAX_ATOMS as int)
}

/// Whether a list holds a text but for the case of ASCII letters.
pub fn list_has_folded(list: &Vec<String>, text: &str) -> (r: bool)
    ensures
        r == holds_key(texts(list@), folded(), lowered(text@)),
{
    let ghost all = texts(list@);
    let mut i: usize = 0;
    while i < list.len()
        invariant
            i <= list.len(),
            all == texts(list@),
            forall|k: int| 0 <= k < i ==> folded()(#[trigger] all[k]) != lowered(text@),
        decreases list.len() - i,
    {
        assert(all[i as int] == list@[i as int]@);
        if same_folded(list[i].as_str(), text) {
            assert(folded()(all[i as int]) == lowered(text@));
            return true;
        }
        i += 1;
    }
    false
}

fn collect_atom_pieces(task: &str) -> (r: Vec<String>)
    ensures
        texts(r@) == atom_pieces(words(task@), words(task@).len() as int),
{
    let list = words_of(task);
    let ghost all = texts(list@);
    let mut out: Vec<String> = Vec::new();
    let mut i: usize = 0;
    assert(texts(out@) =~= atom_pieces(all, 0));
    while i < list.len()
        invariant
            i <= list.len(),
            all == texts(list@),
            texts(out@) == atom_pieces(all, i as int),
        decreases list.len() - i,
    {
        let ghost before = texts(out@);
        let mut parts = split_on(list[i].as_str(), '=');
        let ghost whole = texts(parts@);
        parts.truncate(2);
        let ghost kept = texts(parts@);
        assert(kept =~= first_of(whole, 2));
        out.append(&mut parts);
        assert(texts(out@) =~= before + kept);
        i += 1;
    }
    out
}

/// The technical atoms of a task: the first distinct ones.
pub fn technical_atoms(task: &str) -> (r: Vec<String>)
    ensures
        texts(r@) == atoms_in(task@),
{
    let sources = collect_atom_pieces(task);
    let ghost all = texts(sources@);
    let mut atoms: Vec<String> = Vec::new();
    let mut i: usize = 0;
    let ghost mut found: Seq<Seq<char>> = Seq::empty();
    assert(found =~= filter_map(all.take(0), technical_atom()));
    assert(texts(atoms@) =~= first_of(distinct_by(found, folded()), MAX_ATOMS as int));
    while i < sources.len()
        invariant
            i <= sources.len(),
            all == texts(sources@),
            found == filter_map(all.take(i as int), technical_atom()),
            texts(atoms@) == first_of(distinct_by(found, folded()), MAX_ATOMS as int),
        decreases sources.len() - i,
    {
        let ghost before = texts(atoms@);
        let ghost known = found;
        proof {
            filter_map_push(all, technical_atom(), i as int);
        }
        if let Some(atom) = normalize_atom(sources[i].as_str()) {
            if looks_technical(atom.as_str()) {
                let ghost text = atom@;
                proof {
                    found = known.push(text);
                    assert(found.drop_last() =~= known);
                }
                if atoms.len() < MAX_ATOMS && !list_has_folded(&atoms, atom.as_str()) {
                    atoms.push(atom);
                    assert(texts(atoms@) =~= before.push(text));
                }
                proof {
                    let front = distinct_by(known, folded());
                    if front.len() < MAX_ATOMS {
                        assert(before == front);
                    } else {
                        assert(distinct_by(found, folded()).take(MAX_ATOMS as int) =~= front.take(
                            MAX_ATOMS as int,
                        ));
                        assert(front.take(MAX_ATOMS as int) =~= before);
                    }
                    assert(texts(atoms@) =~= first_of(
                        distinct_by(found, folded()),
                        MAX_ATOMS as int,
                    ));
                }
            }
        }
        i += 1;
    }
    assert(all.take(all.len() as int) =~= all);
    atoms
}

/// What kind of thing an atom names.
pub open spec fn atom_kind(atom: Seq<char>) -> FacetKind {
    if atom.contains('/') {
        FacetKind::Path
    } else if begins(atom, "#["@) || begins(atom, "@"@) || configuration_term(atom) {
        FacetKind::Configuration
    } else {
        FacetKind::Symbol
    }
}

/// What kind of thing an atom names.
pub fn classify_atom(atom: &str) -> (r: FacetKind)
    ensures
        r == atom_kind(atom@),
{
    if has_char(atom, '/') {
        FacetKind::Path
    } else if starts_text(atom, "#[") || starts_text(atom, "@") || is_configuration_term(atom) {
        FacetKind::Configuration
    } else {
        FacetKind::Symbol
    }
}

/// A text with spaces for its hyphens.
pub open spec fn spaced(s: Seq<char>) -> Seq<char> {
    Seq::new(
        s.len(),
        |i: int|
            if s[i] == '-' {
                ' '
            } else {
                s[i]
            },
    )
}

/// A text, where it is long enough to be looked for and no stop word.
pub open spec fn telling() -> spec_fn(Seq<char>) -> Option<Seq<char>> {
    |text: Seq<char>|
        if text.len() >= 3 && !stop_word(text) {
            Some(text)
        } else {
            None
        }
}

/// What stands before the last dot of a name, where it has one.
pub open spec fn before_last_dot(name: Seq<char>) -> Option<Seq<char>> {
    let parts = pieces(name, only('.'));
    if parts.len() < 2 {
        None
    } else {
        Some(joined_by(parts.drop_last(), "."@))
    }
}

/// Dots and colons.
pub open spec fn member_break() -> spec_fn(char) -> bool {
    |c: char| c == '.' || c == ':'
}

fn is_member_break(c: char) -> (r: bool)
    ensures
        r == member_break()(c),
{
    c == '.' || c == ':'
}

/// The parts of a qualified name.
pub open spec fn members(atom: Seq<char>) -> Seq<Seq<char>> {
    nonempty(pieces(atom, member_break()))
}

/// All variants of an atom, telling or not.
pub open spec fn raw_variants(atom: Seq<char>, vocabulary: Vocabulary) -> Seq<Seq<char>> {
    (if atom.contains('-') {
        seq![spaced(atom)] + filter_map(pieces(atom, only('-')), telling())
    } else {
        Seq::empty()
    }) + vocabulary.terms_of(atom) + vocabulary.entry(atom).words + (if atom.contains('/') {
        let name = pieces(atom, only('/')).last();
        seq![name] + match before_last_dot(name) {
            Some(stem) => seq![stem],
            None => Seq::empty(),
        }
    } else {
        Seq::empty()
    }) + (if (atom.contains('.') || atom.contains(':')) && members(atom).len() > 0 {
        vocabulary.entry(members(atom).last()).identifier
    } else {
        Seq::empty()
    })
}

/// The telling variants of an atom.
pub open spec fn variants_of(atom: Seq<char>, vocabulary: Vocabulary) -> Seq<Seq<char>> {
    filter_map(raw_variants(atom, vocabulary), telling())
}

fn space_hyphens(s: &str) -> (r: String)
    ensures
        r@ == spaced(s@),
{
    let chars = chars_of(s);
    let mut out = String::new();
    let mut i: usize = 0;
    while i < chars.len()
        invariant
            i <= chars.len(),
            chars@ == s@,
            out@ == spaced(s@).take(i as int),
        decreases chars.len() - i,
    {
        let ghost before = out@;
        let c = chars[i];
        if c == '-' {
            out.push(' ');
        } else {
            out.push(c);
        }
        assert(out@ =~= spaced(s@).take(i + 1));
        i += 1;
    }
    assert(out@ =~= spaced(s@));
    out
}

fn keep_telling(list: &Vec<String>) -> (r: Vec<String>)
    ensures
        texts(r@) == filter_map(texts(list@), telling()),
{
    let ghost all = texts(list@);
    let mut out: Vec<String> = Vec::new();
    let mut i: usize = 0;
    assert(texts(out@) =~= filter_map(all.take(0), telling()));
    while i < list.len()
        invariant
            i <= list.len(),
            all == texts(list@),
            texts(out@) == filter_map(all.take(i as int), telling()),
        decreases list.len() - i,
    {
        let ghost before = texts(out@);
        proof {
            filter_map_push(all, telling(), i as int);
        }
        if char_count(list[i].as_str()) >= 3 && !is_stop_word(list[i].as_str()) {
            out.push(list[i].clone());
            assert(texts(out@) =~= before.push(list@[i as int]@));
        }
        i += 1;
    }
    assert(all.take(all.len() as int) =~= all);
    out
}

/// The telling variants of an atom.
pub fn technical_variants(atom: &str, vocabulary: &Vocabulary) -> (r: Vec<String>)
    ensures
        texts(r@) == variants_of(atom@, *vocabulary),
{
    let mut variants: Vec<String> = Vec::new();
    if has_char(atom, '-') {
        variants.push(space_hyphens(atom));
        let mut parts = keep_telling(&split_on(atom, '-'));
        let ghost more = texts(parts@);
        assert(texts(variants@) =~= seq![spaced(atom@)]);
        variants.append(&mut parts);
        assert(texts(variants@) =~= seq![spaced(atom@)] + more);
    }
    let ghost v0 = texts(variants@);
    assert(v0 =~= if atom@.contains('-') {
        seq![spaced(atom@)] + filter_map(pieces(atom@, only('-')), telling())
    } else {
        Seq::empty()
    });
    let mut terms = vocabulary.expand_terms(atom);
    let ghost terms_view = texts(terms@);
    variants.append(&mut terms);
    assert(texts(variants@) =~= v0 + terms_view);
    let ghost v1 = texts(variants@);
    let mut parts = vocabulary.identifier_words(atom);
    let ghost parts_view = texts(parts@);
    variants.append(&mut parts);
    assert(texts(variants@) =~= v1 + parts_view);
    let ghost v2 = texts(variants@);
    let ghost mut path_part: Seq<Seq<char>> = Seq::empty();
    if has_char(atom, '/') {
        let names = split_on(atom, '/');
        assert(texts(names@).last() == names@[names@.len() - 1]@);
        let name = names[names.len() - 1].clone();
        let mut pieces_of_name = split_on(name.as_str(), '.');
        let ghost all = texts(pieces_of_name@);
        variants.push(name);
        assert(texts(variants@) =~= v2 + seq![name@]);
        if pieces_of_name.len() >= 2 {
            let last = pieces_of_name.pop();
            assert(texts(pieces_of_name@) =~= all.drop_last());
            let stem = join_texts(&pieces_of_name, ".");
            let ghost stem_view = stem@;
            let ghost held = texts(variants@);
            variants.push(stem);
            assert(texts(variants@) =~= held + seq![stem_view]);
            proof {
                path_part = seq![name@] + seq![stem_view];
            }
        } else {
            proof {
                path_part = seq![name@] + Seq::<Seq<char>>::empty();
            }
            assert(path_part =~= seq![name@]);
        }
    }
    assert(texts(variants@) =~= v2 + path_part);
    let ghost v3 = texts(variants@);
    let ghost mut member_part: Seq<Seq<char>> = Seq::empty();
    if has_char(atom, '.') || has_char(atom, ':') {
        let parts = drop_empty(split_text(atom, is_member_break, Ghost(member_break())));
        assert(texts(parts@) == members(atom@));
        if parts.len() > 0 {
            assert(texts(parts@).last() == parts@[parts@.len() - 1]@);
            let mut forms = vocabulary.expand_identifier(parts[parts.len() - 1].as_str());
            let ghost forms_view = texts(forms@);
            variants.append(&mut forms);
            assert(texts(variants@) =~= v3 + forms_view);
            proof {
                member_part = forms_view;
            }
        }
    }
    assert(texts(variants@) =~= v3 + member_part);
    assert(texts(variants@) =~= raw_variants(atom@, *vocabulary));
    keep_telling(&variants)
}

/// Whether a character may open a quotation.
pub open spec fn quote_mark(c: char) -> bool {
    c == '\'' || c == '"' || c == '`'
}

/// The longest quotation that is looked through, in bytes.
pub const MAX_QUOTATION_BYTES: usize = 160;

/// Where the search for a closing mark stops: at the mark, at the end, or when
/// it has come too far.
pub open spec fn quote_end(task: Seq<char>, start: int, at: int) -> int
    decreases task.len() - at,
{
    if at >= task.len() || at <= start || start < 0 {
        at
    } else if task[at] == task[start] || byte_len(task.subrange(start, at))
        > MAX_QUOTATION_BYTES {
        at
    } else {
        quote_end(task, start, at + 1)
    }
}

/// Whether a quotation starts at a position.
pub open spec fn quote_opens(task: Seq<char>, i: int) -> bool {
    quote_mark(task[i]) && (i > 0 ==> !unicode_alphanumeric(task[i - 1]))
}

/// What a task quotes, from a position on.
pub open spec fn quotations(task: Seq<char>, i: int) -> Seq<Seq<char>>
    decreases task.len() - i,
{
    if i < 0 || i >= task.len() {
        Seq::empty()
    } else {
        let end = quote_end(task, i, i + 1);
        if quote_opens(task, i) && i < end < task.len() && task[end] == task[i] {
            seq![trimmed(task.subrange(i + 1, end))] + quotations(task, end + 1)
        } else {
            quotations(task, i + 1)
        }
    }
}

/// The distinct quotations of a task, of two characters and more.
pub open spec fn quoted_in(task: Seq<char>) -> Seq<Seq<char>> {
    distinct_by(filter_map(quotations(task, 0), at_least(2)), folded())
}

proof fn lemma_quote_end(task: Seq<char>, start: int, at: int)
    requires
        0 <= start < at,
    ensures
        at <= quote_end(task, start, at),
        at <= task.len() ==> quote_end(task, start, at) <= task.len(),
    decreases task.len() - at,
{
    if at < task.len() && !(task[at] == task[start] || byte_len(task.subrange(start, at))
        > MAX_QUOTATION_BYTES) {
        lemma_quote_end(task, start, at + 1);
    }
}

fn find_quote_end(chars: &Vec<char>, start: usize) -> (r: usize)
    requires
        start < chars@.len(),
    ensures
        r == quote_end(chars@, start as int, start + 1),
        start < r <= chars@.len(),
{
    let ghost task = chars@;
    let total: usize = chars.len();
    assert(start + 1 <= total);
    let mut at: usize = start + 1;
    let mut far: usize = char_bytes(chars[start]);
    proof {
        assert(task.subrange(start as int, start + 1) =~= Seq::empty().push(task[start as int]));
        byte_len_push(Seq::empty(), task[start as int]);
        vstd::utf8::encode_utf8(Seq::<char>::empty());
        assert(byte_len(Seq::<char>::empty()) == 0) by {
            crate::text::ascii_bytes(Seq::<char>::empty());
        }
    }
    while at < chars.len() && chars[at] != chars[start] && far <= MAX_QUOTATION_BYTES
        invariant
            start < at <= chars.len(),
            task == chars@,
            far == byte_len(task.subrange(start as int, at as int)),
            far <= MAX_QUOTATION_BYTES + 4,
            quote_end(task, start as int, start + 1) == quote_end(task, start as int, at as int),
        decreases chars.len() - at,
    {
        proof {
            assert(task.subrange(start as int, at + 1) =~= task.subrange(
                start as int,
                at as int,
            ).push(task[at as int]));
            byte_len_push(task.subrange(start as int, at as int), task[at as int]);
        }
        far += char_bytes(chars[at]);
        at += 1;
    }
    at
}

/// The distinct quotations of a task, of two characters and more.
pub fn quoted_phrases(task: &str) -> (r: Vec<String>)
    ensures
        texts(r@) == quoted_in(task@),
{
    let chars = chars_of(task);
    let ghost all = quotations(task@, 0);
    let ghost mut done: Seq<Seq<char>> = Seq::empty();
    let mut out: Vec<String> = Vec::new();
    let mut i: usize = 0;
    assert(done + quotations(task@, 0) =~= all);
    assert(texts(out@) =~= distinct_by(filter_map(done, at_least(2)), folded()));
    while i < chars.len()
        invariant
            i <= chars.len(),
            chars@ == task@,
            all == done + quotations(task@, i as int),
            texts(out@) == distinct_by(filter_map(done, at_least(2)), folded()),
        decreases chars.len() - i,
    {
        let c = chars[i];
        let opens = (c == '\'' || c == '"' || c == '`') && (i == 0
            || !chars[i - 1].is_alphanumeric());
        let end: usize = find_quote_end(&chars, i);
        if opens && end < chars.len() && chars[end] == c {
            let inner = text_of(chars.as_slice(), i + 1, end);
            let value = trim_text(inner.as_str());
            let ghost text = value@;
            let ghost known = done;
            let ghost kept = filter_map(known, at_least(2));
            let ghost before = texts(out@);
            proof {
                done = known.push(text);
                assert(done.drop_last() =~= known);
                assert(all =~= done + quotations(task@, end + 1));
            }
            if char_count(value.as_str()) >= 2 {
                assert(kept.push(text).drop_last() =~= kept);
                if !list_has_folded(&out, value.as_str()) {
                    out.push(value);
                    assert(texts(out@) =~= before.push(text));
                }
            }
            i = end + 1;
        } else {
            i += 1;
        }
    }
    assert(all =~= done);
    out
}

/// A term, where it is no stop word.
pub open spec fn no_stop_word() -> spec_fn(Seq<char>) -> Option<Seq<char>> {
    |term: Seq<char>|
        if stop_word(term) {
            None
        } else {
            Some(term)
        }
}

/// The variants of a phrase: itself and its telling terms.
pub open spec fn phrase_parts(phrase: Seq<char>) -> Seq<Seq<char>> {
    seq![phrase] + filter_map(terms_in(phrase), no_stop_word())
}

/// The variants of a phrase: itself and its telling terms.
pub fn phrase_variants(phrase: &str) -> (r: Vec<String>)
    ensures
        texts(r@) == phrase_parts(phrase@),
{
    let terms = task_terms(phrase);
    let ghost all = texts(terms@);
    let mut out: Vec<String> = Vec::new();
    out.push(copy_text(phrase));
    let mut i: usize = 0;
    assert(texts(out@) =~= seq![phrase@] + filter_map(all.take(0), no_stop_word()));
    while i < terms.len()
        invariant
            i <= terms.len(),
            all == texts(terms@),
            texts(out@) == seq![phrase@] + filter_map(all.take(i as int), no_stop_word()),
        decreases terms.len() - i,
    {
        let ghost before = texts(out@);
        let ghost kept = filter_map(all.take(i as int), no_stop_word());
        proof {
            filter_map_push(all, no_stop_word(), i as int);
        }
        if !is_stop_word(terms[i].as_str()) {
            out.push(terms[i].clone());
            assert(texts(out@) =~= before.push(terms@[i as int]@));
            assert(texts(out@) =~= seq![phrase@] + kept.push(terms@[i as int]@));
        }
        i += 1;
    }
    assert(all.take(all.len() as int) =~= all);
    out
}

/// A term with where it stands.
#[derive(Debug)]
pub struct PlacedTerm {
    pub position: usize,
    pub weight: usize,
    pub term: String,
}

/// What a [`PlacedTerm`] says.
pub struct PlacedView {
    pub position: usize,
    pub weight: usize,
    pub term: Seq<char>,
}

impl View for PlacedTerm {
    type V = PlacedView;

    open spec fn view(&self) -> PlacedView {
        PlacedView { position: self.position, weight: self.weight, term: self.term@ }
    }
}

/// Heavier terms first, then in order of position.
pub open spec fn by_weight() -> spec_fn(PlacedView, PlacedView) -> bool {
    |a: PlacedView, b: PlacedView|
        a.weight > b.weight || (a.weight == b.weight && a.position < b.position) || (a.weight
            == b.weight && a.position == b.position && text_lt(a.term, b.term))
}

/// In order of position.
pub open spec fn by_position() -> spec_fn(PlacedView, PlacedView) -> bool {
    |a: PlacedView, b: PlacedView| a.position < b.position
}

fn heavier(a: &PlacedTerm, b: &PlacedTerm) -> (r: bool)
    ensures
        r == by_weight()(a@, b@),
{
    if a.weight != b.weight {
        return a.weight > b.weight;
    }
    if a.position != b.position {
        return a.position < b.position;
    }
    crate::text::text_before(a.term.as_str(), b.term.as_str()) && !same_text(
        a.term.as_str(),
        b.term.as_str(),
    )
}

fn earlier(a: &PlacedTerm, b: &PlacedTerm) -> (r: bool)
    ensures
        r == by_position()(a@, b@),
{
    a.position < b.position
}

/// Terms with their positions, weighed by their length.
pub open spec fn placed(terms: Seq<Seq<char>>) -> Seq<PlacedView> {
    Seq::new(
        terms.len(),
        |i: int|
            PlacedView {
                position: i as usize,
                weight: terms[i].len() as usize,
                term: terms[i],
            },
    )
}

/// The terms of a placed list.
pub open spec fn placed_terms(list: Seq<PlacedView>) -> Seq<Seq<char>> {
    Seq::new(list.len(), |i: int| list[i].term)
}

/// The number of terms that are kept from the beginning of a task.
pub open spec fn leading(count: nat, limit: usize) -> int {
    let most: int = if limit < 4 {
        limit as int
    } else {
        4
    };
    if count < most {
        count as int
    } else {
        most
    }
}

/// The terms of a task that are looked for: the first, and the longest of the
/// others, in the order of the task.
pub open spec fn behavior_terms(terms: Seq<Seq<char>>, limit: usize) -> Seq<Seq<char>> {
    let all = placed(distinct_by(terms, folded()));
    let first = leading(all.len(), limit);
    let rest = sorted_by(all.subrange(first, all.len() as int), by_weight());
    placed_terms(
        sorted_by(all.take(first) + first_of(rest, limit - first), by_position()),
    )
}

fn distinct_folded(terms: &Vec<String>) -> (r: Vec<String>)
    ensures
        texts(r@) == distinct_by(texts(terms@), folded()),
{
    let ghost all = texts(terms@);
    let mut out: Vec<String> = Vec::new();
    let mut i: usize = 0;
    assert(texts(out@) =~= distinct_by(all.take(0), folded()));
    while i < terms.len()
        invariant
            i <= terms.len(),
            all == texts(terms@),
            texts(out@) == distinct_by(all.take(i as int), folded()),
        decreases terms.len() - i,
    {
        let ghost before = texts(out@);
        proof {
            distinct_by_push(all, folded(), i as int);
        }
        if !list_has_folded(&out, terms[i].as_str()) {
            out.push(terms[i].clone());
            assert(texts(out@) =~= before.push(terms@[i as int]@));
        }
        i += 1;
    }
    assert(all.take(all.len() as int) =~= all);
    out
}

fn terms_of_placed(list: &Vec<PlacedTerm>) -> (r: Vec<String>)
    ensures
        texts(r@) == placed_terms(views(list@)),
{
    let mut out: Vec<String> = Vec::new();
    let mut i: usize = 0;
    while i < list.len()
        invariant
            i <= list.len(),
            texts(out@) == placed_terms(views(list@)).take(i as int),
        decreases list.len() - i,
    {
        let ghost before = texts(out@);
        out.push(list[i].term.clone());
        assert(texts(out@) =~= before.push(list@[i as int].term@));
        assert(texts(out@) =~= placed_terms(views(list@)).take(i + 1));
        i += 1;
    }
    assert(texts(out@) =~= placed_terms(views(list@)));
    out
}

/// The terms of a task that are looked for: the first, and the longest of the
/// others, in the order of the task.
pub fn select_behavior_terms(terms: Vec<String>, limit: usize) -> (r: Vec<String>)
    ensures
        texts(r@) == behavior_terms(texts(terms@), limit),
{
    let candidates = distinct_folded(&terms);
    let ghost names = texts(candidates@);
    let ghost all = placed(names);
    let total: usize = candidates.len();
    let most: usize = if limit < 4 {
        limit
    } else {
        4
    };
    let prefix: usize = if total < most {
        total
    } else {
        most
    };
    assert(prefix == leading(all.len(), limit));
    let mut selected: Vec<PlacedTerm> = Vec::new();
    let mut remaining: Vec<PlacedTerm> = Vec::new();
    let mut i: usize = 0;
    while i < candidates.len()
        invariant
            i <= candidates.len(),
            prefix <= candidates.len(),
            names == texts(candidates@),
            all == placed(names),
            views(selected@) == all.take(if i < prefix {
                i as int
            } else {
                prefix as int
            }),
            views(remaining@) == if i < prefix {
                Seq::empty()
            } else {
                all.subrange(prefix as int, i as int)
            },
        decreases candidates.len() - i,
    {
        let entry = PlacedTerm {
            position: i,
            weight: char_count(candidates[i].as_str()),
            term: candidates[i].clone(),
        };
        let ghost added = entry@;
        assert(names[i as int] == candidates@[i as int]@);
        assert(added == all[i as int]);
        let ghost chosen = views(selected@);
        let ghost others = views(remaining@);
        if i < prefix {
            selected.push(entry);
            assert(views(selected@) =~= chosen.push(added));
            assert(views(selected@) =~= all.take(i + 1));
            assert(views(remaining@) =~= all.subrange(prefix as int, prefix as int));
        } else {
            remaining.push(entry);
            assert(views(remaining@) =~= others.push(added));
            assert(views(remaining@) =~= all.subrange(prefix as int, i + 1));
        }
        i += 1;
    }
    assert(views(remaining@) =~= all.subrange(prefix as int, all.len() as int));
    let mut ranked = sort_by(remaining, heavier, Ghost(by_weight()));
    let ghost ordered = views(ranked@);
    ranked.truncate(limit - prefix);
    let ghost kept = views(ranked@);
    assert(kept =~= first_of(ordered, limit - prefix));
    let ghost chosen = views(selected@);
    selected.append(&mut ranked);
    assert(views(selected@) =~= chosen + kept);
    let ordered_again = sort_by(selected, earlier, Ghost(by_position()));
    terms_of_placed(&ordered_again)
}

/// The phrase of two neighbouring terms, where both tell something.
pub open spec fn phrase_at(terms: Seq<Seq<char>>, excluded: Seq<Seq<char>>) -> spec_fn(
    int,
) -> Option<PlacedView> {
    |i: int|
        if idle(terms[i], excluded) || idle(terms[i + 1], excluded) {
            None
        } else {
            Some(
                PlacedView {
                    position: i as usize,
                    weight: (terms[i].len() + terms[i + 1].len()) as usize,
                    term: terms[i] + " "@ + terms[i + 1],
                },
            )
        }
}

/// Whether a term says nothing in a phrase.
pub open spec fn idle(term: Seq<char>, excluded: Seq<Seq<char>>) -> bool {
    test_term(term) || stop_word(term) || excluded.contains(lowered(term))
}

/// The positions of all neighbouring pairs.
pub open spec fn pair_positions(count: nat) -> Seq<int> {
    Seq::new(
        if count < 2 {
            0
        } else {
            (count - 1) as nat
        },
        |i: int| i,
    )
}

/// A placed term without regard to the case of ASCII letters.
pub open spec fn folded_place() -> spec_fn(PlacedView) -> Seq<char> {
    |placed: PlacedView| lowered(placed.term)
}

/// The phrases of two words that are looked for: the longest, in the order of
/// the task.
pub open spec fn phrases_in(task: Seq<char>, excluded: Seq<Seq<char>>, limit: int) -> Seq<
    Seq<char>,
> {
    let terms = terms_in(task);
    let all = distinct_by(
        filter_map(pair_positions(terms.len()), phrase_at(terms, excluded)),
        folded_place(),
    );
    placed_terms(sorted_by(first_of(sorted_by(all, by_weight()), limit), by_position()))
}

fn is_idle(term: &str, excluded: &Vec<String>) -> (r: bool)
    ensures
        r == idle(term@, texts(excluded@)),
{
    is_test_term(term) || is_stop_word(term) || list_has(excluded, lower_text(term).as_str())
}

fn placed_has_folded(list: &Vec<PlacedTerm>, text: &str) -> (r: bool)
    ensures
        r == holds_key(views(list@), folded_place(), lowered(text@)),
{
    let ghost all = views(list@);
    let mut i: usize = 0;
    while i < list.len()
        invariant
            i <= list.len(),
            all == views(list@),
            forall|k: int| 0 <= k < i ==> folded_place()(#[trigger] all[k]) != lowered(text@),
        decreases list.len() - i,
    {
        assert(all[i as int] == list@[i as int]@);
        if same_folded(list[i].term.as_str(), text) {
            assert(folded_place()(all[i as int]) == lowered(text@));
            return true;
        }
        i += 1;
    }
    false
}

/// The phrases of two words that are looked for: the longest, in the order of
/// the task.
#[verifier::rlimit(40)]
pub fn natural_phrases(task: &str, excluded_terms: &Vec<String>, limit: usize) -> (r: Vec<String>)
    ensures
        texts(r@) == phrases_in(task@, texts(excluded_terms@), limit as int),
{
    let terms = task_terms(task);
    let ghost names = texts(terms@);
    let ghost excluded = texts(excluded_terms@);
    let ghost positions = pair_positions(names.len());
    let ghost f = phrase_at(names, excluded);
    let ghost mut found: Seq<PlacedView> = Seq::empty();
    let mut candidates: Vec<PlacedTerm> = Vec::new();
    let mut i: usize = 1;
    assert(found =~= filter_map(positions.take(0), f));
    assert(views(candidates@) =~= distinct_by(found, folded_place()));
    while i < terms.len()
        invariant
            1 <= i,
            names == texts(terms@),
            excluded == texts(excluded_terms@),
            positions == pair_positions(names.len()),
            f == phrase_at(names, excluded),
            i == 1 || i <= terms.len(),
            found == filter_map(positions.take(i - 1), f),
            views(candidates@) == distinct_by(found, folded_place()),
        decreases terms.len() - i,
    {
        let ghost known = found;
        let ghost before = views(candidates@);
        proof {
            filter_map_push(positions, f, i - 1);
            assert(positions[i - 1] == i - 1);
            assert(names[i - 1] == terms@[i - 1]@);
            assert(names[i as int] == terms@[i as int]@);
        }
        let first = terms[i - 1].as_str();
        let second = terms[i].as_str();
        if !is_idle(first, excluded_terms) && !is_idle(second, excluded_terms) {
            let phrase = appended(appended(copy_text(first), " "), second);
            let size: usize = char_count(phrase.as_str());
            proof {
                reveal_strlit(" ");
                assert(phrase@.len() == first@.len() + 1 + second@.len());
            }
            let entry = PlacedTerm { position: i - 1, weight: size - 1, term: phrase };
            let ghost added = entry@;
            proof {
                assert(f(i - 1) == Some(added));
                found = known.push(added);
                assert(found.drop_last() =~= known);
            }
            if !placed_has_folded(&candidates, entry.term.as_str()) {
                candidates.push(entry);
                assert(views(candidates@) =~= before.push(added));
            }
        }
        i += 1;
    }
    proof {
        assert(positions.take(positions.len() as int) =~= positions);
        if names.len() >= 1 {
            assert(i - 1 == positions.len());
        } else {
            assert(positions.take(0) =~= positions);
        }
        assert(found == filter_map(positions, f));
    }
    let ghost distinct_places = views(candidates@);
    assert(distinct_places == distinct_by(filter_map(positions, f), folded_place()));
    let mut ranked = sort_by(candidates, heavier, Ghost(by_weight()));
    let ghost ordered = views(ranked@);
    ranked.truncate(limit);
    assert(views(ranked@) =~= first_of(ordered, limit as int));
    let ordered_again = sort_by(ranked, earlier, Ghost(by_position()));
    terms_of_placed(&ordered_again)
}

/// Line ends and semicolons.
pub open spec fn clause_break() -> spec_fn(char) -> bool {
    |c: char| c == '\n' || c == ';'
}

fn is_clause_break(c: char) -> (r: bool)
    ensures
        r == clause_break()(c),
{
    c == '\n' || c == ';'
}

/// The parts of a text between occurrences of another, from a position on.
pub open spec fn parts_from(s: Seq<char>, sep: Seq<char>, from: int) -> Seq<Seq<char>>
    decreases s.len() - from,
{
    match first_at(s, sep, from) {
        Some(at) => if sep.len() > 0 && 0 <= from <= at && at + sep.len() <= s.len() {
            seq![s.subrange(from, at)] + parts_from(s, sep, (at + sep.len()) as int)
        } else {
            seq![s.subrange(from, s.len() as int)]
        },
        None => seq![s.subrange(from, s.len() as int)],
    }
}

/// The sentences of a text.
pub open spec fn sentences() -> spec_fn(Seq<char>) -> Seq<Seq<char>> {
    |part: Seq<char>| parts_from(part, ". "@, 0)
}

fn split_sentences(s: &str) -> (r: Vec<String>)
    ensures
        texts(r@) == parts_from(s@, ". "@, 0),
{
    let chars = chars_of(s);
    let stop = chars_of(". ");
    let total: usize = chars.len();
    let mut out: Vec<String> = Vec::new();
    let mut from: usize = 0;
    proof {
        reveal_strlit(". ");
    }
    assert(texts(out@) + parts_from(s@, ". "@, 0) =~= parts_from(s@, ". "@, 0));
    loop
        invariant
            from <= total,
            total == chars@.len(),
            chars@ == s@,
            stop@ == ". "@,
            stop@.len() == 2,
            parts_from(s@, ". "@, 0) == texts(out@) + parts_from(s@, ". "@, from as int),
        decreases total - from,
    {
        let ghost before = texts(out@);
        proof {
            first_at_bounds(s@, ". "@, from as int);
        }
        match find_from(&chars, &stop, from) {
            Some(at) => {
                out.push(text_of(chars.as_slice(), from, at));
                assert(texts(out@) =~= before.push(s@.subrange(from as int, at as int)));
                assert(texts(out@) + parts_from(s@, ". "@, at + 2) =~= before + (seq![
                    s@.subrange(from as int, at as int),
                ] + parts_from(s@, ". "@, at + 2)));
                from = at + 2;
            },
            None => {
                out.push(text_of(chars.as_slice(), from, total));
                assert(texts(out@) =~= before.push(s@.subrange(from as int, s@.len() as int)));
                return out;
            },
        }
    }
}

/// Numbers in ascending order.
pub open spec fn by_number() -> spec_fn(usize, usize) -> bool {
    |a: usize, b: usize| a < b
}

fn smaller(a: &usize, b: &usize) -> (r: bool)
    ensures
        r == by_number()(a@, b@),
{
    *a < *b
}

/// Where a marker first parts a text: behind its first character.
pub open spec fn marker_cut(low: Seq<char>, marker: Seq<char>) -> Seq<usize> {
    match first_at(low, marker, 0) {
        Some(at) => seq![(at + 1) as usize],
        None => Seq::empty(),
    }
}

/// Where the role of a clause may change, in order.
pub open spec fn transition_cuts(part: Seq<char>) -> Seq<usize> {
    let low = lowered(part);
    put_all(
        marker_cut(low, " while "@) + marker_cut(low, " without "@) + marker_cut(low, " but "@),
        by_number(),
        false,
    )
}

/// The pieces of a text between positions.
pub open spec fn cut_pieces(s: Seq<char>, cuts: Seq<usize>) -> Seq<Seq<char>> {
    Seq::new(
        cuts.len() + 1,
        |i: int|
            s.subrange(
                if i == 0 {
                    0
                } else {
                    cuts[i - 1] as int
                },
                if i == cuts.len() {
                    s.len() as int
                } else {
                    cuts[i] as int
                },
            ),
    )
}

/// The pieces of a text between which the role of a clause may change.
pub open spec fn transitions() -> spec_fn(Seq<char>) -> Seq<Seq<char>> {
    |part: Seq<char>| cut_pieces(part, transition_cuts(part))
}

proof fn lemma_number_order()
    ensures
        weak_order(by_number()),
{
}

proof fn lemma_usize_views(list: Seq<usize>)
    ensures
        views(list) == list,
{
    assert(views(list) =~= list);
}

fn add_cut(
    cuts: &mut Vec<usize>,
    low: &Vec<char>,
    marker: &str,
    Ghost(found): Ghost<Seq<usize>>,
)
    requires
        old(cuts)@ == put_all(found, by_number(), false),
        forall|i: int| 0 <= i < old(cuts)@.len() ==> (#[trigger] old(cuts)@[i]) <= low@.len(),
        old(cuts)@.len() < 8,
        marker@.len() > 0,
    ensures
        final(cuts)@ == put_all(found + marker_cut(low@, marker@), by_number(), false),
        forall|i: int| 0 <= i < final(cuts)@.len() ==> (#[trigger] final(cuts)@[i]) <= low@.len(),
        final(cuts)@.len() <= old(cuts)@.len() + 1,
{
    let needle = chars_of(marker);
    let ghost start = cuts@;
    let total: usize = low.len();
    match find_from(low, &needle, 0) {
        Some(at) => {
            proof {
                first_at_bounds(low@, marker@, 0);
                assert(at + 1 <= total);
            }
            let cut: usize = at + 1;
            proof {
                lemma_usize_views(start);
                put_members(start, cut, by_number(), false);
                bounded_selection_is_the_first(found, by_number(), false, 0);
            }
            insert_within(cuts, cut, smaller, false, usize::MAX, Ghost(by_number()));
            proof {
                lemma_usize_views(cuts@);
                let all = found + seq![cut];
                assert(all.drop_last() =~= found);
                assert(all.last() == cut);
                let grown = put(start, cut, by_number(), false);
                lemma_put_len(start, cut);
                assert(cuts@ == grown);
                assert forall|i: int| 0 <= i < cuts@.len() implies (#[trigger] cuts@[i])
                    <= low@.len() by {
                    assert(grown[i] == cut || start.contains(grown[i]));
                    if grown[i] != cut {
                        let k = choose|k: int| 0 <= k < start.len() && start[k] == grown[i];
                        assert(start[k] <= low@.len());
                    }
                }
            }
        },
        None => {
            assert(found + Seq::<usize>::empty() =~= found);
        },
    }
}

proof fn lemma_put_len(list: Seq<usize>, x: usize)
    requires
        list.len() < 8,
    ensures
        put(list, x, by_number(), false).len() <= list.len() + 1,
{
    crate::ordered::put_all_len(seq![x], by_number(), false);
    lemma_place_range(list, x);
}

proof fn lemma_place_range(list: Seq<usize>, x: usize)
    ensures
        0 <= crate::ordered::place_of(list, x, by_number()) <= list.len(),
    decreases list.len(),
{
    if list.len() > 0 && by_number()(list[0], x) {
        lemma_place_range(list.subrange(1, list.len() as int), x);
    }
}

/// The pieces of a text between which the role of a clause may change.
pub fn split_role_transitions(part: &str) -> (r: Vec<String>)
    ensures
        texts(r@) == cut_pieces(part@, transition_cuts(part@)),
{
    let folded_part = lower_text(part);
    let low = chars_of(folded_part.as_str());
    let chars = chars_of(part);
    let mut cuts: Vec<usize> = Vec::new();
    let ghost none: Seq<usize> = Seq::empty();
    proof {
        reveal_strlit(" while ");
        reveal_strlit(" without ");
        reveal_strlit(" but ");
        assert(cuts@ =~= put_all(none, by_number(), false));
    }
    add_cut(&mut cuts, &low, " while ", Ghost(none));
    let ghost f1 = none + marker_cut(low@, " while "@);
    add_cut(&mut cuts, &low, " without ", Ghost(f1));
    let ghost f2 = f1 + marker_cut(low@, " without "@);
    add_cut(&mut cuts, &low, " but ", Ghost(f2));
    let ghost f3 = f2 + marker_cut(low@, " but "@);
    proof {
        assert(f3 =~= marker_cut(low@, " while "@) + marker_cut(low@, " without "@) + marker_cut(
            low@,
            " but "@,
        ));
        lemma_number_order();
        bounded_selection_is_the_first(f3, by_number(), false, 0);
        assert(cuts@ == transition_cuts(part@));
        assert(strictly_ordered(cuts@, by_number()));
    }
    let ghost all = cut_pieces(part@, cuts@);
    let total: usize = chars.len();
    let mut out: Vec<String> = Vec::new();
    let mut start: usize = 0;
    let mut i: usize = 0;
    while i < cuts.len()
        invariant
            i <= cuts.len(),
            chars@ == part@,
            total == chars@.len(),
            all == cut_pieces(part@, cuts@),
            strictly_ordered(cuts@, by_number()),
            forall|k: int| 0 <= k < cuts@.len() ==> (#[trigger] cuts@[k]) <= total,
            start == if i == 0 {
                0
            } else {
                cuts@[i - 1] as int
            },
            texts(out@) == all.take(i as int),
        decreases cuts.len() - i,
    {
        let cut: usize = cuts[i];
        proof {
            if i > 0 {
                assert(by_number()(cuts@[i - 1], cuts@[i as int]));
            }
        }
        let ghost before = texts(out@);
        out.push(text_of(chars.as_slice(), start, cut));
        assert(texts(out@) =~= before.push(part@.subrange(start as int, cut as int)));
        assert(texts(out@) =~= all.take(i + 1));
        start = cut;
        i += 1;
    }
    let ghost before = texts(out@);
    proof {
        if i > 0 {
            assert(cuts@[i - 1] <= total);
        }
    }
    out.push(text_of(chars.as_slice(), start, total));
    assert(texts(out@) =~= before.push(part@.subrange(start as int, total as int)));
    assert(texts(out@) =~= all);
    out
}

/// A text without white space at its ends, where anything is left.
pub open spec fn trimmed_clause() -> spec_fn(Seq<char>) -> Option<Seq<char>> {
    |part: Seq<char>|
        if trimmed(part).len() > 0 {
            Some(trimmed(part))
        } else {
            None
        }
}

/// The clauses of a task.
pub open spec fn clauses_in(task: Seq<char>) -> Seq<Seq<char>> {
    filter_map(
        flat_map(flat_map(pieces(task, clause_break()), sentences()), transitions()),
        trimmed_clause(),
    )
}

fn flatten_sentences(parts: &Vec<String>) -> (r: Vec<String>)
    ensures
        texts(r@) == flat_map(texts(parts@), sentences()),
{
    let ghost all = texts(parts@);
    let mut out: Vec<String> = Vec::new();
    let mut i: usize = 0;
    assert(texts(out@) =~= flat_map(all.take(0), sentences()));
    while i < parts.len()
        invariant
            i <= parts.len(),
            all == texts(parts@),
            texts(out@) == flat_map(all.take(i as int), sentences()),
        decreases parts.len() - i,
    {
        let ghost before = texts(out@);
        proof {
            flat_map_push(all, sentences(), i as int);
        }
        let mut more = split_sentences(parts[i].as_str());
        let ghost added = texts(more@);
        out.append(&mut more);
        assert(texts(out@) =~= before + added);
        i += 1;
    }
    assert(all.take(all.len() as int) =~= all);
    out
}

fn flatten_transitions(parts: &Vec<String>) -> (r: Vec<String>)
    ensures
        texts(r@) == flat_map(texts(parts@), transitions()),
{
    let ghost all = texts(parts@);
    let mut out: Vec<String> = Vec::new();
    let mut i: usize = 0;
    assert(texts(out@) =~= flat_map(all.take(0), transitions()));
    while i < parts.len()
        invariant
            i <= parts.len(),
            all == texts(parts@),
            texts(out@) == flat_map(all.take(i as int), transitions()),
        decreases parts.len() - i,
    {
        let ghost before = texts(out@);
        proof {
            flat_map_push(all, transitions(), i as int);
        }
        let mut more = split_role_transitions(parts[i].as_str());
        let ghost added = texts(more@);
        out.append(&mut more);
        assert(texts(out@) =~= before + added);
        i += 1;
    }
    assert(all.take(all.len() as int) =~= all);
    out
}

/// The clauses of a task.
pub fn task_clauses(task: &str) -> (r: Vec<String>)
    ensures
        texts(r@) == clauses_in(task@),
{
    let parts = flatten_transitions(
        &flatten_sentences(&split_text(task, is_clause_break, Ghost(clause_break()))),
    );
    let ghost all = texts(parts@);
    let mut out: Vec<String> = Vec::new();
    let mut i: usize = 0;
    assert(texts(out@) =~= filter_map(all.take(0), trimmed_clause()));
    while i < parts.len()
        invariant
            i <= parts.len(),
            all == texts(parts@),
            texts(out@) == filter_map(all.take(i as int), trimmed_clause()),
        decreases parts.len() - i,
    {
        let ghost before = texts(out@);
        proof {
            filter_map_push(all, trimmed_clause(), i as int);
        }
        let clause = trim_text(parts[i].as_str());
        if !clause.as_str().is_empty() {
            let ghost added = clause@;
            out.push(clause);
            assert(texts(out@) =~= before.push(added));
        }
        i += 1;
    }
    assert(all.take(all.len() as int) =~= all);
    out
}

/// What a clause of a task says.
#[derive(Debug, Clone, Copy, PartialEq, Eq, Structural)]
pub enum TaskRole {
    PrimaryChange,
    FailureTrace,
    PreserveConstraint,
    TestIntent,
}

impl TaskRole {
    /// The kind of queries that belong to a role.
    pub open spec fn kind(self) -> FacetKind {
        match self {
            TaskRole::PrimaryChange => FacetKind::PrimaryChange,
            TaskRole::FailureTrace => FacetKind::FailureTrace,
            TaskRole::PreserveConstraint => FacetKind::PreserveConstraint,
            TaskRole::TestIntent => FacetKind::TestIntent,
        }
    }

    /// The kind of queries that belong to a role.
    pub fn facet(self) -> (r: FacetKind)
        ensures
            r == self.kind(),
    {
        match self {
            TaskRole::PrimaryChange => FacetKind::PrimaryChange,
            TaskRole::FailureTrace => FacetKind::FailureTrace,
            TaskRole::PreserveConstraint => FacetKind::PreserveConstraint,
            TaskRole::TestIntent => FacetKind::TestIntent,
        }
    }
}

/// Whether a clause, in small letters, says what must stay as it is.
pub open spec fn preserves(clause: Seq<char>) -> bool {
    let list = code_words(clause);
    ||| list.contains("preserve"@)
    ||| list.contains("preserved"@)
    ||| list.contains("preserves"@)
    ||| list.contains("preserving"@)
    ||| list.contains("keep"@)
    ||| list.contains("keeping"@)
    ||| list.contains("retain"@)
    ||| list.contains("retained"@)
    ||| list.contains("retaining"@)
    ||| list.contains("unchanged"@)
    ||| occurs(clause, "without changing"@)
    ||| occurs(clause, "must remain"@)
    ||| occurs(clause, "do not change"@)
    ||| occurs(clause, "while maintaining"@)
}

/// Whether a clause, in small letters, asks for tests.
pub open spec fn asks_tests(clause: Seq<char>) -> bool {
    let list = code_words(clause);
    ||| list.contains("test"@)
    ||| list.contains("tests"@)
    ||| list.contains("regression"@)
    ||| list.contains("spec"@)
    ||| list.contains("coverage"@)
    ||| list.contains("assert"@)
}

/// Whether a clause, in small letters, asks for work.
pub open spec fn asks_work(clause: Seq<char>) -> bool {
    let list = code_words(clause);
    ||| list.contains("fix"@)
    ||| list.contains("implement"@)
    ||| list.contains("change"@)
    ||| list.contains("add"@)
    ||| list.contains("make"@)
    ||| list.contains("refactor"@)
    ||| list.contains("trace"@)
    ||| list.contains("identify"@)
    ||| list.contains("find"@)
    ||| list.contains("investigate"@)
    ||| list.contains("diagnose"@)
    ||| list.contains("support"@)
}

/// Whether a clause, in small letters, tells of a failure.
pub open spec fn tells_failure(clause: Seq<char>) -> bool {
    let list = code_words(clause);
    ||| list.contains("error"@)
    ||| list.contains("fail"@)
    ||| list.contains("failed"@)
    ||| list.contains("fails"@)
    ||| list.contains("failure"@)
    ||| list.contains("not_ready"@)
    ||| list.contains("panic"@)
    ||| list.contains("timeout"@)
    ||| list.contains("broken"@)
    ||| list.contains("incorrect"@)
    ||| occurs(clause, "instead of"@)
}

/// A role, where something holds.
pub open spec fn role_if(held: bool, role: TaskRole) -> Seq<TaskRole> {
    if held {
        seq![role]
    } else {
        Seq::empty()
    }
}

/// Whether a clause says what is to be done.
pub open spec fn is_primary(clause: Seq<char>, first: bool) -> bool {
    let low = lowered(clause);
    !preserves(low) && !asks_tests(low) && (first || asks_work(low))
}

/// The roles of a clause.
pub open spec fn roles_of(clause: Seq<char>, first: bool) -> Seq<TaskRole> {
    let low = lowered(clause);
    role_if(is_primary(clause, first), TaskRole::PrimaryChange) + role_if(
        tells_failure(low),
        TaskRole::FailureTrace,
    ) + role_if(preserves(low), TaskRole::PreserveConstraint) + role_if(
        asks_tests(low),
        TaskRole::TestIntent,
    )
}

/// The roles of a clause.
#[verifier::rlimit(40)]
pub fn clause_roles(clause: &str, first: bool) -> (r: Vec<TaskRole>)
    ensures
        r@ == roles_of(clause@, first),
{
    let folded_clause = lower_text(clause);
    let clause_text = folded_clause.as_str();
    let list = code_words_of(clause_text);
    let preserve = list_has(&list, "preserve") || list_has(&list, "preserved") || list_has(
        &list,
        "preserves",
    ) || list_has(&list, "preserving") || list_has(&list, "keep") || list_has(&list, "keeping")
        || list_has(&list, "retain") || list_has(&list, "retained") || list_has(&list, "retaining")
        || list_has(&list, "unchanged") || contains_text(clause_text, "without changing")
        || contains_text(clause_text, "must remain") || contains_text(clause_text, "do not change")
        || contains_text(clause_text, "while maintaining");
    let test = list_has(&list, "test") || list_has(&list, "tests") || list_has(&list, "regression")
        || list_has(&list, "spec") || list_has(&list, "coverage") || list_has(&list, "assert");
    let work = list_has(&list, "fix") || list_has(&list, "implement") || list_has(&list, "change")
        || list_has(&list, "add") || list_has(&list, "make") || list_has(&list, "refactor")
        || list_has(&list, "trace") || list_has(&list, "identify") || list_has(&list, "find")
        || list_has(&list, "investigate") || list_has(&list, "diagnose") || list_has(
        &list,
        "support",
    );
    let failure = list_has(&list, "error") || list_has(&list, "fail") || list_has(&list, "failed")
        || list_has(&list, "fails") || list_has(&list, "failure") || list_has(&list, "not_ready")
        || list_has(&list, "panic") || list_has(&list, "timeout") || list_has(&list, "broken")
        || list_has(&list, "incorrect") || contains_text(clause_text, "instead of");
    assert(preserve == preserves(lowered(clause@)));
    assert(test == asks_tests(lowered(clause@)));
    assert(work == asks_work(lowered(clause@)));
    assert(failure == tells_failure(lowered(clause@)));
    let primary = !preserve && !test && (first || work);
    let mut roles: Vec<TaskRole> = Vec::new();
    if primary {
        roles.push(TaskRole::PrimaryChange);
    }
    if failure {
        roles.push(TaskRole::FailureTrace);
    }
    if preserve {
        roles.push(TaskRole::PreserveConstraint);
    }
    if test {
        roles.push(TaskRole::TestIntent);
    }
    assert(roles@ =~= roles_of(clause@, first));
    roles
}

/// The clauses among the first `upto` that say what is to be done.
pub open spec fn primary_clauses(clauses: Seq<Seq<char>>, upto: int) -> Seq<Seq<char>>
    decreases upto,
{
    if upto <= 0 || upto > clauses.len() {
        Seq::empty()
    } else if is_primary(clauses[upto - 1], upto == 1) {
        primary_clauses(clauses, upto - 1).push(clauses[upto - 1])
    } else {
        primary_clauses(clauses, upto - 1)
    }
}

/// The part of a task that says what is to be done, or all of it.
pub open spec fn primary_text(task: Seq<char>) -> Seq<char> {
    let clauses = clauses_in(task);
    let primary = joined_by(primary_clauses(clauses, clauses.len() as int), " "@);
    if primary.len() == 0 {
        task
    } else {
        primary
    }
}

fn has_role(roles: &Vec<TaskRole>, role: TaskRole) -> (r: bool)
    ensures
        r == roles@.contains(role),
{
    let mut i: usize = 0;
    while i < roles.len()
        invariant
            i <= roles.len(),
            forall|k: int| 0 <= k < i ==> roles@[k] != role,
        decreases roles.len() - i,
    {
        if roles[i] == role {
            assert(roles@[i as int] == role);
            return true;
        }
        i += 1;
    }
    false
}

proof fn lemma_primary_role(clause: Seq<char>, first: bool)
    ensures
        roles_of(clause, first).contains(TaskRole::PrimaryChange) == is_primary(clause, first),
{
    let roles = roles_of(clause, first);
    if is_primary(clause, first) {
        assert(roles[0] == TaskRole::PrimaryChange);
    } else {
        assert forall|i: int| 0 <= i < roles.len() implies roles[i] != TaskRole::PrimaryChange by {}
    }
}

/// The part of a task that says what is to be done, or all of it.
pub fn primary_task_text(task: &str) -> (r: String)
    ensures
        r@ == primary_text(task@),
{
    let clauses = task_clauses(task);
    let ghost all = texts(clauses@);
    let mut kept: Vec<String> = Vec::new();
    let mut i: usize = 0;
    assert(texts(kept@) =~= primary_clauses(all, 0));
    while i < clauses.len()
        invariant
            i <= clauses.len(),
            all == texts(clauses@),
            texts(kept@) == primary_clauses(all, i as int),
        decreases clauses.len() - i,
    {
        let ghost before = texts(kept@);
        let roles = clause_roles(clauses[i].as_str(), i == 0);
        proof {
            lemma_primary_role(clauses@[i as int]@, i == 0);
            assert(all[i as int] == clauses@[i as int]@);
        }
        if has_role(&roles, TaskRole::PrimaryChange) {
            kept.push(clauses[i].clone());
            assert(texts(kept@) =~= before.push(clauses@[i as int]@));
        }
        i += 1;
    }
    let primary = join_texts(&kept, " ");
    if primary.as_str().is_empty() {
        copy_text(task)
    } else {
        primary
    }
}

/// Something a task asks for, with the forms in which it may be found.
#[derive(Debug)]
pub struct TaskFacet {
    pub kind: FacetKind,
    pub original: String,
    pub variants: Vec<String>,
    pub weight: u32,
    pub fusion_key: String,
}

/// What a [`TaskFacet`] says.
pub struct FacetView {
    pub kind: FacetKind,
    pub original: Seq<char>,
    pub variants: Seq<Seq<char>>,
    pub weight: u32,
    pub fusion_key: Seq<char>,
}

impl View for TaskFacet {
    type V = FacetView;

    open spec fn view(&self) -> FacetView {
        FacetView {
            kind: self.kind,
            original: self.original@,
            variants: texts(self.variants@),
            weight: self.weight,
            fusion_key: self.fusion_key@,
        }
    }
}

/// One text to look for. Weights are in hundredths.
#[derive(Debug)]
pub struct ContextQuery {
    pub value: String,
    pub weight: u32,
    pub concept_weight: u32,
    pub fusion_key: String,
    pub fuse: bool,
    pub facets: FacetSet,
    pub exact_variant: bool,
}

/// What a [`ContextQuery`] says.
pub struct QueryView {
    pub value: Seq<char>,
    pub weight: u32,
    pub concept_weight: u32,
    pub fusion_key: Seq<char>,
    pub fuse: bool,
    pub facets: FacetSet,
    pub exact_variant: bool,
}

impl View for ContextQuery {
    type V = QueryView;

    open spec fn view(&self) -> QueryView {
        QueryView {
            value: self.value@,
            weight: self.weight,
            concept_weight: self.concept_weight,
            fusion_key: self.fusion_key@,
            fuse: self.fuse,
            facets: self.facets,
            exact_variant: self.exact_variant,
        }
    }
}

/// A name, where a set holds its kind.
pub open spec fn name_if(held: bool, kind: FacetKind) -> Seq<Seq<char>> {
    if held {
        seq![kind.name()]
    } else {
        Seq::empty()
    }
}

/// The names of the kinds in a set, in the order of the kinds.
pub open spec fn kind_names(facets: FacetSet) -> Seq<Seq<char>> {
    name_if(facets.exact_atom, FacetKind::ExactAtom) + name_if(
        facets.primary_change,
        FacetKind::PrimaryChange,
    ) + name_if(facets.failure_trace, FacetKind::FailureTrace) + name_if(
        facets.preserve_constraint,
        FacetKind::PreserveConstraint,
    ) + name_if(facets.symbol, FacetKind::Symbol) + name_if(facets.path, FacetKind::Path)
        + name_if(facets.behavior, FacetKind::Behavior) + name_if(
        facets.test_intent,
        FacetKind::TestIntent,
    ) + name_if(facets.configuration, FacetKind::Configuration)
}

fn push_name(out: &mut Vec<String>, facets: FacetSet, kind: FacetKind)
    ensures
        texts(final(out)@) == texts(old(out)@) + name_if(facets.holds(kind), kind),
{
    let ghost start = texts(out@);
    if facets.has(kind) {
        out.push(copy_text(kind.as_str()));
    }
    assert(texts(out@) =~= start + name_if(facets.holds(kind), kind));
}

impl ContextQuery {
    /// Whether a query stands for something of a kind.
    pub fn has_facet(&self, kind: FacetKind) -> (r: bool)
        ensures
            r == self.facets.holds(kind),
    {
        self.facets.has(kind)
    }

    /// The names of the kinds of a query.
    pub fn facet_names(&self) -> (r: Vec<String>)
        ensures
            texts(r@) == kind_names(self.facets),
    {
        let mut out: Vec<String> = Vec::new();
        push_name(&mut out, self.facets, FacetKind::ExactAtom);
        push_name(&mut out, self.facets, FacetKind::PrimaryChange);
        push_name(&mut out, self.facets, FacetKind::FailureTrace);
        push_name(&mut out, self.facets, FacetKind::PreserveConstraint);
        push_name(&mut out, self.facets, FacetKind::Symbol);
        push_name(&mut out, self.facets, FacetKind::Path);
        push_name(&mut out, self.facets, FacetKind::Behavior);
        push_name(&mut out, self.facets, FacetKind::TestIntent);
        push_name(&mut out, self.facets, FacetKind::Configuration);
        assert(texts(out@) =~= kind_names(self.facets));
        out
    }

    /// Whether a query only says that tests are wanted.
    pub fn is_generic_test_path_prior(&self) -> (r: bool)
        ensures
            r == self.facets.test_intent,
    {
        self.has_facet(FacetKind::TestIntent)
    }

    /// A copy.
    pub fn duplicate(&self) -> (r: ContextQuery)
        ensures
            r == *self,
    {
        ContextQuery {
            value: self.value.clone(),
            weight: self.weight,
            concept_weight: self.concept_weight,
            fusion_key: self.fusion_key.clone(),
            fuse: self.fuse,
            facets: self.facets,
            exact_variant: self.exact_variant,
        }
    }
}

/// The queries of a task.
#[derive(Debug)]
pub struct FacetPlan {
    pub queries: Vec<ContextQuery>,
}

/// A query that is to be made of a facet.
pub struct QuerySpec<'a> {
    pub value: &'a str,
    pub fusion_key: &'a str,
    pub exact_variant: bool,
    pub fuse: bool,
    pub weight: u32,
    pub concept_weight: u32,
}

/// What a [`QuerySpec`] says.
pub struct SpecView {
    pub value: Seq<char>,
    pub fusion_key: Seq<char>,
    pub exact_variant: bool,
    pub fuse: bool,
    pub weight: u32,
    pub concept_weight: u32,
}

impl<'a> View for QuerySpec<'a> {
    type V = SpecView;

    open spec fn view(&self) -> SpecView {
        SpecView {
            value: self.value@,
            fusion_key: self.fusion_key@,
            exact_variant: self.exact_variant,
            fuse: self.fuse,
            weight: self.weight,
            concept_weight: self.concept_weight,
        }
    }
}

/// Whether a facet is of a kind and about a text.
pub open spec fn same_facet(kind: FacetKind, original: Seq<char>) -> spec_fn(FacetView) -> bool {
    |facet: FacetView| facet.kind == kind && lowered(facet.original) == lowered(original)
}

/// The forms of a facet: the text itself first, then others of two characters
/// and more.
pub open spec fn facet_forms(original: Seq<char>, variants: Seq<Seq<char>>) -> Seq<Seq<char>> {
    first_of(
        distinct_by(filter_map(seq![original] + variants, at_least(2)), folded()),
        MAX_FACET_VARIANTS as int,
    )
}

/// Facets with one more, where it is new.
pub open spec fn with_facet(
    facets: Seq<FacetView>,
    kind: FacetKind,
    original: Seq<char>,
    variants: Seq<Seq<char>>,
    weight: u32,
) -> Seq<FacetView> {
    if original.len() == 0 || first_where(facets, same_facet(kind, original)) < facets.len() {
        facets
    } else {
        facets.push(
            FacetView {
                kind,
                original,
                variants: facet_forms(original, variants),
                weight,
                fusion_key: lowered(original),
            },
        )
    }
}

fn find_facet(facets: &Vec<TaskFacet>, kind: FacetKind, original: &str) -> (r: usize)
    ensures
        r == first_where(views(facets@), same_facet(kind, original@)),
        r <= facets@.len(),
{
    let ghost all = views(facets@);
    let mut i: usize = 0;
    while i < facets.len() && !(facets[i].kind == kind && same_folded(
        facets[i].original.as_str(),
        original,
    ))
        invariant
            i <= facets.len(),
            all == views(facets@),
            forall|k: int| 0 <= k < i ==> !same_facet(kind, original@)(#[trigger] all[k]),
        decreases facets.len() - i,
    {
        assert(all[i as int] == facets@[i as int]@);
        i += 1;
    }
    proof {
        if i < facets.len() {
            assert(all[i as int] == facets@[i as int]@);
        }
        first_where_is(all, same_facet(kind, original@), i as int);
    }
    i
}

fn make_forms(original: &str, variants: Vec<String>) -> (r: Vec<String>)
    ensures
        texts(r@) == facet_forms(original@, texts(variants@)),
{
    let mut all: Vec<String> = Vec::new();
    all.push(copy_text(original));
    let ghost more = texts(variants@);
    let mut variants = variants;
    all.append(&mut variants);
    assert(texts(all@) =~= seq![original@] + more);
    let ghost given = texts(all@);
    let mut long: Vec<String> = Vec::new();
    let mut i: usize = 0;
    assert(texts(long@) =~= filter_map(given.take(0), at_least(2)));
    while i < all.len()
        invariant
            i <= all.len(),
            given == texts(all@),
            texts(long@) == filter_map(given.take(i as int), at_least(2)),
        decreases all.len() - i,
    {
        let ghost before = texts(long@);
        proof {
            filter_map_push(given, at_least(2), i as int);
        }
        if char_count(all[i].as_str()) >= 2 {
            long.push(all[i].clone());
            assert(texts(long@) =~= before.push(all@[i as int]@));
        }
        i += 1;
    }
    assert(given.take(given.len() as int) =~= given);
    let mut forms = distinct_folded(&long);
    let ghost whole = texts(forms@);
    forms.truncate(MAX_FACET_VARIANTS);
    assert(texts(forms@) =~= first_of(whole, MAX_FACET_VARIANTS as int));
    forms
}

/// Adds a facet, where it is new.
pub fn push_facet(
    facets: &mut Vec<TaskFacet>,
    kind: FacetKind,
    original: &str,
    variants: Vec<String>,
    weight: u32,
)
    ensures
        views(final(facets)@) == with_facet(
            views(old(facets)@),
            kind,
            original@,
            texts(variants@),
            weight,
        ),
{
    let ghost start = views(facets@);
    if original.is_empty() || find_facet(facets, kind, original) < facets.len() {
        return ;
    }
    let facet = TaskFacet {
        kind,
        original: copy_text(original),
        variants: make_forms(original, variants),
        weight,
        fusion_key: lower_text(original),
    };
    let ghost added = facet@;
    facets.push(facet);
    assert(views(facets@) =~= start.push(added));
}

/// Whether a query looks for a text.
pub open spec fn looks_for(text: Seq<char>) -> spec_fn(QueryView) -> bool {
    |query: QueryView| lowered(query.value) == lowered(text)
}

/// The larger of two numbers.
pub open spec fn larger(a: u32, b: u32) -> u32 {
    if a > b {
        a
    } else {
        b
    }
}

/// A query that stands for one thing more.
pub open spec fn merged_query(query: QueryView, kind: FacetKind, spec: SpecView) -> QueryView {
    QueryView {
        weight: larger(query.weight, spec.weight),
        concept_weight: larger(query.concept_weight, spec.concept_weight),
        exact_variant: query.exact_variant || spec.exact_variant,
        fuse: query.fuse || spec.fuse,
        facets: query.facets.plus(kind),
        ..query
    }
}

/// Whether no query is made.
pub open spec fn not_asked(count: nat, spec: SpecView, limit: usize) -> bool {
    ||| count >= limit
    ||| spec.value.len() < 2
    ||| !spec.exact_variant && stop_word(spec.value)
}

/// Queries with one more: a text that is looked for already stands for one
/// thing more, a new one is added while there is room.
pub open spec fn with_query(
    queries: Seq<QueryView>,
    facet: FacetView,
    spec: SpecView,
    limit: usize,
) -> Seq<QueryView> {
    let at = first_where(queries, looks_for(spec.value));
    if not_asked(queries.len(), spec, limit) {
        queries
    } else if at < queries.len() {
        queries.update(at, merged_query(queries[at], facet.kind, spec))
    } else {
        queries.push(
            QueryView {
                value: spec.value,
                weight: spec.weight,
                concept_weight: spec.concept_weight,
                fusion_key: facet.fusion_key,
                fuse: spec.fuse,
                facets: no_facets().plus(facet.kind),
                exact_variant: spec.exact_variant,
            },
        )
    }
}

fn find_query(queries: &Vec<ContextQuery>, value: &str) -> (r: usize)
    ensures
        r == first_where(views(queries@), looks_for(value@)),
        r <= queries@.len(),
{
    let ghost all = views(queries@);
    let mut i: usize = 0;
    while i < queries.len() && !same_folded(queries[i].value.as_str(), value)
        invariant
            i <= queries.len(),
            all == views(queries@),
            forall|k: int| 0 <= k < i ==> !looks_for(value@)(#[trigger] all[k]),
        decreases queries.len() - i,
    {
        assert(all[i as int] == queries@[i as int]@);
        i += 1;
    }
    proof {
        if i < queries.len() {
            assert(all[i as int] == queries@[i as int]@);
        }
        first_where_is(all, looks_for(value@), i as int);
    }
    i
}

fn merge_query(query: ContextQuery, kind: FacetKind, spec: &QuerySpec<'_>) -> (r: ContextQuery)
    ensures
        r@ == merged_query(query@, kind, spec@),
{
    ContextQuery {
        weight: if spec.weight > query.weight {
            spec.weight
        } else {
            query.weight
        },
        concept_weight: if spec.concept_weight > query.concept_weight {
            spec.concept_weight
        } else {
            query.concept_weight
        },
        exact_variant: query.exact_variant || spec.exact_variant,
        fuse: query.fuse || spec.fuse,
        facets: query.facets.with(kind),
        value: query.value,
        fusion_key: query.fusion_key,
    }
}

/// Makes a query of a facet, or lets one that is there stand for it.
pub fn push_query(
    queries: &mut Vec<ContextQuery>,
    facet: &TaskFacet,
    spec: &QuerySpec<'_>,
    limit: usize,
)
    ensures
        views(final(queries)@) == with_query(views(old(queries)@), facet@, spec@, limit),
{
    let ghost start = views(queries@);
    if queries.len() >= limit || char_count(spec.value) < 2 {
        return ;
    }
    if !spec.exact_variant && is_stop_word(spec.value) {
        return ;
    }
    let at: usize = find_query(queries, spec.value);
    if at < queries.len() {
        assert(start[at as int] == queries@[at as int]@);
        let query = merge_query(queries.remove(at), facet.kind, spec);
        let ghost changed = query@;
        queries.insert(at, query);
        assert(views(queries@) =~= start.update(at as int, changed));
        return ;
    }
    let query = ContextQuery {
        value: copy_text(spec.value),
        weight: spec.weight,
        concept_weight: spec.concept_weight,
        fusion_key: facet.fusion_key.clone(),
        fuse: spec.fuse,
        facets: FacetSet::of(facet.kind),
        exact_variant: spec.exact_variant,
    };
    let ghost added = query@;
    queries.push(query);
    assert(views(queries@) =~= start.push(added));
}

/// Queries with one more for each of the first `upto` facets of a concept.
pub open spec fn with_concept(
    facets: Seq<FacetView>,
    queries: Seq<QueryView>,
    spec: SpecView,
    limit: usize,
    upto: int,
) -> Seq<QueryView>
    decreases upto,
{
    if upto <= 0 || upto > facets.len() {
        queries
    } else {
        let before = with_concept(facets, queries, spec, limit, upto - 1);
        if lowered(facets[upto - 1].fusion_key) == lowered(spec.fusion_key) {
            with_query(before, facets[upto - 1], spec, limit)
        } else {
            before
        }
    }
}

/// Makes a query of each facet of a concept.
pub fn push_fusion_query(
    facets: &Vec<TaskFacet>,
    queries: &mut Vec<ContextQuery>,
    spec: &QuerySpec<'_>,
    limit: usize,
)
    ensures
        views(final(queries)@) == with_concept(
            views(facets@),
            views(old(queries)@),
            spec@,
            limit,
            facets@.len() as int,
        ),
{
    let ghost start = views(queries@);
    let ghost all = views(facets@);
    let mut i: usize = 0;
    while i < facets.len()
        invariant
            i <= facets.len(),
            all == views(facets@),
            views(queries@) == with_concept(all, start, spec@, limit, i as int),
        decreases facets.len() - i,
    {
        assert(all[i as int] == facets@[i as int]@);
        if same_folded(facets[i].fusion_key.as_str(), spec.fusion_key) {
            push_query(queries, &facets[i], spec, limit);
        }
        i += 1;
    }
}

/// Queries with one more for each spec of a list.
pub open spec fn with_specs(
    facets: Seq<FacetView>,
    queries: Seq<QueryView>,
    specs: Seq<SpecView>,
    limit: usize,
) -> Seq<QueryView>
    decreases specs.len(),
{
    if specs.len() == 0 {
        queries
    } else {
        with_concept(
            facets,
            with_specs(facets, queries, specs.drop_last(), limit),
            specs.last(),
            limit,
            facets.len() as int,
        )
    }
}

/// The spec of an exact atom.
pub open spec fn exact_spec(value: Seq<char>) -> SpecView {
    SpecView {
        value,
        fusion_key: lowered(value),
        exact_variant: true,
        fuse: true,
        weight: text_weight(value, true),
        concept_weight: (text_weight(value, true) + 100) as u32,
    }
}

/// The spec of a text out of prose.
pub open spec fn prose_spec(value: Seq<char>, concept: Seq<char>, fuse: bool) -> SpecView {
    SpecView {
        value,
        fusion_key: lowered(concept),
        exact_variant: false,
        fuse,
        weight: text_weight(value, false),
        concept_weight: text_weight(value, false),
    }
}

/// The spec of a part of a code token.
pub open spec fn part_spec(value: Seq<char>, token: Seq<char>) -> SpecView {
    SpecView {
        value,
        fusion_key: lowered(token),
        exact_variant: false,
        fuse: true,
        weight: text_weight(value, true),
        concept_weight: (text_weight(value, true) + 100) as u32,
    }
}

/// The specs of exact atoms.
pub open spec fn exact_specs(values: Seq<Seq<char>>) -> Seq<SpecView> {
    Seq::new(values.len(), |i: int| exact_spec(values[i]))
}

/// The specs of texts out of prose.
pub open spec fn prose_specs(values: Seq<Seq<char>>, fuse: bool) -> Seq<SpecView> {
    Seq::new(values.len(), |i: int| prose_spec(values[i], values[i], fuse))
}

/// The spec of a phrase's first term.
pub open spec fn component() -> spec_fn(Seq<char>) -> Option<SpecView> {
    |phrase: Seq<char>|
        if terms_in(phrase).len() > 0 {
            Some(prose_spec(terms_in(phrase)[0], phrase, true))
        } else {
            None
        }
}

/// The spec of a code token's part of a round.
pub open spec fn part_of_round(vocabulary: Vocabulary, round: nat) -> spec_fn(Seq<char>) -> Option<
    SpecView,
> {
    |token: Seq<char>|
        if round < vocabulary.terms_of(token).len() {
            Some(part_spec(vocabulary.terms_of(token)[round as int], token))
        } else {
            None
        }
}

/// Queries with the parts of code tokens, round by round, until there is no
/// room or a round adds none.
pub open spec fn with_rounds(
    facets: Seq<FacetView>,
    queries: Seq<QueryView>,
    tokens: Seq<Seq<char>>,
    vocabulary: Vocabulary,
    round: nat,
    available: usize,
) -> Seq<QueryView>
    decreases available - queries.len(),
{
    if queries.len() >= available {
        queries
    } else {
        let next = with_specs(
            facets,
            queries,
            filter_map(tokens, part_of_round(vocabulary, round)),
            available,
        );
        if next.len() <= queries.len() || next.len() > available {
            next
        } else {
            with_rounds(facets, next, tokens, vocabulary, round + 1, available)
        }
    }
}

/// The text of a facet that stands for an exact atom.
pub open spec fn exact_text() -> spec_fn(FacetView) -> Option<Seq<char>> {
    |facet: FacetView|
        if facet.kind is ExactAtom {
            Some(facet.original)
        } else {
            None
        }
}

/// The smaller of two numbers.
pub open spec fn smaller_of(a: int, b: int) -> int {
    if a < b {
        a
    } else {
        b
    }
}

/// How many phrases get room among the queries.
pub open spec fn phrase_room(phrases: nat, code_tokens: nat, remaining: int) -> int {
    smaller_of(
        smaller_of(
            phrases as int,
            if code_tokens == 0 {
                MAX_NATURAL_PHRASES as int
            } else {
                1
            },
        ),
        remaining / 2,
    )
}

/// The spec that says tests are wanted.
pub open spec fn test_spec() -> SpecView {
    SpecView {
        value: "test"@,
        fusion_key: "test"@,
        exact_variant: false,
        fuse: false,
        weight: 20,
        concept_weight: 20,
    }
}

/// Whether a facet says that tests are wanted.
pub open spec fn wants_test() -> spec_fn(FacetView) -> bool {
    |facet: FacetView| facet.kind is TestIntent
}

/// The room that is left for other queries than the one on tests.
pub open spec fn room(limit: usize, wants_tests: bool) -> usize {
    if wants_tests && limit > 0 {
        (limit - 1) as usize
    } else {
        limit
    }
}

/// The queries of a task's facets: exact atoms first, then terms, phrases, the
/// phrases' first terms and the parts of code tokens, and last the one on tests.
pub open spec fn queries_of(
    task: Seq<char>,
    facets: Seq<FacetView>,
    behavior: Seq<Seq<char>>,
    phrases: Seq<Seq<char>>,
    limit: usize,
    wants_tests: bool,
    vocabulary: Vocabulary,
) -> Seq<QueryView> {
    let available = room(limit, wants_tests);
    let tokens = token_list(task);
    let exact = filter_map(facets, exact_text());
    let exact_limit = smaller_of(exact.len() as int, smaller_of(available as int, 4));
    let phrase_count = phrase_room(phrases.len(), tokens.len(), available - exact_limit);
    let left = available - (exact_limit + 2 * phrase_count);
    let prose = smaller_of(
        behavior.len() as int,
        if left > 0 {
            left
        } else {
            0
        },
    );
    let q1 = with_specs(
        facets,
        Seq::empty(),
        exact_specs(exact.take(exact_limit)),
        exact_limit as usize,
    );
    let q2 = with_specs(facets, q1, prose_specs(behavior.take(prose), false), available);
    let q3 = with_specs(facets, q2, prose_specs(phrases.take(phrase_count), true), available);
    let q4 = with_specs(
        facets,
        q3,
        filter_map(phrases.take(phrase_count), component()),
        available,
    );
    let q5 = with_rounds(facets, q4, tokens, vocabulary, 0, available);
    let test = first_where(facets, wants_test());
    if wants_tests && test < facets.len() {
        with_query(q5, facets[test], test_spec(), limit)
    } else {
        q5
    }
}

fn stage_exact(
    facets: &Vec<TaskFacet>,
    queries: &mut Vec<ContextQuery>,
    values: &Vec<String>,
    count: usize,
)
    requires
        count <= values@.len(),
    ensures
        views(final(queries)@) == with_specs(
            views(facets@),
            views(old(queries)@),
            exact_specs(texts(values@).take(count as int)),
            count,
        ),
{
    let ghost start = views(queries@);
    let ghost specs = exact_specs(texts(values@).take(count as int));
    let mut i: usize = 0;
    assert(specs.take(0) =~= Seq::<SpecView>::empty());
    while i < count
        invariant
            i <= count,
            count <= values@.len(),
            specs == exact_specs(texts(values@).take(count as int)),
            views(queries@) == with_specs(views(facets@), start, specs.take(i as int), count),
        decreases count - i,
    {
        let value = values[i].as_str();
        let key = lower_text(value);
        let weight: u32 = context_query_weight(value, true);
        let spec = QuerySpec {
            value,
            fusion_key: key.as_str(),
            exact_variant: true,
            fuse: true,
            weight,
            concept_weight: weight + 100,
        };
        proof {
            assert(specs.take(i + 1).drop_last() =~= specs.take(i as int));
            assert(specs.take(i + 1).last() == spec@);
        }
        push_fusion_query(facets, queries, &spec, count);
        i += 1;
    }
    assert(specs.take(count as int) =~= specs);
}

fn stage_prose(
    facets: &Vec<TaskFacet>,
    queries: &mut Vec<ContextQuery>,
    values: &Vec<String>,
    count: usize,
    fuse: bool,
    limit: usize,
)
    requires
        count <= values@.len(),
    ensures
        views(final(queries)@) == with_specs(
            views(facets@),
            views(old(queries)@),
            prose_specs(texts(values@).take(count as int), fuse),
            limit,
        ),
{
    let ghost start = views(queries@);
    let ghost specs = prose_specs(texts(values@).take(count as int), fuse);
    let mut i: usize = 0;
    assert(specs.take(0) =~= Seq::<SpecView>::empty());
    while i < count
        invariant
            i <= count,
            count <= values@.len(),
            specs == prose_specs(texts(values@).take(count as int), fuse),
            views(queries@) == with_specs(views(facets@), start, specs.take(i as int), limit),
        decreases count - i,
    {
        let value = values[i].as_str();
        let key = lower_text(value);
        let weight: u32 = context_query_weight(value, false);
        let spec = QuerySpec {
            value,
            fusion_key: key.as_str(),
            exact_variant: false,
            fuse,
            weight,
            concept_weight: weight,
        };
        proof {
            assert(specs.take(i + 1).drop_last() =~= specs.take(i as int));
            assert(specs.take(i + 1).last() == spec@);
        }
        push_fusion_query(facets, queries, &spec, limit);
        i += 1;
    }
    assert(specs.take(count as int) =~= specs);
}

fn stage_components(
    facets: &Vec<TaskFacet>,
    queries: &mut Vec<ContextQuery>,
    phrases: &Vec<String>,
    count: usize,
    limit: usize,
)
    requires
        count <= phrases@.len(),
    ensures
        views(final(queries)@) == with_specs(
            views(facets@),
            views(old(queries)@),
            filter_map(texts(phrases@).take(count as int), component()),
            limit,
        ),
{
    let ghost start = views(queries@);
    let ghost all = texts(phrases@).take(count as int);
    let mut i: usize = 0;
    assert(filter_map(all.take(0), component()) =~= Seq::<SpecView>::empty());
    while i < count
        invariant
            i <= count,
            count <= phrases@.len(),
            all == texts(phrases@).take(count as int),
            views(queries@) == with_specs(
                views(facets@),
                start,
                filter_map(all.take(i as int), component()),
                limit,
            ),
        decreases count - i,
    {
        let ghost known = filter_map(all.take(i as int), component());
        proof {
            filter_map_push(all, component(), i as int);
            assert(all[i as int] == phrases@[i as int]@);
        }
        let terms = task_terms(phrases[i].as_str());
        if terms.len() > 0 {
            assert(texts(terms@)[0] == terms@[0]@);
            let value = terms[0].as_str();
            let key = lower_text(phrases[i].as_str());
            let weight: u32 = context_query_weight(value, false);
            let spec = QuerySpec {
                value,
                fusion_key: key.as_str(),
                exact_variant: false,
                fuse: true,
                weight,
                concept_weight: weight,
            };
            proof {
                assert(known.push(spec@).drop_last() =~= known);
                assert(component()(all[i as int]) == Some(spec@));
            }
            push_fusion_query(facets, queries, &spec, limit);
        }
        i += 1;
    }
    assert(all.take(all.len() as int) =~= all);
}

fn stage_round(
    facets: &Vec<TaskFacet>,
    queries: &mut Vec<ContextQuery>,
    tokens: &Vec<String>,
    vocabulary: &Vocabulary,
    round: usize,
    limit: usize,
)
    ensures
        views(final(queries)@) == with_specs(
            views(facets@),
            views(old(queries)@),
            filter_map(texts(tokens@), part_of_round(*vocabulary, round as nat)),
            limit,
        ),
{
    let ghost start = views(queries@);
    let ghost all = texts(tokens@);
    let ghost f = part_of_round(*vocabulary, round as nat);
    let mut i: usize = 0;
    assert(filter_map(all.take(0), f) =~= Seq::<SpecView>::empty());
    while i < tokens.len()
        invariant
            i <= tokens.len(),
            all == texts(tokens@),
            f == part_of_round(*vocabulary, round as nat),
            views(queries@) == with_specs(
                views(facets@),
                start,
                filter_map(all.take(i as int), f),
                limit,
            ),
        decreases tokens.len() - i,
    {
        let ghost known = filter_map(all.take(i as int), f);
        proof {
            filter_map_push(all, f, i as int);
            assert(all[i as int] == tokens@[i as int]@);
        }
        let parts = vocabulary.expand_terms(tokens[i].as_str());
        if round < parts.len() {
            assert(texts(parts@)[round as int] == parts@[round as int]@);
            let value = parts[round].as_str();
            let key = lower_text(tokens[i].as_str());
            let weight: u32 = context_query_weight(value, true);
            let spec = QuerySpec {
                value,
                fusion_key: key.as_str(),
                exact_variant: false,
                fuse: true,
                weight,
                concept_weight: weight + 100,
            };
            proof {
                assert(known.push(spec@).drop_last() =~= known);
                assert(f(all[i as int]) == Some(spec@));
            }
            push_fusion_query(facets, queries, &spec, limit);
        }
        i += 1;
    }
    assert(all.take(all.len() as int) =~= all);
}

proof fn lemma_query_count(
    queries: Seq<QueryView>,
    facet: FacetView,
    spec: SpecView,
    limit: usize,
)
    ensures
        queries.len() <= with_query(queries, facet, spec, limit).len(),
        queries.len() <= limit ==> with_query(queries, facet, spec, limit).len() <= limit,
{
    crate::lists::tally_bounds(queries, looks_for(spec.value));
}

proof fn lemma_concept_count(
    facets: Seq<FacetView>,
    queries: Seq<QueryView>,
    spec: SpecView,
    limit: usize,
    upto: int,
)
    ensures
        queries.len() <= with_concept(facets, queries, spec, limit, upto).len(),
        queries.len() <= limit ==> with_concept(facets, queries, spec, limit, upto).len()
            <= limit,
    decreases upto,
{
    if 0 < upto <= facets.len() {
        lemma_concept_count(facets, queries, spec, limit, upto - 1);
        lemma_query_count(
            with_concept(facets, queries, spec, limit, upto - 1),
            facets[upto - 1],
            spec,
            limit,
        );
    }
}

/// Making queries never drops one, and never makes more than there is room for.
pub proof fn queries_stay_within_their_room(
    facets: Seq<FacetView>,
    queries: Seq<QueryView>,
    specs: Seq<SpecView>,
    limit: usize,
)
    ensures
        queries.len() <= with_specs(facets, queries, specs, limit).len(),
        queries.len() <= limit ==> with_specs(facets, queries, specs, limit).len() <= limit,
    decreases specs.len(),
{
    if specs.len() > 0 {
        queries_stay_within_their_room(facets, queries, specs.drop_last(), limit);
        lemma_concept_count(
            facets,
            with_specs(facets, queries, specs.drop_last(), limit),
            specs.last(),
            limit,
            facets.len() as int,
        );
    }
}

/// Making queries of the parts of code tokens never makes more than there is room
/// for.
pub proof fn rounds_stay_within_their_room(
    facets: Seq<FacetView>,
    queries: Seq<QueryView>,
    tokens: Seq<Seq<char>>,
    vocabulary: Vocabulary,
    round: nat,
    available: usize,
)
    requires
        queries.len() <= available,
    ensures
        with_rounds(facets, queries, tokens, vocabulary, round, available).len() <= available,
    decreases available - queries.len(),
{
    if queries.len() < available {
        let specs = filter_map(tokens, part_of_round(vocabulary, round));
        let next = with_specs(facets, queries, specs, available);
        queries_stay_within_their_room(facets, queries, specs, available);
        if queries.len() < next.len() <= available {
            rounds_stay_within_their_room(facets, next, tokens, vocabulary, round + 1, available);
        }
    }
}

fn exact_texts(facets: &Vec<TaskFacet>) -> (r: Vec<String>)
    ensures
        texts(r@) == filter_map(views(facets@), exact_text()),
{
    let ghost all = views(facets@);
    let mut out: Vec<String> = Vec::new();
    let mut i: usize = 0;
    assert(texts(out@) =~= filter_map(all.take(0), exact_text()));
    while i < facets.len()
        invariant
            i <= facets.len(),
            all == views(facets@),
            texts(out@) == filter_map(all.take(i as int), exact_text()),
        decreases facets.len() - i,
    {
        let ghost before = texts(out@);
        proof {
            filter_map_push(all, exact_text(), i as int);
            assert(all[i as int] == facets@[i as int]@);
        }
        if facets[i].kind == FacetKind::ExactAtom {
            out.push(facets[i].original.clone());
            assert(texts(out@) =~= before.push(facets@[i as int].original@));
        }
        i += 1;
    }
    assert(all.take(all.len() as int) =~= all);
    out
}

fn find_test_facet(facets: &Vec<TaskFacet>) -> (r: usize)
    ensures
        r == first_where(views(facets@), wants_test()),
        r <= facets@.len(),
{
    let ghost all = views(facets@);
    let mut i: usize = 0;
    while i < facets.len() && facets[i].kind != FacetKind::TestIntent
        invariant
            i <= facets.len(),
            all == views(facets@),
            forall|k: int| 0 <= k < i ==> !wants_test()(#[trigger] all[k]),
        decreases facets.len() - i,
    {
        assert(all[i as int] == facets@[i as int]@);
        i += 1;
    }
    proof {
        if i < facets.len() {
            assert(all[i as int] == facets@[i as int]@);
        }
        first_where_is(all, wants_test(), i as int);
    }
    i
}

fn least(a: usize, b: usize) -> (r: usize)
    ensures
        r == smaller_of(a as int, b as int),
{
    if a < b {
        a
    } else {
        b
    }
}

/// The queries of a task's facets.
#[verifier::rlimit(60)]
pub fn build_queries(
    task: &str,
    facets: &Vec<TaskFacet>,
    behavior_terms: &Vec<String>,
    natural_phrases: &Vec<String>,
    limit: usize,
    wants_tests: bool,
    vocabulary: &Vocabulary,
) -> (r: Vec<ContextQuery>)
    ensures
        views(r@) == queries_of(
            task@,
            views(facets@),
            texts(behavior_terms@),
            texts(natural_phrases@),
            limit,
            wants_tests,
            *vocabulary,
        ),
{
    let available: usize = if wants_tests {
        limit.saturating_sub(1)
    } else {
        limit
    };
    let ghost fs = views(facets@);
    let mut queries: Vec<ContextQuery> = Vec::new();
    let tokens = code_tokens(task);
    let exact = exact_texts(facets);
    let exact_limit: usize = least(exact.len(), least(available, 4));
    let remaining: usize = available - exact_limit;
    let most: usize = if tokens.len() == 0 {
        MAX_NATURAL_PHRASES
    } else {
        1
    };
    let phrase_count: usize = least(least(natural_phrases.len(), most), remaining / 2);
    let slots: usize = phrase_count + phrase_count;
    let prose: usize = least(behavior_terms.len(), remaining - slots);
    proof {
        assert(texts(tokens@).len() == tokens@.len());
        assert(texts(exact@).len() == exact@.len());
        assert(views(queries@) =~= Seq::<QueryView>::empty());
    }
    stage_exact(facets, &mut queries, &exact, exact_limit);
    proof {
        queries_stay_within_their_room(
            fs,
            Seq::empty(),
            exact_specs(texts(exact@).take(exact_limit as int)),
            exact_limit,
        );
    }
    let ghost q1 = views(queries@);
    stage_prose(facets, &mut queries, behavior_terms, prose, false, available);
    proof {
        queries_stay_within_their_room(
            fs,
            q1,
            prose_specs(texts(behavior_terms@).take(prose as int), false),
            available,
        );
    }
    let ghost q2 = views(queries@);
    stage_prose(facets, &mut queries, natural_phrases, phrase_count, true, available);
    proof {
        queries_stay_within_their_room(
            fs,
            q2,
            prose_specs(texts(natural_phrases@).take(phrase_count as int), true),
            available,
        );
    }
    let ghost q3 = views(queries@);
    stage_components(facets, &mut queries, natural_phrases, phrase_count, available);
    proof {
        queries_stay_within_their_room(
            fs,
            q3,
            filter_map(texts(natural_phrases@).take(phrase_count as int), component()),
            available,
        );
    }
    let ghost q4 = views(queries@);
    let ghost q5 = with_rounds(fs, q4, texts(tokens@), *vocabulary, 0, available);
    let mut round: usize = 0;
    let mut more = true;
    while more && queries.len() < available
        invariant
            fs == views(facets@),
            queries@.len() <= available,
            round <= queries@.len(),
            more ==> q5 == with_rounds(
                fs,
                views(queries@),
                texts(tokens@),
                *vocabulary,
                round as nat,
                available,
            ),
            !more ==> q5 == views(queries@),
        decreases available - queries@.len() + (if more { 1int } else { 0 }),
    {
        let ghost held = views(queries@);
        let before: usize = queries.len();
        stage_round(facets, &mut queries, &tokens, vocabulary, round, available);
        proof {
            queries_stay_within_their_room(
                fs,
                held,
                filter_map(texts(tokens@), part_of_round(*vocabulary, round as nat)),
                available,
            );
            assert(views(queries@).len() == queries@.len());
            assert(held.len() == before);
        }
        if queries.len() == before {
            more = false;
        } else {
            round += 1;
        }
    }
    assert(views(queries@).len() == queries@.len());
    assert(q5 == views(queries@));
    if wants_tests {
        let at: usize = find_test_facet(facets);
        if at < facets.len() {
            assert(fs[at as int] == facets@[at as int]@);
            let spec = QuerySpec {
                value: "test",
                fusion_key: "test",
                exact_variant: false,
                fuse: false,
                weight: 20,
                concept_weight: 20,
            };
            push_query(&mut queries, &facets[at], &spec, limit);
        }
    }
    queries
}

/// A task's facets give no more queries than were asked for.
pub proof fn queries_are_bounded(
    task: Seq<char>,
    facets: Seq<FacetView>,
    behavior: Seq<Seq<char>>,
    phrases: Seq<Seq<char>>,
    limit: usize,
    wants_tests: bool,
    vocabulary: Vocabulary,
)
    ensures
        queries_of(task, facets, behavior, phrases, limit, wants_tests, vocabulary).len() <= limit,
{
    let available = room(limit, wants_tests);
    let tokens = token_list(task);
    let exact = filter_map(facets, exact_text());
    let exact_limit = smaller_of(exact.len() as int, smaller_of(available as int, 4));
    let phrase_count = phrase_room(phrases.len(), tokens.len(), available - exact_limit);
    let left = available - (exact_limit + 2 * phrase_count);
    let prose = smaller_of(
        behavior.len() as int,
        if left > 0 {
            left
        } else {
            0
        },
    );
    let s1 = exact_specs(exact.take(exact_limit));
    let q1 = with_specs(facets, Seq::empty(), s1, exact_limit as usize);
    queries_stay_within_their_room(facets, Seq::empty(), s1, exact_limit as usize);
    let s2 = prose_specs(behavior.take(prose), false);
    let q2 = with_specs(facets, q1, s2, available);
    queries_stay_within_their_room(facets, q1, s2, available);
    let s3 = prose_specs(phrases.take(phrase_count), true);
    let q3 = with_specs(facets, q2, s3, available);
    queries_stay_within_their_room(facets, q2, s3, available);
    let s4 = filter_map(phrases.take(phrase_count), component());
    let q4 = with_specs(facets, q3, s4, available);
    queries_stay_within_their_room(facets, q3, s4, available);
    rounds_stay_within_their_room(facets, q4, tokens, vocabulary, 0, available);
    let q5 = with_rounds(facets, q4, tokens, vocabulary, 0, available);
    let test = first_where(facets, wants_test());
    if wants_tests && test < facets.len() {
        lemma_query_count(q5, facets[test], test_spec(), limit);
    }
}

/// The first form of a facet is its own text, and there are few of them.
pub proof fn a_facet_is_first_found_as_it_stands(original: Seq<char>, variants: Seq<Seq<char>>)
    requires
        original.len() >= 2,
    ensures
        facet_forms(original, variants).len() >= 1,
        facet_forms(original, variants)[0] == original,
        facet_forms(original, variants).len() <= MAX_FACET_VARIANTS,
{
    let all = seq![original] + variants;
    lemma_first_form(all, 1);
}

proof fn lemma_first_form(all: Seq<Seq<char>>, upto: int)
    requires
        1 <= upto <= all.len(),
        all[0].len() >= 2,
    ensures
        distinct_by(filter_map(all.take(upto), at_least(2)), folded()).len() >= 1,
        distinct_by(filter_map(all.take(upto), at_least(2)), folded())[0] == all[0],
        distinct_by(filter_map(all, at_least(2)), folded()).len() >= 1,
        distinct_by(filter_map(all, at_least(2)), folded())[0] == all[0],
    decreases all.len() - upto,
{
    lemma_first_form_upto(all, upto);
    lemma_first_form_upto(all, all.len() as int);
    assert(all.take(all.len() as int) =~= all);
}

proof fn lemma_first_form_upto(all: Seq<Seq<char>>, upto: int)
    requires
        1 <= upto <= all.len(),
        all[0].len() >= 2,
    ensures
        filter_map(all.take(upto), at_least(2)).len() >= 1,
        distinct_by(filter_map(all.take(upto), at_least(2)), folded()).len() >= 1,
        distinct_by(filter_map(all.take(upto), at_least(2)), folded())[0] == all[0],
    decreases upto,
{
    filter_map_push(all, at_least(2), upto - 1);
    let before = filter_map(all.take(upto - 1), at_least(2));
    let now = filter_map(all.take(upto), at_least(2));
    if upto == 1 {
        assert(all.take(0) =~= Seq::<Seq<char>>::empty());
        assert(now =~= seq![all[0]]);
        assert(now.drop_last() =~= Seq::<Seq<char>>::empty());
        assert(distinct_by(now.drop_last(), folded()).len() == 0);
        assert(!holds_key(distinct_by(now.drop_last(), folded()), folded(), folded()(all[0])));
        assert(distinct_by(now, folded()) =~= seq![all[0]]);
    } else {
        lemma_first_form_upto(all, upto - 1);
        if now != before {
            assert(now.drop_last() =~= before);
        }
    }
}

} // verus!
