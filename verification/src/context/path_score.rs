//! How strongly a path is spoken of by a task.

use crate::context::facets::{at_least, code_tokens, token_list, Vocabulary};
use crate::context::scope_helpers::{
    mcp_repository_intent, mentions_language, registration_intent, spoken, task_mentions_language,
};
use crate::coverage::capped_sum;
use crate::lists::{filter_map, filter_map_push, tally, tally_push};
use crate::text::{
    begins, char_count, chars_of, contains_text, distinct, distinct_texts, lower_all, lowered_all,
    occurs, only, pieces, same_text, split_on, starts_text, texts, unicode_lowercase,
    unicode_uppercase,
};
use vstd::prelude::*;

verus! {

/// What is asked of a path.
#[derive(Debug)]
pub struct ContextPathScorer {
    pub terms: Vec<String>,
    pub code_token_parts: Vec<Vec<String>>,
    pub javascript: bool,
    pub typescript: bool,
    pub python: bool,
    pub rust: bool,
    pub go: bool,
    pub mcp_repository_intent: bool,
}

/// What a [`ContextPathScorer`] says.
pub struct ScorerView {
    pub terms: Seq<Seq<char>>,
    pub parts: Seq<Seq<Seq<char>>>,
    pub javascript: bool,
    pub typescript: bool,
    pub python: bool,
    pub rust: bool,
    pub go: bool,
    pub registration: bool,
}

/// What lists of texts say.
pub open spec fn text_lists(lists: Seq<Vec<String>>) -> Seq<Seq<Seq<char>>> {
    Seq::new(lists.len(), |i: int| texts(lists[i]@))
}

impl View for ContextPathScorer {
    type V = ScorerView;

    open spec fn view(&self) -> ScorerView {
        ScorerView {
            terms: texts(self.terms@),
            parts: text_lists(self.code_token_parts@),
            javascript: self.javascript,
            typescript: self.typescript,
            python: self.python,
            rust: self.rust,
            go: self.go,
            registration: self.mcp_repository_intent,
        }
    }
}

/// Whether a text begins with a capital letter.
pub open spec fn begins_upper(part: Seq<char>) -> bool {
    part.len() > 0 && unicode_uppercase(part[0])
}

/// Whether a code token names its owner: a part behind a dot is a type, or
/// colons part it.
pub open spec fn names_owner(token: Seq<char>) -> bool {
    ||| occurs(token, "::"@)
    ||| exists|i: int|
        0 <= i < pieces(token, only('.')).len() && begins_upper(
            #[trigger] pieces(token, only('.'))[i],
        )
}

/// The distinct parts of a code token, in small letters.
pub open spec fn token_parts(vocabulary: Vocabulary) -> spec_fn(Seq<char>) -> Option<
    Seq<Seq<char>>,
> {
    |token: Seq<char>|
        if names_owner(token) {
            Some(
                distinct(filter_map(lowered_all(vocabulary.terms_of(token)), at_least(2))),
            )
        } else {
            None
        }
}

/// What a task asks of paths.
pub open spec fn scorer_of(
    terms: Seq<Seq<char>>,
    task: Seq<char>,
    vocabulary: Vocabulary,
) -> ScorerView {
    ScorerView {
        terms: lowered_all(terms),
        parts: filter_map(token_list(task), token_parts(vocabulary)),
        javascript: mentions_language(task, "javascript"@),
        typescript: mentions_language(task, "typescript"@),
        python: mentions_language(task, "python"@),
        rust: mentions_language(task, "rust"@),
        go: mentions_language(task, "go"@),
        registration: registration_intent(spoken(terms, task)),
    }
}

/// Whether a path holds a text.
pub open spec fn held_by(path: Seq<char>) -> spec_fn(Seq<char>) -> bool {
    |text: Seq<char>| occurs(path, text)
}

/// A count that stops at the largest number of 32 bits.
pub open spec fn counted(count: nat) -> nat {
    if count > u32::MAX {
        u32::MAX as nat
    } else {
        count
    }
}

/// What the parts of one code token add: the square of their number, from two
/// on.
pub open spec fn part_points(parts: Seq<Seq<char>>, path: Seq<char>) -> u64 {
    let matched = tally(parts, held_by(path));
    if matched >= 2 {
        counted(counted(matched) * counted(matched)) as u64
    } else {
        0
    }
}

/// What the first `upto` code tokens add to a score.
pub open spec fn token_points(score: u64, parts: Seq<Seq<Seq<char>>>, path: Seq<char>, upto: int) -> u64
    decreases upto,
{
    if upto <= 0 || upto > parts.len() {
        score
    } else {
        capped_sum(token_points(score, parts, path, upto - 1), part_points(parts[upto - 1], path))
    }
}

/// The text behind the last dot of a path, where it has one.
pub open spec fn last_extension(path: Seq<char>) -> Option<Seq<char>> {
    let parts = pieces(path, only('.'));
    if parts.len() >= 2 {
        Some(parts.last())
    } else {
        None
    }
}

/// Whether a part of a path between slashes is a name.
pub open spec fn has_component(path: Seq<char>, name: Seq<char>) -> bool {
    pieces(path, only('/')).contains(name)
}

/// What a named language adds to a path that is written in it.
pub open spec fn language_points(mentioned: bool, written: bool) -> u64 {
    if mentioned && written {
        12
    } else {
        0
    }
}

/// Whether a path is of JavaScript.
pub open spec fn javascript_path(path: Seq<char>) -> bool {
    ||| has_component(path, "js"@)
    ||| last_extension(path) == Some("js"@)
    ||| last_extension(path) == Some("jsx"@)
    ||| last_extension(path) == Some("mjs"@)
    ||| last_extension(path) == Some("cjs"@)
}

/// Whether a path is of TypeScript.
pub open spec fn typescript_path(path: Seq<char>) -> bool {
    ||| has_component(path, "ts"@)
    ||| last_extension(path) == Some("ts"@)
    ||| last_extension(path) == Some("tsx"@)
}

/// Whether a path is of Python.
pub open spec fn python_path(path: Seq<char>) -> bool {
    ||| has_component(path, "python"@)
    ||| last_extension(path) == Some("py"@)
    ||| last_extension(path) == Some("pyw"@)
}

/// Whether a path is of Rust.
pub open spec fn rust_path(path: Seq<char>) -> bool {
    has_component(path, "rust"@) || last_extension(path) == Some("rs"@)
}

/// Whether a path is of Go.
pub open spec fn go_path(path: Seq<char>) -> bool {
    has_component(path, "go"@) || last_extension(path) == Some("go"@)
}

/// What a question for tools and their registration adds to a path.
pub open spec fn registration_points(asked: bool, path: Seq<char>) -> u64 {
    if !asked {
        0
    } else if path == "src/mcp.rs"@ || begins(path, "src/mcp/"@) || path
        == "src/main/mcp_runtime.rs"@ {
        14
    } else if path == "crates/test-suite/src/domains/protocol.rs"@ || path
        == "crates/test-suite/src/domains/contracts.rs"@ || path == "tests/mcp.rs"@ || begins(
        path,
        "tests/mcp/"@,
    ) {
        8
    } else {
        0
    }
}

/// The score of a path.
pub open spec fn path_points(scorer: ScorerView, path: Seq<char>) -> u64 {
    let low = unicode_lowercase(path);
    let terms = counted(tally(scorer.terms, held_by(low))) as u64;
    let tokens = token_points(terms, scorer.parts, low, scorer.parts.len() as int);
    let s1 = capped_sum(tokens, language_points(scorer.javascript, javascript_path(low)));
    let s2 = capped_sum(s1, language_points(scorer.typescript, typescript_path(low)));
    let s3 = capped_sum(s2, language_points(scorer.python, python_path(low)));
    let s4 = capped_sum(s3, language_points(scorer.rust, rust_path(low)));
    let s5 = capped_sum(s4, language_points(scorer.go, go_path(low)));
    capped_sum(s5, registration_points(scorer.registration, low))
}

fn is_owner_token(token: &str) -> (r: bool)
    ensures
        r == names_owner(token@),
{
    if contains_text(token, "::") {
        return true;
    }
    let parts = split_on(token, '.');
    let ghost all = texts(parts@);
    let mut i: usize = 0;
    while i < parts.len()
        invariant
            i <= parts.len(),
            all == texts(parts@),
            all == pieces(token@, only('.')),
            forall|k: int| 0 <= k < i ==> !begins_upper(#[trigger] all[k]),
        decreases parts.len() - i,
    {
        assert(all[i as int] == parts@[i as int]@);
        let chars = chars_of(parts[i].as_str());
        if chars.len() > 0 && chars[0].is_uppercase() {
            assert(begins_upper(pieces(token@, only('.'))[i as int]));
            return true;
        }
        i += 1;
    }
    false
}

fn parts_of_token(token: &str, vocabulary: &Vocabulary) -> (r: Vec<String>)
    ensures
        texts(r@) == distinct(
            filter_map(lowered_all(vocabulary.terms_of(token@)), at_least(2)),
        ),
{
    let list = lower_all(&vocabulary.expand_terms(token));
    let ghost all = texts(list@);
    let mut long: Vec<String> = Vec::new();
    let mut i: usize = 0;
    assert(texts(long@) =~= filter_map(all.take(0), at_least(2)));
    while i < list.len()
        invariant
            i <= list.len(),
            all == texts(list@),
            texts(long@) == filter_map(all.take(i as int), at_least(2)),
        decreases list.len() - i,
    {
        let ghost before = texts(long@);
        proof {
            filter_map_push(all, at_least(2), i as int);
        }
        if char_count(list[i].as_str()) >= 2 {
            long.push(list[i].clone());
            assert(texts(long@) =~= before.push(list@[i as int]@));
        }
        i += 1;
    }
    assert(all.take(all.len() as int) =~= all);
    distinct_texts(&long)
}

fn count_held(list: &Vec<String>, path: &str) -> (r: usize)
    ensures
        r == tally(texts(list@), held_by(path@)),
{
    let ghost all = texts(list@);
    let mut count: usize = 0;
    let mut i: usize = 0;
    while i < list.len()
        invariant
            i <= list.len(),
            count <= i,
            all == texts(list@),
            count == tally(all.take(i as int), held_by(path@)),
        decreases list.len() - i,
    {
        proof {
            tally_push(all, held_by(path@), i as int);
        }
        if contains_text(path, list[i].as_str()) {
            count += 1;
        }
        i += 1;
    }
    assert(all.take(all.len() as int) =~= all);
    count
}

fn cap_count(count: usize) -> (r: u64)
    ensures
        r == counted(count as nat),
{
    if count as u64 > u32::MAX as u64 {
        u32::MAX as u64
    } else {
        count as u64
    }
}

fn square_points(matched: usize) -> (r: u64)
    ensures
        r == counted(counted(matched as nat) * counted(matched as nat)),
{
    let capped: u64 = cap_count(matched);
    assert(capped * capped <= 0xFFFF_FFFF * 0xFFFF_FFFF) by (nonlinear_arith)
        requires
            capped <= 0xFFFF_FFFF,
    ;
    let square: u64 = capped * capped;
    if square > u32::MAX as u64 {
        u32::MAX as u64
    } else {
        square
    }
}

fn extension_text(path: &str) -> (r: Option<String>)
    ensures
        crate::text::optional_text(r) == last_extension(path@),
{
    let mut parts = split_on(path, '.');
    let ghost all = texts(parts@);
    assert(all.len() == parts@.len());
    if parts.len() >= 2 {
        assert(all.last() == parts@[parts@.len() - 1]@);
        parts.pop()
    } else {
        None
    }
}

fn extension_is(extension: &Option<String>, name: &str) -> (r: bool)
    ensures
        r == (crate::text::optional_text(*extension) == Some(name@)),
{
    match extension {
        Some(text) => same_text(text.as_str(), name),
        None => false,
    }
}

fn language_bonus(mentioned: bool, written: bool) -> (r: u64)
    ensures
        r == language_points(mentioned, written),
{
    if mentioned && written {
        12
    } else {
        0
    }
}

impl ContextPathScorer {
    /// What a task asks of paths.
    pub fn new(terms: &Vec<String>, task: &str, vocabulary: &Vocabulary) -> (r: ContextPathScorer)
        ensures
            r@ == scorer_of(texts(terms@), task@, *vocabulary),
    {
        let tokens = code_tokens(task);
        let ghost all = texts(tokens@);
        let ghost f = token_parts(*vocabulary);
        let mut code_token_parts: Vec<Vec<String>> = Vec::new();
        let mut i: usize = 0;
        assert(text_lists(code_token_parts@) =~= filter_map(all.take(0), f));
        while i < tokens.len()
            invariant
                i <= tokens.len(),
                all == texts(tokens@),
                f == token_parts(*vocabulary),
                text_lists(code_token_parts@) == filter_map(all.take(i as int), f),
            decreases tokens.len() - i,
        {
            let ghost before = text_lists(code_token_parts@);
            proof {
                filter_map_push(all, f, i as int);
            }
            if is_owner_token(tokens[i].as_str()) {
                let parts = parts_of_token(tokens[i].as_str(), vocabulary);
                let ghost added = texts(parts@);
                code_token_parts.push(parts);
                assert(text_lists(code_token_parts@) =~= before.push(added));
            }
            i += 1;
        }
        assert(all.take(all.len() as int) =~= all);
        ContextPathScorer {
            terms: lower_all(terms),
            code_token_parts,
            javascript: task_mentions_language(task, "javascript"),
            typescript: task_mentions_language(task, "typescript"),
            python: task_mentions_language(task, "python"),
            rust: task_mentions_language(task, "rust"),
            go: task_mentions_language(task, "go"),
            mcp_repository_intent: mcp_repository_intent(terms, task),
        }
    }

    /// The score of a path.
    #[verifier::rlimit(40)]
    pub fn score(&self, path: &str) -> (r: u64)
        ensures
            r == path_points(self@, path@),
    {
        let folded = path.to_lowercase();
        let path = folded.as_str();
        let terms: u64 = cap_count(count_held(&self.terms, path));
        let ghost all = self@.parts;
        let mut score: u64 = terms;
        let mut i: usize = 0;
        while i < self.code_token_parts.len()
            invariant
                i <= self.code_token_parts.len(),
                all == self@.parts,
                score == token_points(terms, all, path@, i as int),
            decreases self.code_token_parts.len() - i,
        {
            assert(all[i as int] == texts(self.code_token_parts@[i as int]@));
            let matched: usize = count_held(&self.code_token_parts[i], path);
            if matched >= 2 {
                score = score.saturating_add(square_points(matched));
            }
            i += 1;
        }
        let components = split_on(path, '/');
        let extension = extension_text(path);
        let javascript = crate::text::list_has(&components, "js") || extension_is(&extension, "js")
            || extension_is(&extension, "jsx") || extension_is(&extension, "mjs") || extension_is(
            &extension,
            "cjs",
        );
        let typescript = crate::text::list_has(&components, "ts") || extension_is(&extension, "ts")
            || extension_is(&extension, "tsx");
        let python = crate::text::list_has(&components, "python") || extension_is(
            &extension,
            "py",
        ) || extension_is(&extension, "pyw");
        let rust = crate::text::list_has(&components, "rust") || extension_is(&extension, "rs");
        let go = crate::text::list_has(&components, "go") || extension_is(&extension, "go");
        score = score.saturating_add(language_bonus(self.javascript, javascript));
        score = score.saturating_add(language_bonus(self.typescript, typescript));
        score = score.saturating_add(language_bonus(self.python, python));
        score = score.saturating_add(language_bonus(self.rust, rust));
        score = score.saturating_add(language_bonus(self.go, go));
        let registration: u64 = if !self.mcp_repository_intent {
            0
        } else if same_text(path, "src/mcp.rs") || starts_text(path, "src/mcp/") || same_text(
            path,
            "src/main/mcp_runtime.rs",
        ) {
            14
        } else if same_text(path, "crates/test-suite/src/domains/protocol.rs") || same_text(
            path,
            "crates/test-suite/src/domains/contracts.rs",
        ) || same_text(path, "tests/mcp.rs") || starts_text(path, "tests/mcp/") {
            8
        } else {
            0
        };
        score.saturating_add(registration)
    }
}

/// The score of a path for a task.
pub fn context_path_score(
    path: &str,
    terms: &Vec<String>,
    task: &str,
    vocabulary: &Vocabulary,
) -> (r: u64)
    ensures
        r == path_points(scorer_of(texts(terms@), task@, *vocabulary), path@),
{
    ContextPathScorer::new(terms, task, vocabulary).score(path)
}

} // verus!
