//! What a request's texts and paths say of its scope.

use crate::error::{reports, Error, Fault};
use crate::files::{groups_are_few, has_backslash, plain_glob};
use crate::lists::{first_where, first_where_is, tally, tally_push};
use crate::model::{
    ContextPathGroup, ContextRequest, ContextRoutingReceipt, ContextRoutingSuggestion,
    ContextWorkflow, DiffScopeReceipt, GroupView, IndexConsistency,
};
use crate::ordered::{
    first_of, sort_by, sort_unique_texts, sorted_by, sorted_unique, text_lt, views,
};
use crate::text::{
    appended, begins, byte_len, chars_of, code_words, code_words_of, contains_text,
    copy_optional_text, copy_text, copy_texts, drop_empty, ends, ends_text, file_name, find_from,
    first_at, first_at_bounds, lower_all, lower_text, lowered, lowered_all, name_of, nonempty,
    occurs, only, optional_text, pieces, plain_words, plain_words_of, same_folded, same_text,
    slash_text, slashed, split_first, split_on, split_once_text, starts_text, stem, stem_of,
    text_before, texts, unicode_alphanumeric,
};
use crate::validation::{blank, byte_size, is_blank};
use globset::GlobBuilder;
use vstd::prelude::*;

verus! {

/// The most tokens of a symbol's excerpt.
pub const SYMBOL_CONTEXT_TOKEN_CAP: usize = 768;

/// The most tokens of a reference's excerpt.
pub const REFERENCE_CONTEXT_TOKEN_CAP: usize = 256;

/// The most tokens of a text match's excerpt.
pub const TEXT_CONTEXT_TOKEN_CAP: usize = 256;

/// The most tokens of an imported symbol's excerpt.
pub const IMPORT_SYMBOL_CONTEXT_TOKEN_CAP: usize = 384;

/// The number of changed paths from which a change counts as wide.
pub const OVERSIZED_CHANGE_PATHS: usize = 32;

/// The fewest groups of paths that a wide change is split into.
pub const MIN_OVERSIZED_PATH_GROUPS: usize = 3;

/// The most groups of paths that routing lists.
pub const MAX_ROUTING_GROUPS: usize = 5;

/// The most narrower requests that routing suggests.
pub const MAX_ROUTING_SUGGESTIONS: usize = 3;

/// The weight of a test that owns a changed path, in hundredths.
pub const OWNER_TEST_SCORE: u32 = 375;

/// Whether a text with two dots in it is no range of two revisions.
pub open spec fn bad_range(base: Seq<char>, head: Seq<char>) -> bool {
    ||| is_blank(base)
    ||| is_blank(head)
    ||| ends(base, "."@)
    ||| begins(head, "."@)
    ||| occurs(head, ".."@)
}

/// The fault of a revision text.
pub open spec fn range_fault(revision: Seq<char>) -> Option<Fault> {
    match split_first(revision, ".."@) {
        Some(ends) => if bad_range(ends.0, ends.1) {
            Some(
                Fault::InvalidInput {
                    field: "base revision"@,
                    reason: "revision range must be BASE..HEAD"@,
                },
            )
        } else {
            None
        },
        None => None,
    }
}

/// What an optional pair of texts says.
pub open spec fn optional_pair(value: Option<(String, String)>) -> Option<(Seq<char>, Seq<char>)> {
    match value {
        Some(pair) => Some((pair.0@, pair.1@)),
        None => None,
    }
}

/// The two ends of a revision range, where the text is one.
pub fn parse_revision_range(revision: &str) -> (r: Result<Option<(String, String)>, Error>)
    ensures
        reports(r, range_fault(revision@)),
        r matches Ok(range) ==> optional_pair(range) == split_first(revision@, ".."@),
{
    match split_once_text(revision, "..") {
        None => Ok(None),
        Some((base, head)) => {
            if blank(base.as_str()) || blank(head.as_str()) || ends_text(base.as_str(), ".")
                || starts_text(head.as_str(), ".") || contains_text(head.as_str(), "..") {
                Err(
                    Error::InvalidInput {
                        field: "base revision",
                        reason: "revision range must be BASE..HEAD",
                    },
                )
            } else {
                Ok(Some((base, head)))
            }
        },
    }
}

/// What an excerpt shows.
#[derive(Debug, Clone, Copy, PartialEq, Eq, Structural)]
pub enum ContextExcerptKind {
    Symbol,
    Reference,
    Text,
    ImportSymbol,
}

impl ContextExcerptKind {
    /// The most tokens of an excerpt.
    pub open spec fn cap(self) -> usize {
        match self {
            ContextExcerptKind::Symbol => SYMBOL_CONTEXT_TOKEN_CAP,
            ContextExcerptKind::Reference => REFERENCE_CONTEXT_TOKEN_CAP,
            ContextExcerptKind::Text => TEXT_CONTEXT_TOKEN_CAP,
            ContextExcerptKind::ImportSymbol => IMPORT_SYMBOL_CONTEXT_TOKEN_CAP,
        }
    }

    /// The most tokens of an excerpt.
    pub fn token_cap(self) -> (r: usize)
        ensures
            r == self.cap(),
    {
        match self {
            ContextExcerptKind::Symbol => SYMBOL_CONTEXT_TOKEN_CAP,
            ContextExcerptKind::Reference => REFERENCE_CONTEXT_TOKEN_CAP,
            ContextExcerptKind::Text => TEXT_CONTEXT_TOKEN_CAP,
            ContextExcerptKind::ImportSymbol => IMPORT_SYMBOL_CONTEXT_TOKEN_CAP,
        }
    }
}

/// The tokens that one excerpt may take of a request.
pub open spec fn excerpt_tokens(request_budget: usize, kind: ContextExcerptKind) -> usize {
    if request_budget < kind.cap() {
        request_budget
    } else {
        kind.cap()
    }
}

/// The tokens that one excerpt may take of a request.
pub fn excerpt_budget(request_budget: usize, kind: ContextExcerptKind) -> (r: usize)
    ensures
        r == excerpt_tokens(request_budget, kind),
{
    let cap: usize = kind.token_cap();
    if request_budget < cap {
        request_budget
    } else {
        cap
    }
}

/// Whether a word names a language. The language Go is not every `go`.
pub open spec fn names_language(word: Seq<char>, language: Seq<char>) -> bool {
    if language == "go"@ {
        word == "Go"@ || lowered(word) == lowered("golang"@)
    } else {
        lowered(word) == lowered(language)
    }
}

/// Whether a task names a language.
pub open spec fn mentions_language(task: Seq<char>, language: Seq<char>) -> bool {
    exists|i: int|
        0 <= i < plain_words(task).len() && names_language(
            #[trigger] plain_words(task)[i],
            language,
        )
}

/// Whether a task names a language.
pub fn task_mentions_language(task: &str, language: &str) -> (r: bool)
    ensures
        r == mentions_language(task@, language@),
{
    let words = plain_words_of(task);
    let ghost all = plain_words(task@);
    let go = same_text(language, "go");
    let mut i: usize = 0;
    while i < words.len()
        invariant
            i <= words.len(),
            all == texts(words@),
            all == plain_words(task@),
            go == (language@ == "go"@),
            forall|k: int| 0 <= k < i ==> !names_language(#[trigger] all[k], language@),
        decreases words.len() - i,
    {
        assert(all[i as int] == words@[i as int]@);
        let word = words[i].as_str();
        let named = if go {
            same_text(word, "Go") || same_folded(word, "golang")
        } else {
            same_folded(word, language)
        };
        if named {
            assert(names_language(plain_words(task@)[i as int], language@));
            return true;
        }
        i += 1;
    }
    false
}

/// The words that a request speaks of: its terms and those of its task.
pub open spec fn spoken(terms: Seq<Seq<char>>, task: Seq<char>) -> Seq<Seq<char>> {
    lowered_all(terms) + lowered_all(code_words(task))
}

/// Whether words ask for where tools are registered and described.
pub open spec fn registration_intent(words: Seq<Seq<char>>) -> bool {
    ||| words.contains("mcp"@)
    ||| {
        &&& {
            ||| words.contains("tool"@)
            ||| words.contains("tools"@)
            ||| words.contains("catalog"@)
            ||| words.contains("schema"@)
            ||| words.contains("schemas"@)
        }
        &&& {
            ||| words.contains("registration"@)
            ||| words.contains("registered"@)
            ||| words.contains("register"@)
            ||| words.contains("server"@)
        }
    }
}

/// Whether a request asks for where tools are registered and described.
pub fn mcp_repository_intent(terms: &Vec<String>, task: &str) -> (r: bool)
    ensures
        r == registration_intent(spoken(texts(terms@), task@)),
{
    let mut all = lower_all(terms);
    let ghost first = texts(all@);
    let mut more = lower_all(&code_words_of(task));
    let ghost second = texts(more@);
    all.append(&mut more);
    assert(texts(all@) =~= first + second);
    if crate::text::list_has(&all, "mcp") {
        return true;
    }
    let surface = crate::text::list_has(&all, "tool") || crate::text::list_has(&all, "tools")
        || crate::text::list_has(&all, "catalog") || crate::text::list_has(&all, "schema")
        || crate::text::list_has(&all, "schemas");
    let registration = crate::text::list_has(&all, "registration") || crate::text::list_has(
        &all,
        "registered",
    ) || crate::text::list_has(&all, "register") || crate::text::list_has(&all, "server");
    surface && registration
}

/// Whether a directory is one that holds a project's parts side by side.
pub open spec fn container(name: Seq<char>) -> bool {
    ||| name == "src"@
    ||| name == "lib"@
    ||| name == "app"@
    ||| name == "apps"@
    ||| name == "crates"@
    ||| name == "packages"@
}

/// The parts of a path between slashes.
pub open spec fn path_parts(path: Seq<char>) -> Seq<Seq<char>> {
    nonempty(pieces(path, only('/')))
}

/// The group that a path belongs to: its first directory, or its first two
/// where the first only holds parts side by side.
pub open spec fn path_group(path: Seq<char>) -> Seq<char> {
    let parts = path_parts(path);
    if parts.len() < 2 {
        "<root>"@
    } else if container(parts[0]) {
        parts[0] + "/"@ + parts[1]
    } else {
        parts[0]
    }
}

/// The group that a path belongs to.
pub fn context_path_group(path: &str) -> (r: String)
    ensures
        r@ == path_group(path@),
{
    let parts = drop_empty(split_on(path, '/'));
    let ghost all = path_parts(path@);
    assert(all == texts(parts@));
    if parts.len() < 2 {
        return copy_text("<root>");
    }
    let first = parts[0].as_str();
    assert(all[0] == first@);
    assert(all[1] == parts@[1]@);
    if same_text(first, "src") || same_text(first, "lib") || same_text(first, "app") || same_text(
        first,
        "apps",
    ) || same_text(first, "crates") || same_text(first, "packages") {
        appended(appended(copy_text(first), "/"), parts[1].as_str())
    } else {
        copy_text(first)
    }
}

/// The groups of a list of paths.
pub open spec fn groups_of(paths: Seq<Seq<char>>) -> Seq<Seq<char>> {
    Seq::new(paths.len(), |i: int| path_group(paths[i]))
}

/// Whether a path belongs to a group.
pub open spec fn in_group(prefix: Seq<char>) -> spec_fn(Seq<char>) -> bool {
    |path: Seq<char>| path_group(path) == prefix
}

/// The groups of a change, each with the number of its paths.
pub open spec fn sized_groups(paths: Seq<Seq<char>>) -> Seq<GroupView> {
    let prefixes = sorted_unique(groups_of(paths));
    Seq::new(
        prefixes.len(),
        |i: int|
            GroupView {
                prefix: prefixes[i],
                changed_paths: tally(paths, in_group(prefixes[i])) as usize,
            },
    )
}

/// More paths first, then by name.
pub open spec fn by_group_size() -> spec_fn(GroupView, GroupView) -> bool {
    |a: GroupView, b: GroupView|
        a.changed_paths > b.changed_paths || (a.changed_paths == b.changed_paths && text_lt(
            a.prefix,
            b.prefix,
        ))
}

/// The groups of a change, the largest first.
pub open spec fn ranked_groups(paths: Seq<Seq<char>>) -> Seq<GroupView> {
    sorted_by(sized_groups(paths), by_group_size())
}

/// The most paths of a list that any of its first `upto` paths shares a group
/// with.
pub open spec fn largest_group(paths: Seq<Seq<char>>, upto: int) -> nat
    decreases upto,
{
    if upto <= 0 || upto > paths.len() {
        0
    } else {
        let before = largest_group(paths, upto - 1);
        let here = tally(paths, in_group(path_group(paths[upto - 1])));
        if here > before {
            here
        } else {
            before
        }
    }
}

/// Whether no group holds more than half of the selected paths.
pub open spec fn weakly_concentrated(selected: Seq<Seq<char>>) -> bool {
    let paths = sorted_unique(selected);
    paths.len() > 1 && 2 * largest_group(paths, paths.len() as int) <= paths.len()
}

/// The pattern that a group is asked for with.
pub open spec fn group_pattern(prefix: Seq<char>) -> Seq<char> {
    if prefix == "<root>"@ {
        "*"@
    } else {
        prefix + "/**"@
    }
}

/// The requests that the first groups suggest.
pub open spec fn suggested(groups: Seq<GroupView>) -> Seq<Seq<Seq<char>>> {
    let first = first_of(groups, MAX_ROUTING_SUGGESTIONS as int);
    Seq::new(first.len(), |i: int| seq![group_pattern(first[i].prefix)])
}

/// Whether a change is wide enough to be split.
pub open spec fn oversized(paths: Seq<Seq<char>>) -> bool {
    paths.len() >= OVERSIZED_CHANGE_PATHS && ranked_groups(paths).len()
        >= MIN_OVERSIZED_PATH_GROUPS
}

/// Whether `routing` says how a wide change can be split.
pub open spec fn routes(
    request: ContextRequest,
    scope: DiffScopeReceipt,
    candidate_paths: usize,
    selected_paths: Seq<Seq<char>>,
    routing: ContextRoutingReceipt,
) -> bool {
    let groups = ranked_groups(texts(scope.changed_paths@));
    &&& routing.candidate_paths == candidate_paths
    &&& routing.changed_paths == scope.changed_paths@.len()
    &&& routing.selected_paths == sorted_unique(selected_paths).len()
    &&& routing.weakly_concentrated == weakly_concentrated(selected_paths)
    &&& routing.consistency is IndexedGeneration
    &&& routing.base_revision == request.base_revision
    &&& routing.known_hashes@ == request.known_hashes@
    &&& routing.path_groups_total == groups.len()
    &&& views(routing.path_groups@) == first_of(groups, MAX_ROUTING_GROUPS as int)
    &&& views(routing.suggestions@) == suggested(groups)
}

/// A routing lists a bounded number of groups, all of which it counts, and
/// suggests a bounded number of narrower requests, one for each of the first.
pub proof fn routing_is_bounded(
    request: ContextRequest,
    scope: DiffScopeReceipt,
    candidate_paths: usize,
    selected_paths: Seq<Seq<char>>,
    routing: ContextRoutingReceipt,
)
    requires
        routes(request, scope, candidate_paths, selected_paths, routing),
    ensures
        routing.path_groups@.len() <= MAX_ROUTING_GROUPS,
        routing.path_groups@.len() <= routing.path_groups_total,
        routing.suggestions@.len() <= MAX_ROUTING_SUGGESTIONS,
        routing.suggestions@.len() <= routing.path_groups@.len(),
{
    assert(views(routing.path_groups@).len() == routing.path_groups@.len());
    assert(views(routing.suggestions@).len() == routing.suggestions@.len());
}

fn group_all(paths: &Vec<String>) -> (r: Vec<String>)
    ensures
        texts(r@) == groups_of(texts(paths@)),
{
    let mut out: Vec<String> = Vec::new();
    let mut i: usize = 0;
    while i < paths.len()
        invariant
            i <= paths.len(),
            texts(out@) == groups_of(texts(paths@)).take(i as int),
        decreases paths.len() - i,
    {
        let ghost before = texts(out@);
        out.push(context_path_group(paths[i].as_str()));
        assert(texts(out@) =~= before.push(path_group(paths@[i as int]@)));
        assert(texts(out@) =~= groups_of(texts(paths@)).take(i + 1));
        i += 1;
    }
    assert(texts(out@) =~= groups_of(texts(paths@)));
    out
}

fn count_group(paths: &Vec<String>, groups: &Vec<String>, prefix: &str) -> (r: usize)
    requires
        texts(groups@) == groups_of(texts(paths@)),
    ensures
        r == tally(texts(paths@), in_group(prefix@)),
        r <= paths@.len(),
{
    let ghost all = texts(paths@);
    let mut count: usize = 0;
    let mut i: usize = 0;
    assert(groups@.len() == texts(groups@).len());
    while i < paths.len()
        invariant
            i <= paths.len(),
            count <= i,
            all == texts(paths@),
            groups@.len() == paths@.len(),
            texts(groups@) == groups_of(all),
            count == tally(all.take(i as int), in_group(prefix@)),
        decreases paths.len() - i,
    {
        proof {
            tally_push(all, in_group(prefix@), i as int);
            assert(texts(groups@)[i as int] == path_group(all[i as int]));
        }
        if same_text(groups[i].as_str(), prefix) {
            count += 1;
        }
        i += 1;
    }
    assert(all.take(all.len() as int) =~= all);
    count
}

fn group_precedes(a: &ContextPathGroup, b: &ContextPathGroup) -> (r: bool)
    ensures
        r == by_group_size()(a@, b@),
{
    a.changed_paths > b.changed_paths || (a.changed_paths == b.changed_paths && text_before(
        a.prefix.as_str(),
        b.prefix.as_str(),
    ) && !same_text(a.prefix.as_str(), b.prefix.as_str()))
}

fn rank_groups(paths: &Vec<String>) -> (r: Vec<ContextPathGroup>)
    ensures
        views(r@) == ranked_groups(texts(paths@)),
{
    let ghost all = texts(paths@);
    let groups = group_all(paths);
    let prefixes = sort_unique_texts(copy_texts(&groups));
    let mut sized: Vec<ContextPathGroup> = Vec::new();
    let mut i: usize = 0;
    while i < prefixes.len()
        invariant
            i <= prefixes.len(),
            all == texts(paths@),
            texts(groups@) == groups_of(all),
            texts(prefixes@) == sorted_unique(groups_of(all)),
            views(sized@) == sized_groups(all).take(i as int),
        decreases prefixes.len() - i,
    {
        let ghost before = views(sized@);
        assert(texts(prefixes@)[i as int] == prefixes@[i as int]@);
        let group = ContextPathGroup {
            prefix: prefixes[i].clone(),
            changed_paths: count_group(paths, &groups, prefixes[i].as_str()),
        };
        let ghost added = group@;
        sized.push(group);
        assert(views(sized@) =~= before.push(added));
        assert(views(sized@) =~= sized_groups(all).take(i + 1));
        i += 1;
    }
    assert(views(sized@) =~= sized_groups(all));
    sort_by(sized, group_precedes, Ghost(by_group_size()))
}

fn strongest_group(paths: &Vec<String>) -> (r: usize)
    ensures
        r == largest_group(texts(paths@), paths@.len() as int),
{
    let ghost all = texts(paths@);
    let groups = group_all(paths);
    let mut best: usize = 0;
    let mut i: usize = 0;
    assert(groups@.len() == texts(groups@).len());
    while i < paths.len()
        invariant
            i <= paths.len(),
            all == texts(paths@),
            texts(groups@) == groups_of(all),
            groups@.len() == paths@.len(),
            best == largest_group(all, i as int),
        decreases paths.len() - i,
    {
        assert(texts(groups@)[i as int] == path_group(all[i as int]));
        let here: usize = count_group(paths, &groups, groups[i].as_str());
        if here > best {
            best = here;
        }
        i += 1;
    }
    best
}

fn suggest(groups: &Vec<ContextPathGroup>) -> (r: Vec<ContextRoutingSuggestion>)
    ensures
        views(r@) == suggested(views(groups@)),
{
    let ghost all = suggested(views(groups@));
    let mut out: Vec<ContextRoutingSuggestion> = Vec::new();
    let mut i: usize = 0;
    while i < groups.len() && i < MAX_ROUTING_SUGGESTIONS
        invariant
            i <= groups.len(),
            i <= MAX_ROUTING_SUGGESTIONS,
            all == suggested(views(groups@)),
            views(out@) == all.take(i as int),
        decreases groups.len() - i,
    {
        let ghost before = views(out@);
        let pattern = if same_text(groups[i].prefix.as_str(), "<root>") {
            copy_text("*")
        } else {
            appended(groups[i].prefix.clone(), "/**")
        };
        let ghost text = pattern@;
        let mut include_paths: Vec<String> = Vec::new();
        include_paths.push(pattern);
        assert(texts(include_paths@) =~= seq![text]);
        let suggestion = ContextRoutingSuggestion { include_paths };
        let ghost added = suggestion@;
        out.push(suggestion);
        assert(views(out@) =~= before.push(added));
        assert(views(out@) =~= all.take(i + 1));
        i += 1;
    }
    assert(views(out@) =~= all);
    out
}

/// Says how a wide change can be split, where it is wide.
pub fn build_context_routing(
    request: &ContextRequest,
    scope: &DiffScopeReceipt,
    candidate_paths: usize,
    selected_paths: &Vec<String>,
) -> (r: Option<ContextRoutingReceipt>)
    ensures
        r is Some <==> oversized(texts(scope.changed_paths@)),
        r matches Some(routing) ==> routes(
            *request,
            *scope,
            candidate_paths,
            texts(selected_paths@),
            routing,
        ),
{
    if scope.changed_paths.len() < OVERSIZED_CHANGE_PATHS {
        return None;
    }
    let mut groups = rank_groups(&scope.changed_paths);
    let ghost ranked = views(groups@);
    assert(ranked.len() == groups@.len());
    if groups.len() < MIN_OVERSIZED_PATH_GROUPS {
        return None;
    }
    let path_groups_total: usize = groups.len();
    let distinct_paths = sort_unique_texts(copy_texts(selected_paths));
    let selected: usize = distinct_paths.len();
    assert(texts(distinct_paths@).len() == selected);
    let strongest: usize = strongest_group(&distinct_paths);
    let weak = selected > 1 && strongest <= selected / 2;
    let suggestions = suggest(&groups);
    groups.truncate(MAX_ROUTING_GROUPS);
    assert(views(groups@) =~= first_of(ranked, MAX_ROUTING_GROUPS as int));
    Some(
        ContextRoutingReceipt {
            candidate_paths,
            changed_paths: scope.changed_paths.len(),
            selected_paths: selected,
            weakly_concentrated: weak,
            consistency: IndexConsistency::IndexedGeneration,
            base_revision: copy_optional_text(&request.base_revision),
            known_hashes: copy_texts(&request.known_hashes),
            path_groups_total,
            path_groups: groups,
            suggestions,
        },
    )
}

/// Whether a task speaks of a contribution.
pub open spec fn contribution_task(task: Seq<char>) -> bool {
    ||| occurs(task, "pull request"@)
    ||| occurs(task, "contribution"@)
    ||| occurs(task, "contributing"@)
}

/// Whether a task speaks of a review.
pub open spec fn review_task(task: Seq<char>) -> bool {
    ||| occurs(task, "code review"@)
    ||| occurs(task, "review this"@)
    ||| occurs(task, "review the changes"@)
}

/// Whether a task speaks of an investigation.
pub open spec fn investigation_task(task: Seq<char>) -> bool {
    ||| occurs(task, "investigate"@)
    ||| occurs(task, "root cause"@)
    ||| occurs(task, "diagnose"@)
}

/// The workflow that a request asks for, or that its task speaks of.
pub open spec fn resolved_workflow(requested: ContextWorkflow, task: Seq<char>) -> ContextWorkflow {
    let low = lowered(task);
    if !(requested is Auto) {
        requested
    } else if contribution_task(low) {
        ContextWorkflow::Contribution
    } else if review_task(low) {
        ContextWorkflow::Review
    } else if investigation_task(low) {
        ContextWorkflow::Investigation
    } else {
        ContextWorkflow::Implementation
    }
}

/// The workflow that a request asks for, or that its task speaks of.
pub fn resolve_context_workflow(requested: ContextWorkflow, task: &str) -> (r: ContextWorkflow)
    ensures
        r == resolved_workflow(requested, task@),
        !(r is Auto),
{
    if requested != ContextWorkflow::Auto {
        return requested;
    }
    let low = lower_text(task);
    let task = low.as_str();
    if contains_text(task, "pull request") || contains_text(task, "contribution") || contains_text(
        task,
        "contributing",
    ) {
        ContextWorkflow::Contribution
    } else if contains_text(task, "code review") || contains_text(task, "review this")
        || contains_text(task, "review the changes") {
        ContextWorkflow::Review
    } else if contains_text(task, "investigate") || contains_text(task, "root cause")
        || contains_text(task, "diagnose") {
        ContextWorkflow::Investigation
    } else {
        ContextWorkflow::Implementation
    }
}

/// A pattern of paths that guide a workflow, its weight in hundredths and its
/// family.
#[derive(Debug)]
pub struct WorkflowPathRule {
    pub pattern: &'static str,
    pub weight: u32,
    pub family: &'static str,
}

/// What a [`WorkflowPathRule`] says.
pub struct RuleView {
    pub pattern: Seq<char>,
    pub weight: u32,
    pub family: Seq<char>,
}

impl View for WorkflowPathRule {
    type V = RuleView;

    open spec fn view(&self) -> RuleView {
        RuleView { pattern: self.pattern@, weight: self.weight, family: self.family@ }
    }
}

/// A rule.
pub open spec fn rule(pattern: Seq<char>, weight: u32, family: Seq<char>) -> RuleView {
    RuleView { pattern, weight, family }
}

/// The patterns of paths that guide a workflow.
pub open spec fn workflow_rules() -> Seq<RuleView> {
    seq![
        rule("AGENTS.md"@, 500, "guidance"@),
        rule("**/AGENTS.md"@, 500, "guidance"@),
        rule("CONTRIBUTING*"@, 500, "guidance"@),
        rule("**/CONTRIBUTING*"@, 500, "guidance"@),
        rule(".github/PULL_REQUEST_TEMPLATE*"@, 500, "guidance"@),
        rule(".github/PULL_REQUEST_TEMPLATE/**"@, 500, "guidance"@),
        rule(".github/ISSUE_TEMPLATE/**"@, 450, "template"@),
        rule("docs/development*"@, 425, "guidance"@),
        rule("docs/contributing*"@, 425, "guidance"@),
        rule("docs/testing*"@, 425, "guidance"@),
        rule(".github/workflows/**"@, 300, "validation"@),
        rule("Cargo.toml"@, 300, "validation"@),
        rule("Makefile"@, 300, "validation"@),
        rule("justfile"@, 300, "validation"@),
        rule("{package.json,pyproject.toml,go.mod}"@, 300, "validation"@),
    ]
}

fn make_rule(pattern: &'static str, weight: u32, family: &'static str) -> (r: WorkflowPathRule)
    ensures
        r@ == rule(pattern@, weight, family@),
{
    WorkflowPathRule { pattern, weight, family }
}

/// The patterns of paths that guide a workflow.
pub fn workflow_path_roles() -> (r: Vec<WorkflowPathRule>)
    ensures
        views(r@) == workflow_rules(),
{
    let rules: Vec<WorkflowPathRule> = vec![
        make_rule("AGENTS.md", 500, "guidance"),
        make_rule("**/AGENTS.md", 500, "guidance"),
        make_rule("CONTRIBUTING*", 500, "guidance"),
        make_rule("**/CONTRIBUTING*", 500, "guidance"),
        make_rule(".github/PULL_REQUEST_TEMPLATE*", 500, "guidance"),
        make_rule(".github/PULL_REQUEST_TEMPLATE/**", 500, "guidance"),
        make_rule(".github/ISSUE_TEMPLATE/**", 450, "template"),
        make_rule("docs/development*", 425, "guidance"),
        make_rule("docs/contributing*", 425, "guidance"),
        make_rule("docs/testing*", 425, "guidance"),
        make_rule(".github/workflows/**", 300, "validation"),
        make_rule("Cargo.toml", 300, "validation"),
        make_rule("Makefile", 300, "validation"),
        make_rule("justfile", 300, "validation"),
        make_rule("{package.json,pyproject.toml,go.mod}", 300, "validation"),
    ];
    assert(views(rules@) =~= workflow_rules());
    rules
}

/// Whether a glob matches a path in any case, its stars within one part.
pub uninterp spec fn folded_glob_match(pattern: Seq<char>, path: Seq<char>) -> bool;

/// `GlobMatcher::is_match` of a glob that `GlobBuilder` builds without regard to
/// case and with literal separators tells whether the glob matches a path; a
/// text that is no glob matches none. It goes by the two texts alone where
/// neither holds a backslash, which some systems take for a separator and
/// others for an escape. A glob whose compiled form is too large, or whose
/// groups are nested too deep, makes `compile_matcher` panic.
#[verifier::external_body]
fn match_folded_glob(pattern: &str, path: &str) -> (r: bool)
    requires
        plain_glob(pattern@),
    ensures
        !has_backslash(pattern@) && !has_backslash(path@) ==> r == folded_glob_match(
            pattern@,
            path@,
        ),
{
    match GlobBuilder::new(pattern).case_insensitive(true).literal_separator(true).build() {
        Ok(glob) => glob.compile_matcher().is_match(path),
        Err(_) => false,
    }
}

/// The weight and family of the heaviest of the first `upto` rules that match a
/// path, the last of the heaviest.
pub open spec fn heaviest_rule(rules: Seq<RuleView>, path: Seq<char>, upto: int) -> Option<
    (u32, Seq<char>),
>
    decreases upto,
{
    if upto <= 0 || upto > rules.len() {
        None
    } else {
        let before = heaviest_rule(rules, path, upto - 1);
        let here = rules[upto - 1];
        if folded_glob_match(here.pattern, path) && (before is None || here.weight
            >= (before->0).0) {
            Some((here.weight, here.family))
        } else {
            before
        }
    }
}

/// The weight and family of a path that guides a workflow.
pub open spec fn path_role(path: Seq<char>, owners: Seq<Seq<char>>) -> Option<(u32, Seq<char>)> {
    let best = heaviest_rule(workflow_rules(), slashed(path), workflow_rules().len() as int);
    if owner_path(path, owners) is Some && (best is None || (best->0).0 < OWNER_TEST_SCORE) {
        Some((OWNER_TEST_SCORE, "owner_test"@))
    } else {
        best
    }
}

/// What an optional role says.
pub open spec fn optional_role(value: Option<(u32, &'static str)>) -> Option<(u32, Seq<char>)> {
    match value {
        Some(role) => Some((role.0, role.1@)),
        None => None,
    }
}

/// The paths that a test may own: the changed ones, then the focused ones.
pub open spec fn owned_paths(request: ContextRequest) -> Seq<Seq<char>> {
    texts(request.changed_paths@) + texts(request.focus_paths@)
}

proof fn lemma_slashed(s: Seq<char>)
    ensures
        !has_backslash(slashed(s)),
        slashed(slashed(s)) == slashed(s),
{
    assert forall|i: int| 0 <= i < slashed(s).len() implies #[trigger] slashed(s)[i] != '\\' by {}
    assert(slashed(slashed(s)) =~= slashed(s));
}

/// The weight and family of a path that guides a workflow, or that tests what
/// a request changes.
#[verifier::rlimit(40)]
pub fn workflow_path_role(path: &str, request: &ContextRequest) -> (r: Option<(u32, &'static str)>)
    ensures
        optional_role(r) == path_role(path@, owned_paths(*request)),
{
    let normalized = slash_text(path);
    let rules = workflow_path_roles();
    let ghost all = workflow_rules();
    let mut best: Option<(u32, &'static str)> = None;
    let mut i: usize = 0;
    proof {
        lemma_slashed(path@);
        lemma_rule_patterns();
        assert(all == views(rules@));
    }
    while i < rules.len()
        invariant
            i <= rules.len(),
            all == workflow_rules(),
            all == views(rules@),
            normalized@ == slashed(path@),
            !has_backslash(normalized@),
            forall|k: int|
                0 <= k < all.len() ==> !has_backslash((#[trigger] all[k]).pattern) && plain_glob(
                    all[k].pattern,
                ),
            optional_role(best) == heaviest_rule(all, normalized@, i as int),
        decreases rules.len() - i,
    {
        assert(all[i as int] == rules@[i as int]@);
        if match_folded_glob(rules[i].pattern, normalized.as_str()) {
            let heavier = match best {
                Some((weight, _)) => rules[i].weight >= weight,
                None => true,
            };
            if heavier {
                best = Some((rules[i].weight, rules[i].family));
            }
        }
        i += 1;
    }
    assert(all.len() == rules@.len());
    let owned = likely_owner_test(path, request);
    let lighter = match best {
        Some((weight, _)) => weight < OWNER_TEST_SCORE,
        None => true,
    };
    if owned && lighter {
        best = Some((OWNER_TEST_SCORE, "owner_test"));
    }
    best
}

proof fn lemma_rule_patterns()
    ensures
        forall|k: int|
            0 <= k < workflow_rules().len() ==> !has_backslash(
                (#[trigger] workflow_rules()[k]).pattern,
            ) && plain_glob(workflow_rules()[k].pattern),
{
    reveal_strlit("AGENTS.md");
    reveal_strlit("**/AGENTS.md");
    reveal_strlit("CONTRIBUTING*");
    reveal_strlit("**/CONTRIBUTING*");
    reveal_strlit(".github/PULL_REQUEST_TEMPLATE*");
    reveal_strlit(".github/PULL_REQUEST_TEMPLATE/**");
    reveal_strlit(".github/ISSUE_TEMPLATE/**");
    reveal_strlit("docs/development*");
    reveal_strlit("docs/contributing*");
    reveal_strlit("docs/testing*");
    reveal_strlit(".github/workflows/**");
    reveal_strlit("Cargo.toml");
    reveal_strlit("Makefile");
    reveal_strlit("justfile");
    reveal_strlit("{package.json,pyproject.toml,go.mod}");
    assert forall|k: int| 0 <= k < workflow_rules().len() implies !has_backslash(
        (#[trigger] workflow_rules()[k]).pattern,
    ) && plain_glob(workflow_rules()[k].pattern) by {
        groups_are_few(workflow_rules()[k].pattern);
    }
}

/// Whether a path names tests.
pub open spec fn tests_something(path: Seq<char>) -> bool {
    ||| occurs(path, "/test"@)
    ||| begins(path, "test"@)
    ||| occurs(path, "/spec"@)
    ||| begins(path, "spec"@)
}

/// Whether a character, where there is one, ends a token.
pub open spec fn token_edge(s: Seq<char>, at: int) -> bool {
    0 <= at < s.len() ==> !unicode_alphanumeric(s[at])
}

/// Whether a token stands at an occurrence with nothing of a word beside it.
/// Occurrences are looked for one behind another, from `from` on.
pub open spec fn has_token(s: Seq<char>, token: Seq<char>, from: int) -> bool
    decreases s.len() - from + 1,
{
    if from < 0 || from > s.len() {
        false
    } else {
        match first_at(s, token, from) {
            None => false,
            Some(at) => {
                let end = at + token.len();
                if at < from || end > s.len() {
                    false
                } else if token_edge(s, at - 1) && token_edge(s, end) {
                    true
                } else {
                    has_token(
                        s,
                        token,
                        if token.len() == 0 {
                            at + 1
                        } else {
                            end
                        },
                    )
                }
            },
        }
    }
}

/// Whether a name holds a token with nothing of a word beside it.
pub fn contains_filename_token(path: &str, token: &str) -> (r: bool)
    ensures
        r == has_token(path@, token@, 0),
{
    let chars = chars_of(path);
    let needle = chars_of(token);
    let mut from: usize = 0;
    loop
        invariant
            from <= chars.len(),
            chars@ == path@,
            needle@ == token@,
            has_token(path@, token@, 0) == has_token(path@, token@, from as int),
        decreases chars.len() - from + 1,
    {
        let at: usize = match find_from(&chars, &needle, from) {
            Some(at) => at,
            None => {
                return false;
            },
        };
        proof {
            first_at_bounds(path@, token@, from as int);
        }
        let end: usize = at + needle.len();
        let left = at == 0 || !chars[at - 1].is_alphanumeric();
        let right = end == chars.len() || !chars[end].is_alphanumeric();
        if left && right {
            return true;
        }
        if needle.len() == 0 {
            if at == chars.len() {
                assert(!has_token(path@, token@, at + 1));
                return false;
            }
            from = at + 1;
        } else {
            from = end;
        }
    }
}

/// The name of a path without directories and endings, in small letters.
pub open spec fn path_stem(path: Seq<char>) -> Seq<char> {
    lowered(stem(file_name(slashed(path))))
}

/// The name of a test's path without directories and endings.
pub open spec fn test_stem(path: Seq<char>) -> Seq<char> {
    stem(file_name(lowered(slashed(path))))
}

/// Whether a test of a given name tests a path.
pub open spec fn tested_by(name: Seq<char>) -> spec_fn(Seq<char>) -> bool {
    |changed: Seq<char>|
        byte_len(path_stem(changed)) >= 3 && has_token(name, path_stem(changed), 0)
}

/// The first of some paths that a test's path names.
pub open spec fn owner_path(path: Seq<char>, owners: Seq<Seq<char>>) -> Option<Seq<char>> {
    let first = first_where(owners, tested_by(test_stem(path)));
    if tests_something(lowered(slashed(path))) && first < owners.len() {
        Some(owners[first])
    } else {
        None
    }
}

/// Whether a path names tests of what a request changes.
pub fn likely_owner_test(path: &str, request: &ContextRequest) -> (r: bool)
    ensures
        r == (owner_path(path@, owned_paths(*request)) is Some),
{
    owner_test_changed_path(path, request).is_some()
}

fn tested(name: &str, changed: &str) -> (r: bool)
    ensures
        r == tested_by(name@)(changed@),
{
    let normalized = slash_text(changed);
    let file = name_of(normalized.as_str());
    let found = lower_text(stem_of(file.as_str()).as_str());
    byte_size(found.as_str()) >= 3 && contains_filename_token(name, found.as_str())
}

/// The path that a test tests of what a request changes.
pub fn owner_test_changed_path(path: &str, request: &ContextRequest) -> (r: Option<String>)
    ensures
        optional_text(r) == owner_path(path@, owned_paths(*request)),
{
    let normalized = lower_text(slash_text(path).as_str());
    let ghost all = owned_paths(*request);
    let is_test = contains_text(normalized.as_str(), "/test") || starts_text(
        normalized.as_str(),
        "test",
    ) || contains_text(normalized.as_str(), "/spec") || starts_text(normalized.as_str(), "spec");
    if !is_test {
        return None;
    }
    let file = name_of(normalized.as_str());
    let name = stem_of(file.as_str());
    let ghost p = tested_by(test_stem(path@));
    let mut i: usize = 0;
    while i < request.changed_paths.len()
        invariant
            i <= request.changed_paths.len(),
            all == owned_paths(*request),
            name@ == test_stem(path@),
            p == tested_by(name@),
            tests_something(lowered(slashed(path@))),
            forall|k: int| 0 <= k < i ==> !p(#[trigger] all[k]),
        decreases request.changed_paths.len() - i,
    {
        assert(all[i as int] == request.changed_paths@[i as int]@);
        if tested(name.as_str(), request.changed_paths[i].as_str()) {
            proof {
                first_where_is(all, p, i as int);
            }
            return Some(request.changed_paths[i].clone());
        }
        i += 1;
    }
    let first: usize = request.changed_paths.len();
    let mut j: usize = 0;
    while j < request.focus_paths.len()
        invariant
            j <= request.focus_paths.len(),
            first == request.changed_paths.len(),
            all == owned_paths(*request),
            name@ == test_stem(path@),
            p == tested_by(name@),
            tests_something(lowered(slashed(path@))),
            forall|k: int| 0 <= k < first + j ==> !p(#[trigger] all[k]),
        decreases request.focus_paths.len() - j,
    {
        assert(all[first + j] == request.focus_paths@[j as int]@);
        if tested(name.as_str(), request.focus_paths[j].as_str()) {
            proof {
                first_where_is(all, p, first + j);
            }
            return Some(request.focus_paths[j].clone());
        }
        j += 1;
    }
    proof {
        first_where_is(all, p, all.len() as int);
    }
    None
}

} // verus!
