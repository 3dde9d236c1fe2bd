//! Aggregate parser coverage of an index.

use crate::ordered::{insert_by, sort_by, sorted_by, text_lt, views};
use crate::text::{
    appended, ascii_alphanumeric, byte_len, chars_of, copy_text, lower_text, lowered, only, pieces,
    same_text, split_on, texts,
};
use crate::validation::byte_size;
use vstd::prelude::*;

verus! {

/// The most languages or extensions that a summary lists.
pub const MAX_PARSER_COVERAGE_GROUPS: usize = 20;

/// The longest extension that a summary names.
pub const MAX_SAFE_EXTENSION_BYTES: usize = 16;

/// Files and the bytes of their source.
#[derive(Debug, Clone, Copy, PartialEq, Eq, Structural)]
pub struct ParserCoverageCount {
    pub files: u64,
    pub source_bytes: u64,
}

/// The files of one language that were, or were not, parsed completely.
#[derive(Debug)]
pub struct LanguageRow {
    pub language: String,
    pub structurally_complete: bool,
    pub files: u64,
    pub source_bytes: u64,
}

/// The files with one extension that no parser recognizes.
#[derive(Debug)]
pub struct ExtensionRow {
    pub extension: String,
    pub files: u64,
    pub source_bytes: u64,
}

/// The rows that a summary is made of.
#[derive(Debug)]
pub struct ParserCoverageRows {
    pub languages: Vec<LanguageRow>,
    pub unrecognized_extensions: Vec<ExtensionRow>,
}

/// The coverage of one language.
#[derive(Debug)]
pub struct ParserLanguageCoverage {
    pub language: String,
    pub total: ParserCoverageCount,
    pub complete: ParserCoverageCount,
    pub incomplete: ParserCoverageCount,
}

/// The files with one extension.
#[derive(Debug)]
pub struct ParserExtensionCoverage {
    pub extension: String,
    pub total: ParserCoverageCount,
}

/// The coverage of a whole index.
#[derive(Debug)]
pub struct ParserCoverageSummary {
    pub indexed: ParserCoverageCount,
    pub recognized: ParserCoverageCount,
    pub complete: ParserCoverageCount,
    pub incomplete: ParserCoverageCount,
    pub unrecognized: ParserCoverageCount,
    pub languages: Vec<ParserLanguageCoverage>,
    pub other_languages: ParserCoverageCount,
    pub unrecognized_extensions: Vec<ParserExtensionCoverage>,
    pub other_unrecognized_extensions: ParserCoverageCount,
}

/// What a language coverage says.
pub struct LanguageView {
    pub language: Seq<char>,
    pub total: ParserCoverageCount,
    pub complete: ParserCoverageCount,
    pub incomplete: ParserCoverageCount,
}

/// What an extension coverage says.
pub struct ExtensionView {
    pub extension: Seq<char>,
    pub total: ParserCoverageCount,
}

impl View for ParserLanguageCoverage {
    type V = LanguageView;

    open spec fn view(&self) -> LanguageView {
        LanguageView {
            language: self.language@,
            total: self.total,
            complete: self.complete,
            incomplete: self.incomplete,
        }
    }
}

impl View for ParserExtensionCoverage {
    type V = ExtensionView;

    open spec fn view(&self) -> ExtensionView {
        ExtensionView { extension: self.extension@, total: self.total }
    }
}

/// A sum that stops at the largest number.
pub open spec fn capped_sum(a: u64, b: u64) -> u64 {
    if a + b > u64::MAX {
        u64::MAX
    } else {
        (a + b) as u64
    }
}

/// Two counts together.
pub open spec fn joined(a: ParserCoverageCount, b: ParserCoverageCount) -> ParserCoverageCount {
    ParserCoverageCount {
        files: capped_sum(a.files, b.files),
        source_bytes: capped_sum(a.source_bytes, b.source_bytes),
    }
}

/// No files.
pub open spec fn nothing() -> ParserCoverageCount {
    ParserCoverageCount { files: 0, source_bytes: 0 }
}

/// All counts of a list together, one after another.
pub open spec fn joined_all(list: Seq<ParserCoverageCount>) -> ParserCoverageCount
    decreases list.len(),
{
    if list.len() == 0 {
        nothing()
    } else {
        joined(joined_all(list.drop_last()), list.last())
    }
}

/// The count of a language row.
pub open spec fn row_count(row: LanguageRow) -> ParserCoverageCount {
    ParserCoverageCount { files: row.files, source_bytes: row.source_bytes }
}

/// The counts of the rows that `take` picks.
pub open spec fn counts_where(rows: Seq<LanguageRow>, take: spec_fn(LanguageRow) -> bool) -> Seq<
    ParserCoverageCount,
> {
    rows.filter(take).map_values(|row: LanguageRow| row_count(row))
}

/// A language that no row has spoken of.
pub open spec fn new_language(language: Seq<char>) -> LanguageView {
    LanguageView {
        language,
        total: nothing(),
        complete: nothing(),
        incomplete: nothing(),
    }
}

/// A language with one more row.
pub open spec fn with_row(group: LanguageView, row: LanguageRow) -> LanguageView {
    LanguageView {
        language: group.language,
        total: joined(group.total, row_count(row)),
        complete: if row.structurally_complete {
            joined(group.complete, row_count(row))
        } else {
            group.complete
        },
        incomplete: if row.structurally_complete {
            group.incomplete
        } else {
            joined(group.incomplete, row_count(row))
        },
    }
}

/// Languages in ascending order, with one more row.
pub open spec fn add_row(groups: Seq<LanguageView>, row: LanguageRow) -> Seq<LanguageView>
    decreases groups.len(),
{
    if groups.len() == 0 {
        seq![with_row(new_language(row.language@), row)]
    } else if groups[0].language == row.language@ {
        seq![with_row(groups[0], row)] + groups.subrange(1, groups.len() as int)
    } else if text_lt(row.language@, groups[0].language) {
        seq![with_row(new_language(row.language@), row)] + groups
    } else {
        seq![groups[0]] + add_row(groups.subrange(1, groups.len() as int), row)
    }
}

/// The languages of the rows in ascending order.
pub open spec fn by_language(rows: Seq<LanguageRow>) -> Seq<LanguageView>
    decreases rows.len(),
{
    if rows.len() == 0 {
        Seq::empty()
    } else {
        add_row(by_language(rows.drop_last()), rows.last())
    }
}

/// The count of an extension row.
pub open spec fn extension_count(row: ExtensionRow) -> ParserCoverageCount {
    ParserCoverageCount { files: row.files, source_bytes: row.source_bytes }
}

/// Extensions in ascending order, with one more row.
pub open spec fn add_extension(groups: Seq<ExtensionView>, row: ExtensionRow) -> Seq<ExtensionView>
    decreases groups.len(),
{
    if groups.len() == 0 {
        seq![ExtensionView { extension: row.extension@, total: joined(nothing(), extension_count(row)) }]
    } else if groups[0].extension == row.extension@ {
        seq![
            ExtensionView {
                extension: groups[0].extension,
                total: joined(groups[0].total, extension_count(row)),
            },
        ] + groups.subrange(1, groups.len() as int)
    } else if text_lt(row.extension@, groups[0].extension) {
        seq![
            ExtensionView {
                extension: row.extension@,
                total: joined(nothing(), extension_count(row)),
            },
        ] + groups
    } else {
        seq![groups[0]] + add_extension(groups.subrange(1, groups.len() as int), row)
    }
}

/// The extensions of the rows in ascending order.
pub open spec fn by_extension(rows: Seq<ExtensionRow>) -> Seq<ExtensionView>
    decreases rows.len(),
{
    if rows.len() == 0 {
        Seq::empty()
    } else {
        add_extension(by_extension(rows.drop_last()), rows.last())
    }
}

/// More files first, then by name.
pub open spec fn language_rank() -> spec_fn(LanguageView, LanguageView) -> bool {
    |a: LanguageView, b: LanguageView|
        a.total.files > b.total.files || (a.total.files == b.total.files && text_lt(
            a.language,
            b.language,
        ))
}

/// More files first, then by name.
pub open spec fn extension_rank() -> spec_fn(ExtensionView, ExtensionView) -> bool {
    |a: ExtensionView, b: ExtensionView|
        a.total.files > b.total.files || (a.total.files == b.total.files && text_lt(
            a.extension,
            b.extension,
        ))
}

/// At most as many elements as a summary lists.
pub open spec fn listed<A>(list: Seq<A>) -> Seq<A> {
    if list.len() > MAX_PARSER_COVERAGE_GROUPS {
        list.take(MAX_PARSER_COVERAGE_GROUPS as int)
    } else {
        list
    }
}

/// The elements that a summary does not list.
pub open spec fn unlisted<A>(list: Seq<A>) -> Seq<A> {
    if list.len() > MAX_PARSER_COVERAGE_GROUPS {
        list.subrange(MAX_PARSER_COVERAGE_GROUPS as int, list.len() as int)
    } else {
        Seq::empty()
    }
}

/// The counts of a list of languages.
pub open spec fn language_totals(list: Seq<LanguageView>) -> Seq<ParserCoverageCount> {
    list.map_values(|group: LanguageView| group.total)
}

/// The counts of a list of extensions.
pub open spec fn extension_totals(list: Seq<ExtensionView>) -> Seq<ParserCoverageCount> {
    list.map_values(|group: ExtensionView| group.total)
}

/// Adds one count to another.
pub fn add_coverage_count(total: &mut ParserCoverageCount, value: ParserCoverageCount)
    ensures
        *final(total) == joined(*old(total), value),
{
    total.files = total.files.saturating_add(value.files);
    total.source_bytes = total.source_bytes.saturating_add(value.source_bytes);
}

/// The files of the languages behind the first `retained`.
pub fn sum_language_remainder(languages: &Vec<ParserLanguageCoverage>, retained: usize) -> (r:
    ParserCoverageCount)
    ensures
        r == joined_all(
            language_totals(
                if retained <= languages@.len() {
                    views(languages@).subrange(retained as int, languages@.len() as int)
                } else {
                    Seq::empty()
                },
            ),
        ),
{
    let mut total = ParserCoverageCount { files: 0, source_bytes: 0 };
    let ghost rest = if retained <= languages@.len() {
        views(languages@).subrange(retained as int, languages@.len() as int)
    } else {
        Seq::empty()
    };
    let mut i: usize = retained;
    assert(language_totals(rest).take(0) =~= Seq::<ParserCoverageCount>::empty());
    while i < languages.len()
        invariant
            retained <= i,
            retained <= languages.len() ==> i <= languages.len() && rest == views(
                languages@,
            ).subrange(retained as int, languages@.len() as int),
            retained > languages.len() ==> i == retained && rest == Seq::<LanguageView>::empty(),
            total == joined_all(language_totals(rest).take(i - retained)),
        decreases languages.len() - i,
    {
        add_coverage_count(&mut total, languages[i].total);
        proof {
            let all = language_totals(rest);
            let next = all.take(i - retained + 1);
            assert(next.drop_last() =~= all.take(i - retained));
            assert(next.last() == languages@[i as int].total);
        }
        i += 1;
    }
    assert(language_totals(rest).take(rest.len() as int) =~= language_totals(rest));
    total
}

fn sum_extension_remainder(extensions: &Vec<ParserExtensionCoverage>, retained: usize) -> (r:
    ParserCoverageCount)
    ensures
        r == joined_all(
            extension_totals(
                if retained <= extensions@.len() {
                    views(extensions@).subrange(retained as int, extensions@.len() as int)
                } else {
                    Seq::empty()
                },
            ),
        ),
{
    let mut total = ParserCoverageCount { files: 0, source_bytes: 0 };
    let ghost rest = if retained <= extensions@.len() {
        views(extensions@).subrange(retained as int, extensions@.len() as int)
    } else {
        Seq::empty()
    };
    let mut i: usize = retained;
    assert(extension_totals(rest).take(0) =~= Seq::<ParserCoverageCount>::empty());
    while i < extensions.len()
        invariant
            retained <= i,
            retained <= extensions.len() ==> i <= extensions.len() && rest == views(
                extensions@,
            ).subrange(retained as int, extensions@.len() as int),
            retained > extensions.len() ==> i == retained && rest == Seq::<ExtensionView>::empty(),
            total == joined_all(extension_totals(rest).take(i - retained)),
        decreases extensions.len() - i,
    {
        add_coverage_count(&mut total, extensions[i].total);
        proof {
            let all = extension_totals(rest);
            let next = all.take(i - retained + 1);
            assert(next.drop_last() =~= all.take(i - retained));
            assert(next.last() == extensions@[i as int].total);
        }
        i += 1;
    }
    assert(extension_totals(rest).take(rest.len() as int) =~= extension_totals(rest));
    total
}

proof fn lemma_add_row(groups: Seq<LanguageView>, row: LanguageRow, at: int)
    requires
        0 <= at <= groups.len(),
        forall|k: int|
            0 <= k < at ==> (#[trigger] groups[k]).language != row.language@ && !text_lt(
                row.language@,
                groups[k].language,
            ),
        at < groups.len() ==> groups[at].language == row.language@ || text_lt(
            row.language@,
            groups[at].language,
        ),
    ensures
        add_row(groups, row) == if at < groups.len() && groups[at].language == row.language@ {
            groups.update(at, with_row(groups[at], row))
        } else {
            groups.insert(at, with_row(new_language(row.language@), row))
        },
    decreases groups.len(),
{
    if groups.len() == 0 {
        assert(add_row(groups, row) =~= groups.insert(
            0,
            with_row(new_language(row.language@), row),
        ));
    } else if at == 0 {
        if groups[0].language == row.language@ {
            assert(add_row(groups, row) =~= groups.update(0, with_row(groups[0], row)));
        } else {
            assert(add_row(groups, row) =~= groups.insert(
                0,
                with_row(new_language(row.language@), row),
            ));
        }
    } else {
        let rest = groups.subrange(1, groups.len() as int);
        assert(groups[0].language != row.language@);
        assert forall|k: int| 0 <= k < at - 1 implies (#[trigger] rest[k]).language
            != row.language@ && !text_lt(row.language@, rest[k].language) by {
            assert(rest[k] == groups[k + 1]);
        }
        lemma_add_row(rest, row, at - 1);
        if at < groups.len() {
            assert(rest[at - 1] == groups[at]);
            if groups[at].language == row.language@ {
                assert(add_row(groups, row) =~= groups.update(at, with_row(groups[at], row)));
            } else {
                assert(add_row(groups, row) =~= groups.insert(
                    at,
                    with_row(new_language(row.language@), row),
                ));
            }
        } else {
            assert(add_row(groups, row) =~= groups.insert(
                at,
                with_row(new_language(row.language@), row),
            ));
        }
    }
}

proof fn lemma_add_extension(groups: Seq<ExtensionView>, row: ExtensionRow, at: int)
    requires
        0 <= at <= groups.len(),
        forall|k: int|
            0 <= k < at ==> (#[trigger] groups[k]).extension != row.extension@ && !text_lt(
                row.extension@,
                groups[k].extension,
            ),
        at < groups.len() ==> groups[at].extension == row.extension@ || text_lt(
            row.extension@,
            groups[at].extension,
        ),
    ensures
        add_extension(groups, row) == if at < groups.len() && groups[at].extension
            == row.extension@ {
            groups.update(
                at,
                ExtensionView {
                    extension: groups[at].extension,
                    total: joined(groups[at].total, extension_count(row)),
                },
            )
        } else {
            groups.insert(
                at,
                ExtensionView {
                    extension: row.extension@,
                    total: joined(nothing(), extension_count(row)),
                },
            )
        },
    decreases groups.len(),
{
    let fresh = ExtensionView {
        extension: row.extension@,
        total: joined(nothing(), extension_count(row)),
    };
    if groups.len() == 0 {
        assert(add_extension(groups, row) =~= groups.insert(0, fresh));
    } else if at == 0 {
        if groups[0].extension == row.extension@ {
            assert(add_extension(groups, row) =~= groups.update(
                0,
                ExtensionView {
                    extension: groups[0].extension,
                    total: joined(groups[0].total, extension_count(row)),
                },
            ));
        } else {
            assert(add_extension(groups, row) =~= groups.insert(0, fresh));
        }
    } else {
        let rest = groups.subrange(1, groups.len() as int);
        assert(groups[0].extension != row.extension@);
        assert forall|k: int| 0 <= k < at - 1 implies (#[trigger] rest[k]).extension
            != row.extension@ && !text_lt(row.extension@, rest[k].extension) by {
            assert(rest[k] == groups[k + 1]);
        }
        lemma_add_extension(rest, row, at - 1);
        if at < groups.len() {
            assert(rest[at - 1] == groups[at]);
            if groups[at].extension == row.extension@ {
                assert(add_extension(groups, row) =~= groups.update(
                    at,
                    ExtensionView {
                        extension: groups[at].extension,
                        total: joined(groups[at].total, extension_count(row)),
                    },
                ));
            } else {
                assert(add_extension(groups, row) =~= groups.insert(at, fresh));
            }
        } else {
            assert(add_extension(groups, row) =~= groups.insert(at, fresh));
        }
    }
}

fn name_precedes(a: &str, b: &str) -> (r: bool)
    ensures
        r == text_lt(a@, b@),
{
    crate::text::text_before(a, b) && !same_text(a, b)
}

/// Adds one row to its language.
fn record_language(groups: &mut Vec<ParserLanguageCoverage>, row: &LanguageRow)
    ensures
        views(final(groups)@) == add_row(views(old(groups)@), *row),
{
    let count = ParserCoverageCount { files: row.files, source_bytes: row.source_bytes };
    let ghost start = views(groups@);
    let mut at: usize = 0;
    while at < groups.len() && !same_text(groups[at].language.as_str(), row.language.as_str())
        && !name_precedes(row.language.as_str(), groups[at].language.as_str())
        invariant
            at <= groups.len(),
            start == views(groups@),
            forall|k: int|
                0 <= k < at ==> (#[trigger] start[k]).language != row.language@ && !text_lt(
                    row.language@,
                    start[k].language,
                ),
        decreases groups.len() - at,
    {
        assert(start[at as int].language == groups@[at as int].language@);
        at += 1;
    }
    proof {
        if at < groups.len() {
            assert(start[at as int].language == groups@[at as int].language@);
        }
        lemma_add_row(start, *row, at as int);
    }
    if at < groups.len() && same_text(groups[at].language.as_str(), row.language.as_str()) {
        let mut group = groups.remove(at);
        let ghost before = group@;
        add_coverage_count(&mut group.total, count);
        if row.structurally_complete {
            add_coverage_count(&mut group.complete, count);
        } else {
            add_coverage_count(&mut group.incomplete, count);
        }
        assert(group@ == with_row(before, *row));
        groups.insert(at, group);
        assert(views(groups@) =~= start.update(at as int, with_row(start[at as int], *row)));
    } else {
        let mut group = ParserLanguageCoverage {
            language: row.language.clone(),
            total: ParserCoverageCount { files: 0, source_bytes: 0 },
            complete: ParserCoverageCount { files: 0, source_bytes: 0 },
            incomplete: ParserCoverageCount { files: 0, source_bytes: 0 },
        };
        let ghost before = group@;
        add_coverage_count(&mut group.total, count);
        if row.structurally_complete {
            add_coverage_count(&mut group.complete, count);
        } else {
            add_coverage_count(&mut group.incomplete, count);
        }
        assert(before == new_language(row.language@));
        assert(group@ == with_row(before, *row));
        groups.insert(at, group);
        assert(views(groups@) =~= start.insert(
            at as int,
            with_row(new_language(row.language@), *row),
        ));
    }
}

/// Adds one row to its extension.
fn record_extension(groups: &mut Vec<ParserExtensionCoverage>, row: &ExtensionRow)
    ensures
        views(final(groups)@) == add_extension(views(old(groups)@), *row),
{
    let count = ParserCoverageCount { files: row.files, source_bytes: row.source_bytes };
    let ghost start = views(groups@);
    let mut at: usize = 0;
    while at < groups.len() && !same_text(groups[at].extension.as_str(), row.extension.as_str())
        && !name_precedes(row.extension.as_str(), groups[at].extension.as_str())
        invariant
            at <= groups.len(),
            start == views(groups@),
            forall|k: int|
                0 <= k < at ==> (#[trigger] start[k]).extension != row.extension@ && !text_lt(
                    row.extension@,
                    start[k].extension,
                ),
        decreases groups.len() - at,
    {
        assert(start[at as int].extension == groups@[at as int].extension@);
        at += 1;
    }
    proof {
        if at < groups.len() {
            assert(start[at as int].extension == groups@[at as int].extension@);
        }
        lemma_add_extension(start, *row, at as int);
    }
    if at < groups.len() && same_text(groups[at].extension.as_str(), row.extension.as_str()) {
        let mut group = groups.remove(at);
        add_coverage_count(&mut group.total, count);
        groups.insert(at, group);
        assert(views(groups@) =~= add_extension(start, *row));
    } else {
        let mut group = ParserExtensionCoverage {
            extension: row.extension.clone(),
            total: ParserCoverageCount { files: 0, source_bytes: 0 },
        };
        add_coverage_count(&mut group.total, count);
        groups.insert(at, group);
        assert(views(groups@) =~= add_extension(start, *row));
    }
}

fn language_precedes(a: &ParserLanguageCoverage, b: &ParserLanguageCoverage) -> (r: bool)
    ensures
        r == language_rank()(a@, b@),
{
    a.total.files > b.total.files || (a.total.files == b.total.files && name_precedes(
        a.language.as_str(),
        b.language.as_str(),
    ))
}

fn extension_precedes(a: &ParserExtensionCoverage, b: &ParserExtensionCoverage) -> (r: bool)
    ensures
        r == extension_rank()(a@, b@),
{
    a.total.files > b.total.files || (a.total.files == b.total.files && name_precedes(
        a.extension.as_str(),
        b.extension.as_str(),
    ))
}

/// All rows.
pub open spec fn any_row() -> spec_fn(LanguageRow) -> bool {
    |row: LanguageRow| true
}

/// The rows of completely parsed files.
pub open spec fn complete_row() -> spec_fn(LanguageRow) -> bool {
    |row: LanguageRow| row.structurally_complete
}

/// The rows of incompletely parsed files.
pub open spec fn incomplete_row() -> spec_fn(LanguageRow) -> bool {
    |row: LanguageRow| !row.structurally_complete
}

/// The counts of all extension rows.
pub open spec fn extension_counts(rows: Seq<ExtensionRow>) -> Seq<ParserCoverageCount> {
    rows.map_values(|row: ExtensionRow| extension_count(row))
}

pub(crate) proof fn lemma_counts_push(
    rows: Seq<LanguageRow>,
    i: int,
    take: spec_fn(LanguageRow) -> bool,
)
    requires
        0 <= i < rows.len(),
    ensures
        joined_all(counts_where(rows.take(i + 1), take)) == if take(rows[i]) {
            joined(joined_all(counts_where(rows.take(i), take)), row_count(rows[i]))
        } else {
            joined_all(counts_where(rows.take(i), take))
        },
{
    reveal(Seq::filter);
    let next = rows.take(i + 1);
    assert(next.drop_last() =~= rows.take(i));
    assert(next.last() == rows[i]);
    if take(rows[i]) {
        assert(next.filter(take) =~= rows.take(i).filter(take).push(rows[i]));
        assert(counts_where(next, take) =~= counts_where(rows.take(i), take).push(
            row_count(rows[i]),
        ));
        assert(counts_where(next, take).drop_last() =~= counts_where(rows.take(i), take));
    } else {
        assert(next.filter(take) =~= rows.take(i).filter(take));
    }
}

/// Sums rows by language and by extension, and lists the largest groups.
pub fn parser_coverage_summary(rows: ParserCoverageRows) -> (r: ParserCoverageSummary)
    ensures
        r.recognized == joined_all(counts_where(rows.languages@, any_row())),
        r.complete == joined_all(counts_where(rows.languages@, complete_row())),
        r.incomplete == joined_all(counts_where(rows.languages@, incomplete_row())),
        r.unrecognized == joined_all(extension_counts(rows.unrecognized_extensions@)),
        r.indexed == joined(r.recognized, r.unrecognized),
        views(r.languages@) == listed(sorted_by(by_language(rows.languages@), language_rank())),
        r.other_languages == joined_all(
            language_totals(unlisted(sorted_by(by_language(rows.languages@), language_rank()))),
        ),
        views(r.unrecognized_extensions@) == listed(
            sorted_by(by_extension(rows.unrecognized_extensions@), extension_rank()),
        ),
        r.other_unrecognized_extensions == joined_all(
            extension_totals(
                unlisted(sorted_by(by_extension(rows.unrecognized_extensions@), extension_rank())),
            ),
        ),
{
    let mut groups: Vec<ParserLanguageCoverage> = Vec::new();
    let mut recognized = ParserCoverageCount { files: 0, source_bytes: 0 };
    let mut complete = ParserCoverageCount { files: 0, source_bytes: 0 };
    let mut incomplete = ParserCoverageCount { files: 0, source_bytes: 0 };
    let ghost all = rows.languages@;
    let mut i: usize = 0;
    proof {
        reveal(Seq::filter);
        assert(all.take(0) =~= Seq::<LanguageRow>::empty());
        assert(counts_where(all.take(0), any_row()) =~= Seq::<ParserCoverageCount>::empty());
        assert(counts_where(all.take(0), complete_row()) =~= Seq::<ParserCoverageCount>::empty());
        assert(counts_where(all.take(0), incomplete_row()) =~= Seq::<ParserCoverageCount>::empty());
        assert(views(groups@) =~= by_language(all.take(0)));
    }
    while i < rows.languages.len()
        invariant
            i <= rows.languages.len(),
            all == rows.languages@,
            views(groups@) == by_language(all.take(i as int)),
            recognized == joined_all(counts_where(all.take(i as int), any_row())),
            complete == joined_all(counts_where(all.take(i as int), complete_row())),
            incomplete == joined_all(counts_where(all.take(i as int), incomplete_row())),
        decreases rows.languages.len() - i,
    {
        let row = &rows.languages[i];
        let count = ParserCoverageCount { files: row.files, source_bytes: row.source_bytes };
        proof {
            lemma_counts_push(all, i as int, any_row());
            lemma_counts_push(all, i as int, complete_row());
            lemma_counts_push(all, i as int, incomplete_row());
            assert(all.take(i + 1).drop_last() =~= all.take(i as int));
        }
        add_coverage_count(&mut recognized, count);
        record_language(&mut groups, row);
        if row.structurally_complete {
            add_coverage_count(&mut complete, count);
        } else {
            add_coverage_count(&mut incomplete, count);
        }
        i += 1;
    }
    assert(all.take(all.len() as int) =~= all);
    let mut languages = sort_by(groups, language_precedes, Ghost(language_rank()));
    let ghost ranked = views(languages@);
    let other_languages = sum_language_remainder(&languages, MAX_PARSER_COVERAGE_GROUPS);
    proof {
        assert(unlisted(ranked) =~= if MAX_PARSER_COVERAGE_GROUPS <= ranked.len() {
            ranked.subrange(MAX_PARSER_COVERAGE_GROUPS as int, ranked.len() as int)
        } else {
            Seq::empty()
        });
    }
    languages.truncate(MAX_PARSER_COVERAGE_GROUPS);
    assert(views(languages@) =~= listed(ranked));

    let mut unrecognized = ParserCoverageCount { files: 0, source_bytes: 0 };
    let mut extension_groups: Vec<ParserExtensionCoverage> = Vec::new();
    let ghost unknown = rows.unrecognized_extensions@;
    let mut j: usize = 0;
    proof {
        assert(unknown.take(0) =~= Seq::<ExtensionRow>::empty());
        assert(extension_counts(unknown.take(0)) =~= Seq::<ParserCoverageCount>::empty());
        assert(views(extension_groups@) =~= by_extension(unknown.take(0)));
    }
    while j < rows.unrecognized_extensions.len()
        invariant
            j <= rows.unrecognized_extensions.len(),
            unknown == rows.unrecognized_extensions@,
            views(extension_groups@) == by_extension(unknown.take(j as int)),
            unrecognized == joined_all(extension_counts(unknown.take(j as int))),
        decreases rows.unrecognized_extensions.len() - j,
    {
        let row = &rows.unrecognized_extensions[j];
        let count = ParserCoverageCount { files: row.files, source_bytes: row.source_bytes };
        proof {
            let next = unknown.take(j + 1);
            assert(next.drop_last() =~= unknown.take(j as int));
            assert(extension_counts(next).drop_last() =~= extension_counts(
                unknown.take(j as int),
            ));
            assert(extension_counts(next).last() == extension_count(*row));
        }
        add_coverage_count(&mut unrecognized, count);
        record_extension(&mut extension_groups, row);
        j += 1;
    }
    assert(unknown.take(unknown.len() as int) =~= unknown);
    let mut unrecognized_extensions = sort_by(
        extension_groups,
        extension_precedes,
        Ghost(extension_rank()),
    );
    let ghost ranked_extensions = views(unrecognized_extensions@);
    let other_unrecognized_extensions = sum_extension_remainder(
        &unrecognized_extensions,
        MAX_PARSER_COVERAGE_GROUPS,
    );
    proof {
        assert(unlisted(ranked_extensions) =~= if MAX_PARSER_COVERAGE_GROUPS
            <= ranked_extensions.len() {
            ranked_extensions.subrange(
                MAX_PARSER_COVERAGE_GROUPS as int,
                ranked_extensions.len() as int,
            )
        } else {
            Seq::empty()
        });
    }
    unrecognized_extensions.truncate(MAX_PARSER_COVERAGE_GROUPS);
    assert(views(unrecognized_extensions@) =~= listed(ranked_extensions));

    let mut indexed = recognized;
    add_coverage_count(&mut indexed, unrecognized);
    ParserCoverageSummary {
        indexed,
        recognized,
        complete,
        incomplete,
        unrecognized,
        languages,
        other_languages,
        unrecognized_extensions,
        other_unrecognized_extensions,
    }
}

/// Whether a part of a path between slashes names something.
pub open spec fn names_something() -> spec_fn(Seq<char>) -> Option<Seq<char>> {
    |part: Seq<char>|
        if part.len() > 0 && part != "."@ {
            Some(part)
        } else {
            None
        }
}

/// The parts of a path that name something.
pub open spec fn components(path: Seq<char>) -> Seq<Seq<char>> {
    crate::lists::filter_map(pieces(path, only('/')), names_something())
}

/// What stands behind the last dot of a path's name, where something stands
/// before it.
pub open spec fn extension_of(path: Seq<char>) -> Option<Seq<char>> {
    let parts = components(path);
    if parts.len() == 0 || parts.last() == ".."@ {
        None
    } else {
        let split = pieces(parts.last(), only('.'));
        if split.len() < 2 || (split.len() == 2 && split[0].len() == 0) {
            None
        } else {
            Some(split.last())
        }
    }
}

/// Whether a character may stand in an extension that is named.
pub open spec fn plain_extension_char(c: char) -> bool {
    ascii_alphanumeric(c) || c == '+' || c == '-' || c == '_'
}

/// The name under which a summary counts a path's extension.
pub open spec fn extension_family(path: Seq<char>) -> Seq<char> {
    match extension_of(path) {
        None => "[no_extension]"@,
        Some(extension) => if extension.len() == 0 || byte_len(extension)
            > MAX_SAFE_EXTENSION_BYTES || !(forall|i: int|
            0 <= i < extension.len() ==> plain_extension_char(#[trigger] extension[i])) {
            "[other_extension]"@
        } else {
            "."@ + lowered(extension)
        },
    }
}

fn last_component(path: &str) -> (r: Option<String>)
    ensures
        match r {
            Some(name) => components(path@).len() > 0 && name@ == components(path@).last(),
            None => components(path@).len() == 0,
        },
{
    let parts = split_on(path, '/');
    let ghost all = pieces(path@, only('/'));
    let mut last: Option<String> = None;
    let mut i: usize = 0;
    assert(crate::lists::filter_map(all.take(0), names_something()).len() == 0);
    while i < parts.len()
        invariant
            i <= parts.len(),
            all == texts(parts@),
            match last {
                Some(name) => crate::lists::filter_map(
                    all.take(i as int),
                    names_something(),
                ).len() > 0 && name@ == crate::lists::filter_map(
                    all.take(i as int),
                    names_something(),
                ).last(),
                None => crate::lists::filter_map(all.take(i as int), names_something()).len() == 0,
            },
        decreases parts.len() - i,
    {
        proof {
            crate::lists::filter_map_push(all, names_something(), i as int);
        }
        if !parts[i].as_str().is_empty() && !same_text(parts[i].as_str(), ".") {
            last = Some(parts[i].clone());
        }
        i += 1;
    }
    assert(all.take(all.len() as int) =~= all);
    last
}

fn all_plain(extension: &str) -> (r: bool)
    ensures
        r == forall|i: int|
            0 <= i < extension@.len() ==> plain_extension_char(#[trigger] extension@[i]),
{
    let chars = chars_of(extension);
    let mut i: usize = 0;
    while i < chars.len()
        invariant
            i <= chars.len(),
            chars@ == extension@,
            forall|k: int| 0 <= k < i ==> plain_extension_char(#[trigger] extension@[k]),
        decreases chars.len() - i,
    {
        let c = chars[i];
        let plain = ('a' <= c && c <= 'z') || ('A' <= c && c <= 'Z') || ('0' <= c && c <= '9') || c
            == '+' || c == '-' || c == '_';
        if !plain {
            assert(!plain_extension_char(extension@[i as int]));
            return false;
        }
        i += 1;
    }
    true
}

/// The name under which a summary counts a path's extension: short and plain
/// ones are named, in small letters.
pub fn safe_extension_family(path: &str) -> (r: String)
    ensures
        r@ == extension_family(path@),
{
    let name = match last_component(path) {
        Some(name) => name,
        None => {
            return copy_text("[no_extension]");
        },
    };
    if same_text(name.as_str(), "..") {
        return copy_text("[no_extension]");
    }
    let split = split_on(name.as_str(), '.');
    let ghost parts = pieces(name@, only('.'));
    assert(parts == texts(split@));
    if split.len() < 2 || (split.len() == 2 && split[0].as_str().is_empty()) {
        return copy_text("[no_extension]");
    }
    let extension = &split[split.len() - 1];
    assert(parts.last() == extension@);
    if extension.as_str().is_empty() || byte_size(extension.as_str()) > MAX_SAFE_EXTENSION_BYTES
        || !all_plain(extension.as_str()) {
        return copy_text("[other_extension]");
    }
    appended(copy_text("."), lower_text(extension.as_str()).as_str())
}

proof fn lemma_joined_concat(a: Seq<ParserCoverageCount>, b: Seq<ParserCoverageCount>)
    ensures
        joined_all(a + b) == joined(joined_all(a), joined_all(b)),
    decreases b.len(),
{
    if b.len() == 0 {
        assert(a + b =~= a);
    } else {
        assert((a + b).drop_last() =~= a + b.drop_last());
        lemma_joined_concat(a, b.drop_last());
    }
}

proof fn lemma_joined_one(count: ParserCoverageCount)
    ensures
        joined_all(seq![count]) == count,
{
    reveal_with_fuel(joined_all, 2);
    assert(seq![count].drop_last() =~= Seq::<ParserCoverageCount>::empty());
}

/// Every file of a known language counts as complete or as incomplete.
pub proof fn recognized_is_complete_and_incomplete(rows: Seq<LanguageRow>)
    ensures
        joined_all(counts_where(rows, any_row())) == joined(
            joined_all(counts_where(rows, complete_row())),
            joined_all(counts_where(rows, incomplete_row())),
        ),
    decreases rows.len(),
{
    reveal(Seq::filter);
    if rows.len() == 0 {
        assert(counts_where(rows, any_row()) =~= Seq::<ParserCoverageCount>::empty());
        assert(counts_where(rows, complete_row()) =~= Seq::<ParserCoverageCount>::empty());
        assert(counts_where(rows, incomplete_row()) =~= Seq::<ParserCoverageCount>::empty());
    } else {
        let n = rows.len() - 1;
        recognized_is_complete_and_incomplete(rows.drop_last());
        assert(rows.take(n) =~= rows.drop_last());
        assert(rows.take(n + 1) =~= rows);
        lemma_counts_push(rows, n, any_row());
        lemma_counts_push(rows, n, complete_row());
        lemma_counts_push(rows, n, incomplete_row());
    }
}

proof fn lemma_add_row_total(groups: Seq<LanguageView>, row: LanguageRow)
    ensures
        joined_all(language_totals(add_row(groups, row))) == joined(
            joined_all(language_totals(groups)),
            row_count(row),
        ),
    decreases groups.len(),
{
    let fresh = with_row(new_language(row.language@), row);
    if groups.len() == 0 {
        assert(language_totals(seq![fresh]) =~= seq![fresh.total]);
        lemma_joined_one(fresh.total);
        assert(language_totals(groups) =~= Seq::<ParserCoverageCount>::empty());
    } else {
        let rest = groups.subrange(1, groups.len() as int);
        assert(language_totals(groups) =~= seq![groups[0].total] + language_totals(rest));
        lemma_joined_concat(seq![groups[0].total], language_totals(rest));
        lemma_joined_one(groups[0].total);
        if groups[0].language == row.language@ {
            let grown = with_row(groups[0], row);
            assert(language_totals(add_row(groups, row)) =~= seq![grown.total] + language_totals(
                rest,
            ));
            lemma_joined_concat(seq![grown.total], language_totals(rest));
            lemma_joined_one(grown.total);
        } else if text_lt(row.language@, groups[0].language) {
            assert(language_totals(add_row(groups, row)) =~= seq![fresh.total] + language_totals(
                groups,
            ));
            lemma_joined_concat(seq![fresh.total], language_totals(groups));
            lemma_joined_one(fresh.total);
        } else {
            lemma_add_row_total(rest, row);
            assert(language_totals(add_row(groups, row)) =~= seq![groups[0].total]
                + language_totals(add_row(rest, row)));
            lemma_joined_concat(seq![groups[0].total], language_totals(add_row(rest, row)));
        }
    }
}

proof fn lemma_by_language_total(rows: Seq<LanguageRow>)
    ensures
        joined_all(language_totals(by_language(rows))) == joined_all(
            counts_where(rows, any_row()),
        ),
    decreases rows.len(),
{
    reveal(Seq::filter);
    if rows.len() == 0 {
        assert(language_totals(by_language(rows)) =~= Seq::<ParserCoverageCount>::empty());
        assert(counts_where(rows, any_row()) =~= Seq::<ParserCoverageCount>::empty());
    } else {
        let n = rows.len() - 1;
        lemma_by_language_total(rows.drop_last());
        lemma_add_row_total(by_language(rows.drop_last()), rows.last());
        assert(rows.take(n) =~= rows.drop_last());
        assert(rows.take(n + 1) =~= rows);
        lemma_counts_push(rows, n, any_row());
    }
}

proof fn lemma_insert_total(
    list: Seq<LanguageView>,
    x: LanguageView,
    before: spec_fn(LanguageView, LanguageView) -> bool,
)
    ensures
        joined_all(language_totals(insert_by(list, x, before))) == joined(
            joined_all(language_totals(list)),
            x.total,
        ),
    decreases list.len(),
{
    if list.len() == 0 {
        assert(language_totals(seq![x]) =~= seq![x.total]);
        lemma_joined_one(x.total);
        assert(language_totals(list) =~= Seq::<ParserCoverageCount>::empty());
    } else if before(x, list[0]) {
        assert(language_totals(seq![x] + list) =~= seq![x.total] + language_totals(list));
        lemma_joined_concat(seq![x.total], language_totals(list));
        lemma_joined_one(x.total);
    } else {
        let rest = list.subrange(1, list.len() as int);
        lemma_insert_total(rest, x, before);
        assert(language_totals(insert_by(list, x, before)) =~= seq![list[0].total]
            + language_totals(insert_by(rest, x, before)));
        assert(language_totals(list) =~= seq![list[0].total] + language_totals(rest));
        lemma_joined_concat(seq![list[0].total], language_totals(insert_by(rest, x, before)));
        lemma_joined_concat(seq![list[0].total], language_totals(rest));
        lemma_joined_one(list[0].total);
    }
}

proof fn lemma_sorted_total(
    list: Seq<LanguageView>,
    before: spec_fn(LanguageView, LanguageView) -> bool,
)
    ensures
        joined_all(language_totals(sorted_by(list, before))) == joined_all(language_totals(list)),
    decreases list.len(),
{
    if list.len() > 0 {
        lemma_sorted_total(list.drop_last(), before);
        lemma_insert_total(sorted_by(list.drop_last(), before), list.last(), before);
        assert(language_totals(list).drop_last() =~= language_totals(list.drop_last()));
    }
}

/// The listed languages and the rest together hold every file of a known
/// language.
pub proof fn listed_and_other_languages_are_all(rows: Seq<LanguageRow>)
    ensures
        joined(
            joined_all(
                language_totals(listed(sorted_by(by_language(rows), language_rank()))),
            ),
            joined_all(
                language_totals(unlisted(sorted_by(by_language(rows), language_rank()))),
            ),
        ) == joined_all(counts_where(rows, any_row())),
{
    let ranked = sorted_by(by_language(rows), language_rank());
    lemma_by_language_total(rows);
    lemma_sorted_total(by_language(rows), language_rank());
    lemma_joined_concat(language_totals(listed(ranked)), language_totals(unlisted(ranked)));
    assert(language_totals(listed(ranked)) + language_totals(unlisted(ranked)) =~= language_totals(
        ranked,
    ));
}

} // verus!
