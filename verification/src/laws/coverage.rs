//! What the parsers cover.

use crate::coverage::{
    add_row, any_row, by_language, complete_row, components, counts_where, extension_family,
    extension_of, incomplete_row, joined_all, language_rank, lemma_counts_push, listed,
    names_something, plain_extension_char, unlisted, LanguageRow, LanguageView,
};
use crate::ordered::{
    first_of, sorted_by, text_lt, texts_are_in_line, the_first_of_a_sorted_list, weak_order,
};
use crate::text::{ascii_bytes, lowered, only, pieces, pieces_exist};
use vstd::prelude::*;

verus! {

/// A number, or the largest that is counted.
pub open spec fn counted(n: nat) -> nat {
    if n > u64::MAX {
        u64::MAX as nat
    } else {
        n
    }
}

/// The files, or the bytes, of the rows of a language, or of all rows, that were
/// parsed completely, or were not.
pub open spec fn amount(
    rows: Seq<LanguageRow>,
    language: Option<Seq<char>>,
    complete: bool,
    bytes: bool,
) -> nat
    decreases rows.len(),
{
    if rows.len() == 0 {
        0
    } else {
        let row = rows.last();
        amount(rows.drop_last(), language, complete, bytes) + if row.structurally_complete
            == complete && (language is None || language->0 == row.language@) {
            if bytes {
                row.source_bytes as nat
            } else {
                row.files as nat
            }
        } else {
            0
        }
    }
}

/// The files of all rows that were parsed completely count as complete, those of all
/// other rows as incomplete, and those of every row as recognized; so do their bytes.
pub proof fn files_count_by_how_they_were_parsed(rows: Seq<LanguageRow>)
    ensures
        joined_all(counts_where(rows, complete_row())).files == counted(
            amount(rows, None, true, false),
        ),
        joined_all(counts_where(rows, incomplete_row())).files == counted(
            amount(rows, None, false, false),
        ),
        joined_all(counts_where(rows, any_row())).files == counted(
            amount(rows, None, true, false) + amount(rows, None, false, false),
        ),
        joined_all(counts_where(rows, complete_row())).source_bytes == counted(
            amount(rows, None, true, true),
        ),
        joined_all(counts_where(rows, incomplete_row())).source_bytes == counted(
            amount(rows, None, false, true),
        ),
        joined_all(counts_where(rows, any_row())).source_bytes == counted(
            amount(rows, None, true, true) + amount(rows, None, false, true),
        ),
    decreases rows.len(),
{
    if rows.len() == 0 {
        reveal(Seq::filter);
        assert(counts_where(rows, any_row()).len() == 0);
        assert(counts_where(rows, complete_row()).len() == 0);
        assert(counts_where(rows, incomplete_row()).len() == 0);
    } else {
        let n = rows.len() - 1;
        files_count_by_how_they_were_parsed(rows.drop_last());
        assert(rows.take(n) =~= rows.drop_last());
        assert(rows.take(n + 1) =~= rows);
        lemma_counts_push(rows, n, any_row());
        lemma_counts_push(rows, n, complete_row());
        lemma_counts_push(rows, n, incomplete_row());
    }
}

/// Whether groups of languages are in ascending order.
pub open spec fn in_line(groups: Seq<LanguageView>) -> bool {
    forall|i: int, j: int|
        0 <= i < j < groups.len() ==> text_lt(
            (#[trigger] groups[i]).language,
            (#[trigger] groups[j]).language,
        )
}

/// Whether a group counts what the rows of its language count.
pub open spec fn tells(group: LanguageView, rows: Seq<LanguageRow>) -> bool {
    let name = Some(group.language);
    &&& group.complete.files == counted(amount(rows, name, true, false))
    &&& group.incomplete.files == counted(amount(rows, name, false, false))
    &&& group.total.files == counted(
        amount(rows, name, true, false) + amount(rows, name, false, false),
    )
    &&& group.complete.source_bytes == counted(amount(rows, name, true, true))
    &&& group.incomplete.source_bytes == counted(amount(rows, name, false, true))
    &&& group.total.source_bytes == counted(
        amount(rows, name, true, true) + amount(rows, name, false, true),
    )
}

/// Whether a language has a group.
pub open spec fn grouped(groups: Seq<LanguageView>, language: Seq<char>) -> bool {
    exists|i: int| 0 <= i < groups.len() && (#[trigger] groups[i]).language == language
}

#[verifier::rlimit(80)]
proof fn a_row_joins_its_group(
    groups: Seq<LanguageView>,
    rows: Seq<LanguageRow>,
    row: LanguageRow,
)
    requires
        in_line(groups),
        forall|i: int| 0 <= i < groups.len() ==> tells(#[trigger] groups[i], rows),
        !grouped(groups, row.language@) ==> {
            &&& amount(rows, Some(row.language@), true, false) == 0
            &&& amount(rows, Some(row.language@), false, false) == 0
            &&& amount(rows, Some(row.language@), true, true) == 0
            &&& amount(rows, Some(row.language@), false, true) == 0
        },
    ensures
        in_line(add_row(groups, row)),
        forall|i: int|
            0 <= i < add_row(groups, row).len() ==> tells(
                #[trigger] add_row(groups, row)[i],
                rows.push(row),
            ),
        forall|language: Seq<char>| #[trigger]
            grouped(add_row(groups, row), language) <==> grouped(groups, language) || language
                == row.language@,
    decreases groups.len(),
{
    let next = rows.push(row);
    let out = add_row(groups, row);
    assert(next.drop_last() =~= rows);
    assert forall|group: LanguageView|
        #![trigger tells(group, next)]
        group.language != row.language@ && tells(group, rows) implies tells(group, next) by {}
    if groups.len() == 0 {
        assert(out[0].language == row.language@);
        assert forall|language: Seq<char>| #[trigger] grouped(out, language) <==> grouped(
            groups,
            language,
        ) || language == row.language@ by {
            if language == row.language@ {
                assert(out[0].language == language);
            }
        }
        assert(tells(out[0], next));
    } else {
        let rest = groups.subrange(1, groups.len() as int);
        assert forall|i: int| 0 <= i < rest.len() implies #[trigger] rest[i] == groups[i + 1] by {}
        if groups[0].language == row.language@ {
            assert(tells(groups[0], rows));
            assert(tells(out[0], next));
            assert forall|i: int| 1 <= i < out.len() implies #[trigger] out[i] == groups[i] by {}
            assert forall|i: int| 0 <= i < out.len() implies tells(#[trigger] out[i], next) by {
                if i > 0 {
                    assert(tells(groups[i], rows));
                    assert(text_lt(groups[0].language, groups[i].language));
                }
            }
            assert forall|language: Seq<char>| #[trigger] grouped(out, language) <==> grouped(
                groups,
                language,
            ) || language == row.language@ by {
                if grouped(out, language) {
                    let i = choose|i: int|
                        0 <= i < out.len() && (#[trigger] out[i]).language == language;
                    assert(groups[i].language == language);
                }
                if grouped(groups, language) {
                    let i = choose|i: int|
                        0 <= i < groups.len() && (#[trigger] groups[i]).language == language;
                    assert(out[i].language == language);
                }
                assert(out[0].language == row.language@);
            }
            assert forall|i: int, j: int| 0 <= i < j < out.len() implies text_lt(
                (#[trigger] out[i]).language,
                (#[trigger] out[j]).language,
            ) by {
                assert(text_lt(groups[i].language, groups[j].language));
            }
        } else if text_lt(row.language@, groups[0].language) {
            assert(!grouped(groups, row.language@)) by {
                if grouped(groups, row.language@) {
                    let i = choose|i: int|
                        0 <= i < groups.len() && (#[trigger] groups[i]).language == row.language@;
                    if i > 0 {
                        assert(text_lt(groups[0].language, groups[i].language));
                        texts_are_in_line(row.language@, groups[0].language, groups[i].language);
                    }
                }
            }
            assert forall|i: int| 1 <= i < out.len() implies #[trigger] out[i] == groups[i - 1] by {}
            assert(tells(out[0], next));
            assert forall|i: int| 0 <= i < out.len() implies tells(#[trigger] out[i], next) by {
                if i > 0 {
                    assert(tells(groups[i - 1], rows));
                    assert(groups[i - 1].language != row.language@) by {
                        assert(!grouped(groups, row.language@));
                    }
                }
            }
            assert forall|i: int, j: int| 0 <= i < j < out.len() implies text_lt(
                (#[trigger] out[i]).language,
                (#[trigger] out[j]).language,
            ) by {
                if i == 0 && j > 1 {
                    assert(text_lt(groups[0].language, groups[j - 1].language));
                    texts_are_in_line(row.language@, groups[0].language, groups[j - 1].language);
                } else if i > 0 {
                    assert(text_lt(groups[i - 1].language, groups[j - 1].language));
                }
            }
            assert forall|language: Seq<char>| #[trigger] grouped(out, language) <==> grouped(
                groups,
                language,
            ) || language == row.language@ by {
                if grouped(out, language) {
                    let i = choose|i: int|
                        0 <= i < out.len() && (#[trigger] out[i]).language == language;
                    if i > 0 {
                        assert(groups[i - 1].language == language);
                    }
                }
                if grouped(groups, language) {
                    let i = choose|i: int|
                        0 <= i < groups.len() && (#[trigger] groups[i]).language == language;
                    assert(out[i + 1].language == language);
                }
                assert(out[0].language == row.language@);
            }
        } else {
            assert(grouped(rest, row.language@) <==> grouped(groups, row.language@)) by {
                if grouped(rest, row.language@) {
                    let i = choose|i: int|
                        0 <= i < rest.len() && (#[trigger] rest[i]).language == row.language@;
                    assert(groups[i + 1].language == row.language@);
                }
                if grouped(groups, row.language@) {
                    let i = choose|i: int|
                        0 <= i < groups.len() && (#[trigger] groups[i]).language == row.language@;
                    assert(rest[i - 1].language == row.language@);
                }
            }
            assert(in_line(rest)) by {
                assert forall|i: int, j: int| 0 <= i < j < rest.len() implies text_lt(
                    (#[trigger] rest[i]).language,
                    (#[trigger] rest[j]).language,
                ) by {
                    assert(text_lt(groups[i + 1].language, groups[j + 1].language));
                }
            }
            assert forall|i: int| 0 <= i < rest.len() implies tells(#[trigger] rest[i], rows) by {
                assert(tells(groups[i + 1], rows));
            }
            a_row_joins_its_group(rest, rows, row);
            let tail = add_row(rest, row);
            assert forall|i: int| 1 <= i < out.len() implies #[trigger] out[i] == tail[i - 1] by {}
            assert(tells(groups[0], rows));
            assert(tells(out[0], next));
            assert forall|i: int| 0 <= i < out.len() implies tells(#[trigger] out[i], next) by {
                if i > 0 {
                    assert(tells(tail[i - 1], next));
                }
            }
            texts_are_in_line(groups[0].language, row.language@, groups[0].language);
            assert forall|i: int, j: int| 0 <= i < j < out.len() implies text_lt(
                (#[trigger] out[i]).language,
                (#[trigger] out[j]).language,
            ) by {
                if i == 0 {
                    let language = tail[j - 1].language;
                    assert(grouped(tail, language));
                    if language != row.language@ {
                        let k = choose|k: int|
                            0 <= k < rest.len() && (#[trigger] rest[k]).language == language;
                        assert(text_lt(groups[0].language, groups[k + 1].language));
                    }
                } else {
                    assert(text_lt(tail[i - 1].language, tail[j - 1].language));
                }
            }
            assert forall|language: Seq<char>| #[trigger] grouped(out, language) <==> grouped(
                groups,
                language,
            ) || language == row.language@ by {
                if grouped(out, language) {
                    let i = choose|i: int|
                        0 <= i < out.len() && (#[trigger] out[i]).language == language;
                    if i > 0 {
                        assert(tail[i - 1].language == language);
                        assert(grouped(tail, language));
                        if language != row.language@ {
                            let k = choose|k: int|
                                0 <= k < rest.len() && (#[trigger] rest[k]).language == language;
                            assert(groups[k + 1].language == language);
                        }
                    } else {
                        assert(groups[0].language == language);
                    }
                }
                if grouped(groups, language) || language == row.language@ {
                    if groups[0].language == language {
                        assert(out[0].language == language);
                    } else {
                        if grouped(groups, language) {
                            let i = choose|i: int|
                                0 <= i < groups.len() && (#[trigger] groups[i]).language
                                    == language;
                            assert(rest[i - 1].language == language);
                        }
                        assert(grouped(tail, language));
                        let k = choose|k: int|
                            0 <= k < tail.len() && (#[trigger] tail[k]).language == language;
                        assert(out[k + 1].language == language);
                    }
                }
            }
        }
    }
}

/// Every language of a row has one group, in ascending order. A group counts as
/// complete what the completely parsed rows of its language count, as incomplete what
/// its other rows count, and in total what both count.
pub proof fn a_group_counts_the_rows_of_its_language(rows: Seq<LanguageRow>)
    ensures
        in_line(by_language(rows)),
        forall|i: int|
            0 <= i < by_language(rows).len() ==> tells(#[trigger] by_language(rows)[i], rows),
        forall|language: Seq<char>| #[trigger]
            grouped(by_language(rows), language) <==> exists|k: int|
                0 <= k < rows.len() && (#[trigger] rows[k]).language@ == language,
        forall|language: Seq<char>|
            #![trigger grouped(by_language(rows), language)]
            !grouped(by_language(rows), language) ==> {
                &&& amount(rows, Some(language), true, false) == 0
                &&& amount(rows, Some(language), false, false) == 0
                &&& amount(rows, Some(language), true, true) == 0
                &&& amount(rows, Some(language), false, true) == 0
            },
    decreases rows.len(),
{
    if rows.len() > 0 {
        let front = rows.drop_last();
        let row = rows.last();
        a_group_counts_the_rows_of_its_language(front);
        let held = by_language(front);
        assert(grouped(held, row.language@) || !grouped(held, row.language@));
        a_row_joins_its_group(held, front, row);
        assert(front.push(row) =~= rows);
        assert forall|language: Seq<char>| #[trigger] grouped(by_language(rows), language)
            <==> exists|k: int| 0 <= k < rows.len() && (#[trigger] rows[k]).language@ == language by {
            if grouped(by_language(rows), language) {
                if language == row.language@ {
                    assert(rows[rows.len() - 1].language@ == language);
                } else {
                    assert(grouped(held, language));
                    let k = choose|k: int|
                        0 <= k < front.len() && (#[trigger] front[k]).language@ == language;
                    assert(rows[k].language@ == language);
                }
            }
            if exists|k: int| 0 <= k < rows.len() && (#[trigger] rows[k]).language@ == language {
                let k = choose|k: int|
                    0 <= k < rows.len() && (#[trigger] rows[k]).language@ == language;
                if k < front.len() {
                    assert(front[k].language@ == language);
                    assert(grouped(held, language));
                }
            }
        }
        assert forall|language: Seq<char>|
            #![trigger grouped(by_language(rows), language)]
            !grouped(by_language(rows), language) implies {
            &&& amount(rows, Some(language), true, false) == 0
            &&& amount(rows, Some(language), false, false) == 0
            &&& amount(rows, Some(language), true, true) == 0
            &&& amount(rows, Some(language), false, true) == 0
        } by {
            assert(!grouped(held, language));
        }
    } else {
        assert forall|language: Seq<char>| !(#[trigger] grouped(by_language(rows), language)) by {
            if grouped(by_language(rows), language) {
                let i = choose|i: int|
                    0 <= i < by_language(rows).len() && (#[trigger] by_language(rows)[i]).language
                        == language;
            }
        }
    }
}

proof fn languages_are_ranked()
    ensures
        weak_order(language_rank()),
{
    let before = language_rank();
    assert forall|a: LanguageView, b: LanguageView| #[trigger] before(a, b) implies !before(
        b,
        a,
    ) by {
        texts_are_in_line(a.language, b.language, a.language);
    }
    assert forall|a: LanguageView, b: LanguageView, c: LanguageView|
        !(#[trigger] before(a, b)) && !(#[trigger] before(b, c)) implies !before(a, c) by {
        texts_are_in_line(a.language, b.language, c.language);
        texts_are_in_line(b.language, c.language, a.language);
    }
}

/// A summary lists at most twenty languages, those with the most files first and
/// equal ones by name. No language that is not listed has more files than one that is.
pub proof fn the_largest_languages_are_listed(groups: Seq<LanguageView>)
    ensures
        listed(sorted_by(groups, language_rank())).len() <= 20,
        groups.len() <= 20 ==> listed(sorted_by(groups, language_rank())).len() == groups.len(),
        forall|i: int, j: int|
            0 <= i < j < listed(sorted_by(groups, language_rank())).len() ==> {
                let a = #[trigger] listed(sorted_by(groups, language_rank()))[i];
                let b = #[trigger] listed(sorted_by(groups, language_rank()))[j];
                &&& a.total.files >= b.total.files
                &&& a.total.files == b.total.files ==> !text_lt(b.language, a.language)
            },
        forall|k: int, i: int|
            0 <= k < groups.len() && 0 <= i < listed(sorted_by(groups, language_rank())).len()
                && !listed(sorted_by(groups, language_rank())).contains(#[trigger] groups[k])
                ==> groups[k].total.files <= (#[trigger] listed(
                sorted_by(groups, language_rank()),
            )[i]).total.files,
{
    let before = language_rank();
    let out = listed(sorted_by(groups, before));
    assert(in_order_by_files(groups, out)) by {
        languages_are_ranked();
        the_first_of_a_sorted_list(groups, before, 20);
        assert(out == first_of(sorted_by(groups, before), 20));
        assert forall|i: int, j: int| 0 <= i < j < out.len() implies !before(
            #[trigger] out[j],
            #[trigger] out[i],
        ) by {}
        assert forall|k: int, i: int|
            0 <= k < groups.len() && 0 <= i < out.len() && !out.contains(
                #[trigger] groups[k],
            ) implies !before(groups[k], #[trigger] out[i]) by {
            assert(groups.contains(groups[k]));
        }
    }
    assert forall|i: int, j: int| 0 <= i < j < out.len() implies {
        let a = #[trigger] out[i];
        let b = #[trigger] out[j];
        &&& a.total.files >= b.total.files
        &&& a.total.files == b.total.files ==> !text_lt(b.language, a.language)
    } by {
        assert(!before(out[j], out[i]));
    }
}

spec fn in_order_by_files(groups: Seq<LanguageView>, out: Seq<LanguageView>) -> bool {
    let before = language_rank();
    &&& out.len() <= 20
    &&& groups.len() <= 20 ==> out.len() == groups.len()
    &&& forall|i: int, j: int|
        0 <= i < j < out.len() ==> !before(#[trigger] out[j], #[trigger] out[i])
    &&& forall|k: int, i: int|
        0 <= k < groups.len() && 0 <= i < out.len() && !out.contains(#[trigger] groups[k])
            ==> !before(groups[k], #[trigger] out[i])
}

/// What a summary lists and what it does not list are all that there is.
pub proof fn listed_and_unlisted_are_all<A>(list: Seq<A>)
    ensures
        listed(list) + unlisted(list) == list,
{
    assert(listed(list) + unlisted(list) =~= list);
}

proof fn pieces_of_an_end(head: Seq<char>, end: Seq<char>, c: char)
    requires
        forall|i: int| 0 <= i < end.len() ==> #[trigger] end[i] != c,
    ensures
        pieces(head + end, only(c)).len() == pieces(head, only(c)).len(),
        pieces(head + end, only(c)).last() == pieces(head, only(c)).last() + end,
        pieces(head + end, only(c)).drop_last() == pieces(head, only(c)).drop_last(),
    decreases end.len(),
{
    pieces_exist(head, only(c));
    if end.len() == 0 {
        assert(head + end =~= head);
        assert(pieces(head, only(c)).last() + end =~= pieces(head, only(c)).last());
    } else {
        let short = end.drop_last();
        assert forall|i: int| 0 <= i < short.len() implies #[trigger] short[i] != c by {
            assert(short[i] == end[i]);
        }
        pieces_of_an_end(head, short, c);
        pieces_exist(head + short, only(c));
        let all = head + end;
        assert(all.drop_last() =~= head + short);
        assert(all.last() == end.last());
        let front = pieces(head + short, only(c));
        assert(pieces(all, only(c)) == front.update(front.len() - 1, front.last().push(end.last())));
        assert(front.last().push(end.last()) =~= pieces(head, only(c)).last() + end);
        assert(pieces(all, only(c)).drop_last() =~= front.drop_last());
    }
}

proof fn a_lone_piece_is_the_text(s: Seq<char>, c: char)
    ensures
        pieces(s, only(c)).len() == 1 ==> pieces(s, only(c))[0] == s,
        s.len() > 0 && s.last() != c ==> pieces(s, only(c)).last().len() > 0,
        (forall|i: int| 0 <= i < s.len() ==> #[trigger] s[i] != c) ==> pieces(s, only(c)).len()
            == 1,
    decreases s.len(),
{
    if s.len() > 0 {
        a_lone_piece_is_the_text(s.drop_last(), c);
        pieces_exist(s.drop_last(), only(c));
        assert(s.drop_last().push(s.last()) =~= s);
        if forall|i: int| 0 <= i < s.len() ==> #[trigger] s[i] != c {
            assert forall|i: int| 0 <= i < s.drop_last().len() implies #[trigger] s.drop_last()[i]
                != c by {
                assert(s[i] != c);
            }
            assert(s[s.len() - 1] != c);
        }
    }
}

proof fn the_last_component_is_kept(list: Seq<Seq<char>>)
    requires
        list.len() > 0,
        list.last().len() > 0,
        list.last() != "."@,
    ensures
        crate::lists::filter_map(list, names_something()).len() > 0,
        crate::lists::filter_map(list, names_something()).last() == list.last(),
{
}

/// A file whose name ends in a dot and up to sixteen plain characters is counted under
/// that extension in small letters, whatever stands before the dot.
pub proof fn a_plain_extension_is_named(head: Seq<char>, extension: Seq<char>)
    requires
        head.len() > 0,
        head.last() != '/',
        0 < extension.len() <= 16,
        forall|i: int|
            0 <= i < extension.len() ==> plain_extension_char(#[trigger] extension[i]),
    ensures
        extension_family(head + seq!['.'] + extension) == seq!['.'] + lowered(extension),
{
    reveal_strlit(".");
    reveal_strlit("..");
    let end = seq!['.'] + extension;
    let path = head + seq!['.'] + extension;
    assert(path =~= head + end);
    assert forall|i: int| 0 <= i < end.len() implies #[trigger] end[i] != '/' by {
        if i > 0 {
            assert(end[i] == extension[i - 1]);
            assert(plain_extension_char(extension[i - 1]));
        }
    }
    pieces_exist(head, only('/'));
    a_lone_piece_is_the_text(head, '/');
    pieces_of_an_end(head, end, '/');
    let stem = pieces(head, only('/')).last();
    let name = stem + end;
    let parts = pieces(path, only('/'));
    assert(parts.last() == name);
    assert(name[name.len() - 1] == extension.last());
    assert(plain_extension_char(extension[extension.len() - 1]));
    assert(name != "."@ && name != ".."@);
    the_last_component_is_kept(parts);
    assert(components(path).last() == name);
    let dotted = stem.push('.');
    assert(name =~= dotted + extension);
    assert forall|i: int| 0 <= i < extension.len() implies #[trigger] extension[i] != '.' by {
        assert(plain_extension_char(extension[i]));
    }
    pieces_of_an_end(dotted, extension, '.');
    assert(dotted.drop_last() =~= stem);
    pieces_exist(stem, only('.'));
    let split = pieces(name, only('.'));
    assert(pieces(dotted, only('.')) == pieces(stem, only('.')).push(Seq::empty()));
    assert(split.last() =~= extension);
    a_lone_piece_is_the_text(stem, '.');
    if split.len() == 2 {
        assert(split[0] == split.drop_last()[0]);
        assert(pieces(dotted, only('.')).drop_last() =~= pieces(stem, only('.')));
        assert(split[0] == stem);
    }
    assert(extension_of(path) == Some(extension));
    assert forall|i: int| 0 <= i < extension.len() implies (#[trigger] extension[i]) as u32
        <= 0x7F by {
        assert(plain_extension_char(extension[i]));
    }
    ascii_bytes(extension);
    assert("."@ =~= seq!['.']);
}

/// The family of an extension is one of two fixed names, or a dot and one to sixteen
/// letters, digits or signs, none of them a capital letter.
pub proof fn families_of_extensions_are_plain(path: Seq<char>)
    ensures
        ({
            let family = extension_family(path);
            ||| family == "[no_extension]"@
            ||| family == "[other_extension]"@
            ||| {
                &&& 2 <= family.len()
                &&& family[0] == '.'
                &&& forall|i: int|
                    1 <= i < family.len() ==> {
                        let c = #[trigger] family[i];
                        ||| 'a' <= c && c <= 'z'
                        ||| '0' <= c && c <= '9'
                        ||| c == '+'
                        ||| c == '-'
                        ||| c == '_'
                    }
            }
        }),
{
    reveal_strlit(".");
    match extension_of(path) {
        Some(extension) => {
            let family = "."@ + lowered(extension);
            if extension_family(path) == family && extension.len() > 0 && (forall|i: int|
                0 <= i < extension.len() ==> plain_extension_char(#[trigger] extension[i])) {
                assert forall|i: int| 1 <= i < family.len() implies {
                    let c = #[trigger] family[i];
                    ||| 'a' <= c && c <= 'z'
                    ||| '0' <= c && c <= '9'
                    ||| c == '+'
                    ||| c == '-'
                    ||| c == '_'
                } by {
                    assert(plain_extension_char(extension[i - 1]));
                    assert(family[i] == lowered(extension)[i - 1]);
                }
            }
        },
        None => {},
    }
}

/// A file whose name holds no dot, or only one at its beginning, has no extension.
pub proof fn names_without_dots_have_no_extension(head: Seq<char>, name: Seq<char>)
    requires
        name.len() > 0,
        forall|i: int| 0 <= i < name.len() ==> #[trigger] name[i] != '.' && name[i] != '/',
    ensures
        extension_family(head + seq!['/'] + name) == "[no_extension]"@,
        extension_family(head + seq!['/', '.'] + name) == "[no_extension]"@,
{
    reveal_strlit(".");
    reveal_strlit("..");
    let base = head.push('/');
    assert(base.drop_last() =~= head);
    pieces_exist(head, only('/'));
    assert(pieces(base, only('/')).last() =~= Seq::<char>::empty());
    assert forall|i: int| 0 <= i < name.len() implies #[trigger] name[i] != '/' by {}
    pieces_of_an_end(base, name, '/');
    let first = head + seq!['/'] + name;
    assert(first =~= base + name);
    assert(pieces(first, only('/')).last() =~= name);
    assert(name[0] != '.');
    the_last_component_is_kept(pieces(first, only('/')));
    a_lone_piece_is_the_text(name, '.');
    let hidden = seq!['.'] + name;
    assert forall|i: int| 0 <= i < hidden.len() implies #[trigger] hidden[i] != '/' by {
        if i > 0 {
            assert(hidden[i] == name[i - 1]);
        }
    }
    pieces_of_an_end(base, hidden, '/');
    let second = head + seq!['/', '.'] + name;
    assert(second =~= base + hidden);
    assert(pieces(second, only('/')).last() =~= hidden);
    assert(hidden[1] == name[0]);
    assert(hidden != "."@ && hidden != ".."@);
    the_last_component_is_kept(pieces(second, only('/')));
    let dot = seq!['.'];
    assert(dot.drop_last() =~= Seq::<char>::empty());
    assert(pieces(Seq::<char>::empty(), only('.')) == seq![Seq::<char>::empty()]);
    assert(pieces(dot, only('.')) =~= seq![Seq::<char>::empty(), Seq::<char>::empty()]);
    pieces_of_an_end(dot, name, '.');
    let split = pieces(hidden, only('.'));
    assert(split.len() == 2);
    assert(split[0] == split.drop_last()[0]);
    assert(pieces(dot, only('.')).drop_last()[0] == pieces(dot, only('.'))[0]);
    assert(split[0].len() == 0);
}

} // verus!
