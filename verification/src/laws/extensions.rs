//! How files that no parser knows are counted.

use crate::coverage::{
    add_extension, by_extension, extension_rank, joined, listed, nothing, ExtensionRow,
    ExtensionView, ParserCoverageCount,
};
use crate::ordered::{
    first_of, sorted_by, text_lt, texts_are_in_line, the_first_of_a_sorted_list, weak_order,
};
use vstd::prelude::*;

verus! {

/// What the group of an extension counts; nothing where there is no such group.
pub open spec fn counted_for(groups: Seq<ExtensionView>, extension: Seq<char>) ->
    ParserCoverageCount
    decreases groups.len(),
{
    if groups.len() == 0 {
        nothing()
    } else if groups[0].extension == extension {
        groups[0].total
    } else {
        counted_for(groups.subrange(1, groups.len() as int), extension)
    }
}

/// What the rows of an extension count together.
pub open spec fn amount_of(rows: Seq<ExtensionRow>, extension: Seq<char>) -> ParserCoverageCount
    decreases rows.len(),
{
    if rows.len() == 0 {
        nothing()
    } else {
        let before = amount_of(rows.drop_last(), extension);
        if rows.last().extension@ == extension {
            joined(
                before,
                ParserCoverageCount {
                    files: rows.last().files,
                    source_bytes: rows.last().source_bytes,
                },
            )
        } else {
            before
        }
    }
}

/// Whether groups stand in ascending order of their extensions.
pub open spec fn ascending(groups: Seq<ExtensionView>) -> bool {
    forall|i: int, j: int|
        0 <= i < j < groups.len() ==> text_lt(
            (#[trigger] groups[i]).extension,
            (#[trigger] groups[j]).extension,
        )
}

/// Whether an extension comes before all groups.
pub open spec fn comes_first(extension: Seq<char>, groups: Seq<ExtensionView>) -> bool {
    forall|i: int| 0 <= i < groups.len() ==> text_lt(extension, (#[trigger] groups[i]).extension)
}

proof fn no_group_counts_nothing(extension: Seq<char>, groups: Seq<ExtensionView>)
    requires
        comes_first(extension, groups),
    ensures
        counted_for(groups, extension) == nothing(),
    decreases groups.len(),
{
    if groups.len() > 0 {
        let rest = groups.subrange(1, groups.len() as int);
        assert(text_lt(extension, groups[0].extension));
        assert forall|i: int| 0 <= i < rest.len() implies text_lt(
            extension,
            (#[trigger] rest[i]).extension,
        ) by {
            assert(text_lt(extension, groups[i + 1].extension));
        }
        no_group_counts_nothing(extension, rest);
    }
}

/// A row adds to the group of its extension and to no other, and the groups stay in
/// ascending order.
pub proof fn a_row_adds_to_its_extension(
    groups: Seq<ExtensionView>,
    row: ExtensionRow,
    extension: Seq<char>,
)
    requires
        ascending(groups),
    ensures
        ascending(add_extension(groups, row)),
        extension != row.extension@ ==> counted_for(add_extension(groups, row), extension)
            == counted_for(groups, extension),
        counted_for(add_extension(groups, row), row.extension@) == joined(
            counted_for(groups, row.extension@),
            (ParserCoverageCount { files: row.files, source_bytes: row.source_bytes }),
        ),
        forall|first: Seq<char>|
            comes_first(first, groups) && text_lt(first, row.extension@) ==> #[trigger]
                comes_first(first, add_extension(groups, row)),
    decreases groups.len(),
{
    let out = add_extension(groups, row);
    if groups.len() == 0 {
        assert(out.subrange(1, 1) =~= Seq::<ExtensionView>::empty());
        assert(counted_for(out.subrange(1, 1), extension) == nothing());
    } else {
        let rest = groups.subrange(1, groups.len() as int);
        assert(ascending(rest)) by {
            assert forall|i: int, j: int| 0 <= i < j < rest.len() implies text_lt(
                (#[trigger] rest[i]).extension,
                (#[trigger] rest[j]).extension,
            ) by {
                assert(text_lt(groups[i + 1].extension, groups[j + 1].extension));
            }
        }
        assert(comes_first(groups[0].extension, rest)) by {
            assert forall|i: int| 0 <= i < rest.len() implies text_lt(
                groups[0].extension,
                (#[trigger] rest[i]).extension,
            ) by {
                assert(text_lt(groups[0].extension, groups[i + 1].extension));
            }
        }
        if groups[0].extension == row.extension@ {
            assert(out.subrange(1, out.len() as int) =~= rest);
            assert forall|i: int, j: int| 0 <= i < j < out.len() implies text_lt(
                (#[trigger] out[i]).extension,
                (#[trigger] out[j]).extension,
            ) by {
                assert(text_lt(groups[i].extension, groups[j].extension));
            }
            assert forall|first: Seq<char>|
                comes_first(first, groups) && text_lt(first, row.extension@) implies #[trigger]
            comes_first(first, out) by {
                assert forall|i: int| 0 <= i < out.len() implies text_lt(
                    first,
                    (#[trigger] out[i]).extension,
                ) by {
                    assert(text_lt(first, groups[i].extension));
                }
            }
        } else if text_lt(row.extension@, groups[0].extension) {
            assert(out.subrange(1, out.len() as int) =~= groups);
            assert(comes_first(row.extension@, groups)) by {
                assert forall|i: int| 0 <= i < groups.len() implies text_lt(
                    row.extension@,
                    (#[trigger] groups[i]).extension,
                ) by {
                    if i > 0 {
                        assert(text_lt(groups[0].extension, groups[i].extension));
                        texts_are_in_line(
                            row.extension@,
                            groups[0].extension,
                            groups[i].extension,
                        );
                    }
                }
            }
            no_group_counts_nothing(row.extension@, groups);
            assert forall|i: int, j: int| 0 <= i < j < out.len() implies text_lt(
                (#[trigger] out[i]).extension,
                (#[trigger] out[j]).extension,
            ) by {
                if i == 0 {
                    assert(text_lt(row.extension@, groups[j - 1].extension));
                } else {
                    assert(text_lt(groups[i - 1].extension, groups[j - 1].extension));
                }
            }
            assert forall|first: Seq<char>|
                comes_first(first, groups) && text_lt(first, row.extension@) implies #[trigger]
            comes_first(first, out) by {
                assert forall|i: int| 0 <= i < out.len() implies text_lt(
                    first,
                    (#[trigger] out[i]).extension,
                ) by {
                    if i > 0 {
                        assert(text_lt(first, groups[i - 1].extension));
                    }
                }
            }
        } else {
            a_row_adds_to_its_extension(rest, row, extension);
            let tail = add_extension(rest, row);
            assert(out.subrange(1, out.len() as int) =~= tail);
            texts_are_in_line(groups[0].extension, row.extension@, groups[0].extension);
            assert(comes_first(groups[0].extension, tail));
            assert forall|i: int, j: int| 0 <= i < j < out.len() implies text_lt(
                (#[trigger] out[i]).extension,
                (#[trigger] out[j]).extension,
            ) by {
                if i == 0 {
                    assert(text_lt(groups[0].extension, tail[j - 1].extension));
                } else {
                    assert(text_lt(tail[i - 1].extension, tail[j - 1].extension));
                }
            }
            assert forall|first: Seq<char>|
                comes_first(first, groups) && text_lt(first, row.extension@) implies #[trigger]
            comes_first(first, out) by {
                assert(comes_first(first, rest)) by {
                    assert forall|i: int| 0 <= i < rest.len() implies text_lt(
                        first,
                        (#[trigger] rest[i]).extension,
                    ) by {
                        assert(text_lt(first, groups[i + 1].extension));
                    }
                }
                assert(comes_first(first, tail));
                assert forall|i: int| 0 <= i < out.len() implies text_lt(
                    first,
                    (#[trigger] out[i]).extension,
                ) by {
                    if i == 0 {
                        assert(text_lt(first, groups[0].extension));
                    } else {
                        assert(text_lt(first, tail[i - 1].extension));
                    }
                }
            }
        }
    }
}

/// The group of an extension counts what the rows of that extension count together.
pub proof fn a_group_counts_the_rows_of_its_extension(
    rows: Seq<ExtensionRow>,
    extension: Seq<char>,
)
    ensures
        ascending(by_extension(rows)),
        counted_for(by_extension(rows), extension) == amount_of(rows, extension),
    decreases rows.len(),
{
    if rows.len() > 0 {
        let front = rows.drop_last();
        a_group_counts_the_rows_of_its_extension(front, extension);
        a_row_adds_to_its_extension(by_extension(front), rows.last(), extension);
    }
}

proof fn extensions_are_ranked()
    ensures
        weak_order(extension_rank()),
{
    let before = extension_rank();
    assert forall|a: ExtensionView, b: ExtensionView| #[trigger] before(a, b) implies !before(
        b,
        a,
    ) by {
        texts_are_in_line(a.extension, b.extension, a.extension);
    }
    assert forall|a: ExtensionView, b: ExtensionView, c: ExtensionView|
        !(#[trigger] before(a, b)) && !(#[trigger] before(b, c)) implies !before(a, c) by {
        texts_are_in_line(a.extension, b.extension, c.extension);
        texts_are_in_line(b.extension, c.extension, a.extension);
    }
}

spec fn in_order_by_files(groups: Seq<ExtensionView>, out: Seq<ExtensionView>) -> bool {
    let before = extension_rank();
    &&& out.len() <= 20
    &&& groups.len() <= 20 ==> out.len() == groups.len()
    &&& forall|i: int, j: int|
        0 <= i < j < out.len() ==> !before(#[trigger] out[j], #[trigger] out[i])
    &&& forall|k: int, i: int|
        0 <= k < groups.len() && 0 <= i < out.len() && !out.contains(#[trigger] groups[k])
            ==> !before(groups[k], #[trigger] out[i])
}

/// A summary lists at most twenty extensions, those with the most files first and equal
/// ones by name. No extension that is not listed has more files than one that is.
pub proof fn the_largest_extensions_are_listed(groups: Seq<ExtensionView>)
    ensures
        listed(sorted_by(groups, extension_rank())).len() <= 20,
        groups.len() <= 20 ==> listed(sorted_by(groups, extension_rank())).len() == groups.len(),
        forall|i: int, j: int|
            0 <= i < j < listed(sorted_by(groups, extension_rank())).len() ==> {
                let a = #[trigger] listed(sorted_by(groups, extension_rank()))[i];
                let b = #[trigger] listed(sorted_by(groups, extension_rank()))[j];
                &&& a.total.files >= b.total.files
                &&& a.total.files == b.total.files ==> !text_lt(b.extension, a.extension)
            },
        forall|k: int, i: int|
            0 <= k < groups.len() && 0 <= i < listed(sorted_by(groups, extension_rank())).len()
                && !listed(sorted_by(groups, extension_rank())).contains(#[trigger] groups[k])
                ==> groups[k].total.files <= (#[trigger] listed(
                sorted_by(groups, extension_rank()),
            )[i]).total.files,
{
    let before = extension_rank();
    let out = listed(sorted_by(groups, before));
    assert(in_order_by_files(groups, out)) by {
        extensions_are_ranked();
        the_first_of_a_sorted_list(groups, before, 20);
        assert(out == first_of(sorted_by(groups, before), 20));
        assert forall|i: int, j: int| 0 <= i < j < out.len() implies !before(
            #[trigger] out[j],
            #[trigger] out[i],
        ) by {}
        assert forall|k: int, i: int|
            0 <= k < groups.len() && 0 <= i < out.len() && !out.contains(
                #[trigger] groups[k],
            ) implies !before(groups[k], #[trigger] out[i]) by {
            assert(groups.contains(groups[k]));
        }
    }
    assert forall|i: int, j: int| 0 <= i < j < out.len() implies {
        let a = #[trigger] out[i];
        let b = #[trigger] out[j];
        &&& a.total.files >= b.total.files
        &&& a.total.files == b.total.files ==> !text_lt(b.extension, a.extension)
    } by {
        assert(!before(out[j], out[i]));
    }
}

} // verus!
