//! The evidence that a changed scope gives.

use crate::context::diff_evidence::{
    found_step, if_touched, listed_symbols, touched, ChangedFileView, ChangedSymbolView, FoundView,
};
use crate::lists::{filter_map, filter_map_members};
use crate::model::{DiffHunkEvidence, EvidenceView};
use vstd::prelude::*;

verus! {

/// Whether a line lies in a hunk of a path and in a symbol.
pub open spec fn shares_line(
    hunk: DiffHunkEvidence,
    path: Seq<char>,
    symbol: ChangedSymbolView,
    line: usize,
) -> bool {
    &&& hunk.path@ == path
    &&& hunk.start_line <= line <= hunk.end_line
    &&& symbol.start_line <= line <= symbol.end_line
}

/// A symbol of a changed path counts as changed whenever some line lies both in a
/// hunk of that path and in the symbol; where the path has hunks and the symbol has
/// lines, only then. Every symbol of a path without hunks counts.
pub proof fn a_symbol_counts_as_changed_by_a_shared_line(
    hunks: Seq<DiffHunkEvidence>,
    path: Seq<char>,
    symbol: ChangedSymbolView,
)
    ensures
        (exists|i: int, line: usize|
            0 <= i < hunks.len() && #[trigger] shares_line(hunks[i], path, symbol, line))
            ==> touched(hunks, path, symbol),
        (exists|i: int| 0 <= i < hunks.len() && (#[trigger] hunks[i]).path@ == path)
            && symbol.start_line <= symbol.end_line && touched(hunks, path, symbol) ==> exists|
            i: int,
            line: usize,
        |
            0 <= i < hunks.len() && #[trigger] shares_line(hunks[i], path, symbol, line),
        (forall|i: int| 0 <= i < hunks.len() ==> (#[trigger] hunks[i]).path@ != path) ==> touched(
            hunks,
            path,
            symbol,
        ),
{
    if exists|i: int, line: usize|
        0 <= i < hunks.len() && #[trigger] shares_line(hunks[i], path, symbol, line) {
        let (i, line) = choose|i: int, line: usize|
            0 <= i < hunks.len() && #[trigger] shares_line(hunks[i], path, symbol, line);
        assert(hunks[i].path@ == path);
    }
    if (exists|i: int| 0 <= i < hunks.len() && (#[trigger] hunks[i]).path@ == path)
        && symbol.start_line <= symbol.end_line && touched(hunks, path, symbol) {
        let i = choose|i: int|
            0 <= i < hunks.len() && (#[trigger] hunks[i]).path@ == path
                && crate::context::diff_evidence::overlaps(hunks[i], symbol);
        let line = if hunks[i].start_line < symbol.start_line {
            symbol.start_line
        } else {
            hunks[i].start_line
        };
        assert(shares_line(hunks[i], path, symbol, line));
    }
}

/// What one more changed path adds to the listed symbols: only symbols of its file
/// that count as changed, told by path, name, kind and lines, and all of those as long
/// as no more than sixty-four are listed.
pub proof fn changed_symbols_are_listed(
    found: FoundView,
    hunks: Seq<DiffHunkEvidence>,
    path: Seq<char>,
    file: ChangedFileView,
)
    requires
        found.symbols.len() <= 64,
    ensures
        found_step(found, hunks, path, file).symbols.len() >= found.symbols.len(),
        found_step(found, hunks, path, file).symbols.len() <= 64,
        found_step(found, hunks, path, file).symbols.take(found.symbols.len() as int)
            == found.symbols,
        !file.indexed ==> found_step(found, hunks, path, file).symbols == found.symbols,
        forall|j: int|
            found.symbols.len() <= j < found_step(found, hunks, path, file).symbols.len()
                ==> exists|k: int|
                0 <= k < file.symbols.len() && touched(hunks, path, #[trigger] file.symbols[k])
                    && (#[trigger] found_step(found, hunks, path, file).symbols[j]) == (
                EvidenceView {
                    path,
                    name: file.symbols[k].name,
                    kind: file.symbols[k].kind,
                    start_line: file.symbols[k].start_line,
                    end_line: file.symbols[k].end_line,
                }),
        file.indexed && found.symbols.len() + file.symbols.len() <= 64 ==> forall|k: int|
            0 <= k < file.symbols.len() && touched(hunks, path, #[trigger] file.symbols[k])
                ==> exists|j: int|
                found.symbols.len() <= j < found_step(found, hunks, path, file).symbols.len()
                    && #[trigger] found_step(found, hunks, path, file).symbols[j] == (
                EvidenceView {
                    path,
                    name: file.symbols[k].name,
                    kind: file.symbols[k].kind,
                    start_line: file.symbols[k].start_line,
                    end_line: file.symbols[k].end_line,
                }),
{
    let f = if_touched(hunks, path);
    let changed = filter_map(file.symbols, f);
    let listed = listed_symbols(hunks, path, file, found.symbols.len());
    let out = found_step(found, hunks, path, file);
    filter_map_members(file.symbols, f);
    crate::lists::filter_map_len(file.symbols, f);
    assert(out.symbols.take(found.symbols.len() as int) =~= found.symbols);
    assert forall|j: int| found.symbols.len() <= j < out.symbols.len() implies exists|k: int|
        0 <= k < file.symbols.len() && touched(hunks, path, #[trigger] file.symbols[k])
            && #[trigger] out.symbols[j] == (EvidenceView {
            path,
            name: file.symbols[k].name,
            kind: file.symbols[k].kind,
            start_line: file.symbols[k].start_line,
            end_line: file.symbols[k].end_line,
        }) by {
        let i = j - found.symbols.len();
        assert(listed[i] == changed[i]);
        let k = choose|k: int| 0 <= k < file.symbols.len() && f(#[trigger] file.symbols[k]) == Some(
            changed[i],
        );
        assert(touched(hunks, path, file.symbols[k]));
    }
    if file.indexed && found.symbols.len() + file.symbols.len() <= 64 {
        assert forall|k: int|
            0 <= k < file.symbols.len() && touched(
                hunks,
                path,
                #[trigger] file.symbols[k],
            ) implies exists|j: int|
            found.symbols.len() <= j < out.symbols.len() && #[trigger] out.symbols[j] == (
            EvidenceView {
                path,
                name: file.symbols[k].name,
                kind: file.symbols[k].kind,
                start_line: file.symbols[k].start_line,
                end_line: file.symbols[k].end_line,
            }) by {
            assert(f(file.symbols[k]) == Some(file.symbols[k]));
            assert(changed.contains(file.symbols[k]));
            let i = choose|i: int| 0 <= i < changed.len() && changed[i] == file.symbols[k];
            assert(listed == changed);
            assert(out.symbols[found.symbols.len() + i] == crate::context::diff_evidence::as_evidence(
                path,
                listed[i],
            ));
        }
    }
}

} // verus!
