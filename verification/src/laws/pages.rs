//! Pages of files.

use crate::files::{
    first_of_matches, first_of_tree, match_views, optional_cursor, tree_views, FileCursorView,
    FilePage, PathOperation, TreePathRecord,
};
use crate::ordered::views;
use crate::text::optional_text;
use vstd::prelude::*;

verus! {

/// The entries of a page of a tree are its rows, one for one and in their order, up
/// to the limit. An entry is a directory exactly where its row is one, and says of
/// path, language and size what its row says.
pub proof fn a_tree_page_shows_its_rows(rows: Seq<TreePathRecord>, limit: usize, page: FilePage)
    requires
        first_of_tree(rows, limit, page),
    ensures
        page.entries@.len() <= rows.len(),
        page.entries@.len() <= limit,
        page.entries@.len() == rows.len() || page.entries@.len() == limit,
        forall|i: int|
            0 <= i < page.entries@.len() ==> {
                &&& (#[trigger] page.entries@[i]).kind is Directory <==> rows[i].is_directory
                &&& page.entries@[i].kind is File <==> !rows[i].is_directory
                &&& page.entries@[i].path@ == rows[i].path@
                &&& optional_text(page.entries@[i].language) == optional_text(rows[i].language)
                &&& page.entries@[i].size_bytes == rows[i].size_bytes
                &&& page.entries@[i].score is None
            },
{
    let shown = views(page.entries@);
    assert(shown.len() == page.entries@.len());
    assert forall|i: int| 0 <= i < page.entries@.len() implies {
        &&& (#[trigger] page.entries@[i]).kind is Directory <==> rows[i].is_directory
        &&& page.entries@[i].kind is File <==> !rows[i].is_directory
        &&& page.entries@[i].path@ == rows[i].path@
        &&& optional_text(page.entries@[i].language) == optional_text(rows[i].language)
        &&& page.entries@[i].size_bytes == rows[i].size_bytes
        &&& page.entries@[i].score is None
    } by {
        assert(shown[i] == page.entries@[i]@);
        assert(shown[i] == tree_views(rows)[i]);
    }
}

/// The entries of a page of a search for a glob are its rows, one for one and in
/// their order, up to the limit, and files all of them.
pub proof fn a_glob_page_shows_its_rows(rows: Seq<TreePathRecord>, limit: usize, page: FilePage)
    requires
        first_of_matches(rows, limit, page),
    ensures
        page.entries@.len() <= rows.len(),
        page.entries@.len() <= limit,
        page.entries@.len() == rows.len() || page.entries@.len() == limit,
        forall|i: int|
            0 <= i < page.entries@.len() ==> {
                &&& (#[trigger] page.entries@[i]).kind is File
                &&& page.entries@[i].path@ == rows[i].path@
                &&& optional_text(page.entries@[i].language) == optional_text(rows[i].language)
                &&& page.entries@[i].size_bytes == rows[i].size_bytes
                &&& page.entries@[i].score is None
            },
{
    let shown = views(page.entries@);
    assert(shown.len() == page.entries@.len());
    assert forall|i: int| 0 <= i < page.entries@.len() implies {
        &&& (#[trigger] page.entries@[i]).kind is File
        &&& page.entries@[i].path@ == rows[i].path@
        &&& optional_text(page.entries@[i].language) == optional_text(rows[i].language)
        &&& page.entries@[i].size_bytes == rows[i].size_bytes
        &&& page.entries@[i].score is None
    } by {
        assert(shown[i] == page.entries@[i]@);
        assert(shown[i] == match_views(rows)[i]);
    }
}

/// A page of a tree, or of a search for a glob, goes on exactly where it holds fewer
/// entries than there are rows, and goes on behind its last path by the operation
/// that it is a page of.
pub proof fn a_page_goes_on_where_rows_are_left(
    rows: Seq<TreePathRecord>,
    limit: usize,
    page: FilePage,
    operation: PathOperation,
)
    requires
        limit > 0,
        operation is Tree ==> first_of_tree(rows, limit, page),
        operation is Glob ==> first_of_matches(rows, limit, page),
        operation is Tree || operation is Glob,
    ensures
        page.next is Some <==> page.entries@.len() < rows.len(),
        page.next is Some ==> optional_cursor(page.next) == Some(
            FileCursorView::Path { operation, path: page.entries@.last().path@ },
        ),
{
    let shown = views(page.entries@);
    assert(shown.len() == page.entries@.len());
    if shown.len() > 0 {
        assert(shown.last() == page.entries@.last()@);
    }
}

} // verus!
