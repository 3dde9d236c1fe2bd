//! What scans keep.

use crate::candidate_scan::{kept, list_scanned, page_limit, refused, RankedCandidates};
use vstd::prelude::*;

verus! {

/// A row that is allowed stands among the kept ones behind all that were kept before it,
/// and one that is not stands so among the refused; no row is in neither.
pub proof fn rows_are_kept_or_refused_in_order<T>(examined: Seq<T>, verdicts: Seq<bool>, i: int)
    requires
        examined.len() == verdicts.len(),
        0 <= i < examined.len(),
    ensures
        verdicts[i] ==> {
            let at = kept(examined.take(i), verdicts.take(i)).len() as int;
            &&& at < kept(examined, verdicts).len()
            &&& kept(examined, verdicts)[at] == examined[i]
        },
        !verdicts[i] ==> {
            let at = refused(examined.take(i), verdicts.take(i)).len() as int;
            &&& at < refused(examined, verdicts).len()
            &&& refused(examined, verdicts)[at] == examined[i]
        },
        kept(examined, verdicts).len() + refused(examined, verdicts).len() == examined.len(),
    decreases examined.len(),
{
    let last = examined.len() - 1;
    if i == last {
        assert(examined.take(i) =~= examined.drop_last());
        assert(verdicts.take(i) =~= verdicts.drop_last());
        if last > 0 {
            rows_are_kept_or_refused_in_order(examined.drop_last(), verdicts.drop_last(), 0);
        }
    } else {
        rows_are_kept_or_refused_in_order(examined.drop_last(), verdicts.drop_last(), i);
        assert(examined.drop_last().take(i) =~= examined.take(i));
        assert(verdicts.drop_last().take(i) =~= verdicts.take(i));
        assert(examined.drop_last()[i] == examined[i]);
        assert(verdicts.drop_last()[i] == verdicts[i]);
    }
}

/// A page of a scan asks for at least one row and at most 256, never for more than are
/// left of ten thousand, and at the beginning for no more rows than are wanted.
pub proof fn a_page_of_a_scan_is_bounded(offset: int, max_candidates: int)
    requires
        0 <= offset < 10000,
        max_candidates >= 1,
    ensures
        1 <= page_limit(offset, max_candidates) <= 256,
        offset + page_limit(offset, max_candidates) <= 10000,
        offset == 0 ==> page_limit(offset, max_candidates) <= max_candidates,
        offset > 0 && offset + 256 <= 10000 ==> page_limit(offset, max_candidates) == 256,
{
}

/// A scan of a list that is not cut off and has room left has judged every row: each
/// allowed one is a hit, and no row behind the first ten thousand was judged. A scan that
/// is cut off has room left.
pub proof fn a_scan_that_is_not_cut_off_judges_every_row<T>(
    max_candidates: usize,
    source: Seq<T>,
    verdicts: Seq<bool>,
    result: RankedCandidates<T>,
    rejected: Seq<T>,
    i: int,
)
    requires
        list_scanned(max_candidates, source, verdicts, result, rejected),
        0 <= i < source.len(),
    ensures
        verdicts.len() <= 10000,
        result.hits@.len() <= max_candidates,
        result.scan_limited ==> result.hits@.len() < max_candidates && source.len() >= 10000,
        !result.scan_limited && result.hits@.len() < max_candidates ==> verdicts.len()
            == source.len(),
        i < verdicts.len() && verdicts[i] ==> result.hits@.contains(source[i]),
        i < verdicts.len() && !verdicts[i] ==> rejected.contains(source[i]),
        result.hits@.len() + rejected.len() == verdicts.len(),
{
    let examined = source.take(verdicts.len() as int);
    if i < verdicts.len() {
        rows_are_kept_or_refused_in_order(examined, verdicts, i);
        assert(examined[i] == source[i]);
    }
    if verdicts.len() > 0 {
        rows_are_kept_or_refused_in_order(examined, verdicts, 0);
    }
}

} // verus!
