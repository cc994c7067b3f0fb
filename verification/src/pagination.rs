//! Pages of an ordered listing.
//!
//! A window is cut from a listing by position. A scan walks a listing from a
//! position onward and keeps what satisfies a predicate. Either way an empty
//! result is reported as no page at all.

use vstd::prelude::*;

verus! {

/// The items at the positions `offset`, `offset + 1`, ... of `items`: at most
/// `limit` of them, fewer where the listing ends first.
pub open spec fn window<T>(items: Seq<T>, offset: nat, limit: nat) -> Seq<T> {
    if offset < items.len() {
        if offset + limit < items.len() {
            items.subrange(offset as int, (offset + limit) as int)
        } else {
            items.skip(offset as int)
        }
    } else {
        Seq::empty()
    }
}

/// The first `limit` items that satisfy `wanted` among those at the positions
/// `offset`, `offset + 1`, ... of `items`; all of them where there are fewer.
pub open spec fn scan<T>(
    items: Seq<T>,
    offset: nat,
    limit: nat,
    wanted: spec_fn(T) -> bool,
) -> Seq<T> {
    if offset < items.len() {
        let found = items.skip(offset as int).filter(wanted);
        if limit < found.len() {
            found.take(limit as int)
        } else {
            found
        }
    } else {
        Seq::empty()
    }
}

/// A result as a page: none where it is empty.
pub open spec fn page<T>(items: Seq<T>) -> Option<Seq<T>> {
    if items.len() == 0 {
        None
    } else {
        Some(items)
    }
}

/// The views of a sequence of records.
pub open spec fn views<T: View>(items: Seq<T>) -> Seq<T::V> {
    items.map_values(|item: T| item@)
}

/// The views of the records of a page.
pub open spec fn page_views<T: View>(page: Option<Vec<T>>) -> Option<Seq<T::V>> {
    match page {
        Some(items) => Some(views(items@)),
        None => None,
    }
}

/// Hands the collected records out as a page.
pub fn into_page<T: View>(items: Vec<T>) -> (found: Option<Vec<T>>)
    ensures
        page_views(found) == page(views(items@)),
{
    if items.len() == 0 {
        None
    } else {
        Some(items)
    }
}

/// Scanning one position further keeps the item there if it is wanted.
pub proof fn lemma_scan_step<T>(items: Seq<T>, offset: int, i: int, wanted: spec_fn(T) -> bool)
    requires
        0 <= offset <= i < items.len(),
    ensures
        items.subrange(offset, i + 1).filter(wanted) == if wanted(items[i]) {
            items.subrange(offset, i).filter(wanted).push(items[i])
        } else {
            items.subrange(offset, i).filter(wanted)
        },
{
    reveal(Seq::filter);
    assert(items.subrange(offset, i + 1).drop_last() =~= items.subrange(offset, i));
}

/// A scan that stopped at position `i`, at the end of the listing or with
/// `limit` items in hand, has found the matches.
pub proof fn lemma_scan_done<T>(
    items: Seq<T>,
    offset: nat,
    limit: nat,
    i: int,
    wanted: spec_fn(T) -> bool,
)
    requires
        offset < items.len(),
        offset <= i <= items.len(),
        items.subrange(offset as int, i).filter(wanted).len() <= limit,
        i == items.len() || items.subrange(offset as int, i).filter(wanted).len() == limit,
    ensures
        scan(items, offset, limit, wanted) == items.subrange(offset as int, i).filter(wanted),
{
    let seen = items.subrange(offset as int, i);
    let rest = items.subrange(i, items.len() as int);
    assert(items.skip(offset as int) =~= seen + rest);
    Seq::filter_distributes_over_add(seen, rest, wanted);
    let found = items.skip(offset as int).filter(wanted);
    assert(found == seen.filter(wanted) + rest.filter(wanted));
    if i == items.len() {
        reveal(Seq::filter);
        assert(rest.filter(wanted) =~= Seq::<T>::empty());
        assert(found =~= seen.filter(wanted));
    } else {
        assert(found.take(limit as int) =~= seen.filter(wanted));
        if !(limit < found.len()) {
            assert(found =~= seen.filter(wanted));
        }
    }
}

} // verus!
