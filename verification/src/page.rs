//! Paging: which part of a result list a caller gets.

use crate::package::{views, Package};
use vstd::prelude::*;

verus! {

/// `list` without its first `offset` records. An offset of zero or less, or
/// one that reaches the end of the list, drops nothing.
pub open spec fn dropped<T>(list: Seq<T>, offset: int) -> Seq<T> {
    if 0 < offset < list.len() {
        list.skip(offset)
    } else {
        list
    }
}

/// Where the page at `offset` of a list of `len` records starts.
pub open spec fn page_start(len: int, offset: int) -> int {
    if 0 < offset < len {
        offset
    } else {
        0
    }
}

/// The first `limit` records of `list`. A limit of zero or less, or one that
/// the list does not reach, cuts nothing.
pub open spec fn truncated<T>(list: Seq<T>, limit: int) -> Seq<T> {
    if 0 < limit < list.len() {
        list.take(limit)
    } else {
        list
    }
}

/// The page of `list` at `offset`, at most `limit` records long.
pub open spec fn page_of<T>(list: Seq<T>, offset: int, limit: int) -> Seq<T> {
    truncated(dropped(list, offset), limit)
}

/// The page of `list` at `offset`, at most `limit` records long.
pub fn paginate(list: Vec<Package>, offset: i32, limit: i32) -> (page: Vec<Package>)
    ensures
        page@ == page_of(list@, offset as int, limit as int),
        views(page@) == page_of(views(list@), offset as int, limit as int),
{
    let mut list = list;
    let ghost whole = list@;
    let mut page = if offset > 0 && (offset as usize) < list.len() {
        list.split_off(offset as usize)
    } else {
        list
    };
    assert(page@ =~= dropped(whole, offset as int));
    if limit > 0 && page.len() > limit as usize {
        page.truncate(limit as usize);
    }
    assert(page@ =~= page_of(whole, offset as int, limit as int));
    assert(views(page@) =~= page_of(views(whole), offset as int, limit as int));
    page
}

/// A page keeps the order of the list: the record at index `i` of the page
/// is the record of the list that stands `i` behind the start of the page.
pub proof fn lemma_page_is_a_run<T>(list: Seq<T>, offset: int, limit: int, i: int)
    requires
        0 <= i < page_of(list, offset, limit).len(),
    ensures
        page_of(list, offset, limit)[i] == list[page_start(list.len() as int, offset) + i],
        page_start(list.len() as int, offset) + i < list.len(),
{
}

/// Paging never gives more than the list holds, and never more than a
/// positive limit.
pub proof fn lemma_page_is_bounded<T>(list: Seq<T>, offset: int, limit: int)
    ensures
        page_of(list, offset, limit).len() <= list.len(),
        limit > 0 ==> page_of(list, offset, limit).len() <= limit,
{
}

/// An offset that reaches the end of the list drops nothing: the page is the
/// one at offset zero.
pub proof fn lemma_offset_past_end<T>(list: Seq<T>, offset: int, limit: int)
    requires
        offset >= list.len(),
    ensures
        page_of(list, offset, limit) == page_of(list, 0, limit),
{
}

/// The page of an empty list is empty, whatever the offset.
pub proof fn lemma_page_of_nothing<T>(list: Seq<T>, offset: int, limit: int)
    requires
        offset >= list.len(),
        list.len() == 0,
    ensures
        page_of(list, offset, limit).len() == 0,
{
}

/// With a limit of zero or less nothing is cut: the page is the list from
/// the offset on, and the whole list when the offset is zero or less.
pub proof fn lemma_no_limit_cuts_nothing<T>(list: Seq<T>, offset: int, limit: int)
    requires
        limit <= 0,
    ensures
        page_of(list, offset, limit) == dropped(list, offset),
        offset <= 0 ==> page_of(list, offset, limit) == list,
        0 <= offset < list.len() ==> page_of(list, offset, limit) == list.skip(offset),
{
    if offset == 0 {
        assert(list.skip(0) =~= list);
    }
}

/// Cutting to a limit twice is cutting once, and cutting a page once more to
/// its limit changes nothing.
pub proof fn lemma_truncation_is_idempotent<T>(list: Seq<T>, offset: int, limit: int)
    ensures
        truncated(truncated(list, limit), limit) == truncated(list, limit),
        truncated(page_of(list, offset, limit), limit) == page_of(list, offset, limit),
{
}

} // verus!
