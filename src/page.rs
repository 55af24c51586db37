//! Page arithmetic and the page envelope.
use vstd::prelude::*;
use crate::links::Links;

verus! {

/// The number of pages that `total` records fill, `size` to a page.
pub open spec fn total_pages_spec(total: int, size: int) -> int {
    if total <= 0 {
        0
    } else if total % size == 0 {
        total / size
    } else {
        total / size + 1
    }
}

/// The requested page clamped into `[1, total_pages]`; 1 when there are
/// no pages.
pub open spec fn clamp_page(page: int, total_pages: int) -> int {
    if total_pages < 1 || page < 1 {
        1
    } else if page > total_pages {
        total_pages
    } else {
        page
    }
}

/// The number of rows that precede page `page` (counted from 1).
pub open spec fn offset_spec(page: int, size: int) -> int {
    (page - 1) * size
}

/// Whether the row at stable position `pos` (counted from 1) falls in the
/// window after `offset` that holds at most `limit` rows.
pub open spec fn in_window(pos: int, offset: int, limit: int) -> bool {
    offset < pos && pos <= offset + limit
}

/// Page `page` of size `size` holds exactly the stable positions from
/// `(page - 1) * size + 1` through `page * size`.
pub proof fn lemma_page_window(page: int, size: int, pos: int)
    requires
        page >= 1,
        size >= 1,
    ensures
        in_window(pos, offset_spec(page, size), size) <==> (page - 1) * size + 1 <= pos <= page
            * size,
{
    assert(offset_spec(page, size) + size == page * size) by (nonlinear_arith);
}

/// Computes the number of pages, `ceil(total / page_size)`, and 0 when
/// nothing matched.
pub fn total_pages(total: i64, page_size: i64) -> (r: i64)
    requires
        page_size >= 1,
    ensures
        r == total_pages_spec(total as int, page_size as int),
        r >= 0,
{
    if total <= 0 {
        0
    } else if total % page_size == 0 {
        total / page_size
    } else {
        assert(total / page_size < total) by (nonlinear_arith)
            requires total > 0, page_size >= 1, total % page_size != 0;
        total / page_size + 1
    }
}

/// Clamps a page number into `[1, total_pages]`, giving 1 when there are
/// no pages.
pub fn clamp_current_page(page: i64, total_pages: i64) -> (r: i64)
    ensures
        r == clamp_page(page as int, total_pages as int),
        r >= 1,
{
    if total_pages < 1 || page < 1 {
        1
    } else if page > total_pages {
        total_pages
    } else {
        page
    }
}

/// The number of rows that precede page `page`: `(page - 1) * page_size`,
/// or `None` where that does not fit in an `i64`.
pub fn page_offset(page: i64, page_size: i64) -> (r: Option<i64>)
    requires
        page >= 1,
        page_size >= 1,
    ensures
        r.is_some() <==> offset_spec(page as int, page_size as int) <= i64::MAX,
        r.is_some() ==> r.unwrap() == offset_spec(page as int, page_size as int),
{
    let before = page - 1;
    if before == 0 {
        return Some(0);
    }
    if before > i64::MAX / page_size {
        assert(before * page_size > i64::MAX) by (nonlinear_arith)
            requires before > i64::MAX / page_size, page_size >= 1;
        None
    } else {
        assert(before * page_size <= i64::MAX) by (nonlinear_arith)
            requires before <= i64::MAX / page_size, page_size >= 1, before >= 0;
        Some(before * page_size)
    }
}

/// The pagination figures of a page.
#[derive(Debug, Clone, Copy, PartialEq, Eq, Structural)]
pub struct PageMetadata {
    pub current_page: i64,
    pub page_size: i64,
    pub total_count: i64,
    pub total_pages: i64,
}

impl PageMetadata {
    /// The figures for page `page` of `total` records, the current page
    /// clamped into the pages there are.
    pub fn new(page: i64, page_size: i64, total: i64) -> (r: PageMetadata)
        requires
            page_size >= 1,
        ensures
            r.total_pages == total_pages_spec(total as int, page_size as int),
            r.current_page == clamp_page(page as int, r.total_pages as int),
            r.page_size == page_size,
            r.total_count == total,
    {
        let pages = total_pages(total, page_size);
        PageMetadata {
            current_page: clamp_current_page(page, pages),
            page_size,
            total_count: total,
            total_pages: pages,
        }
    }
}

/// One page of a listing: its figures, its navigation links and its items.
#[derive(Debug, Clone)]
pub struct Page<T> {
    pub metadata: PageMetadata,
    pub links: Links,
    pub items: Vec<T>,
}

impl<T> Page<T> {
    pub fn new(metadata: PageMetadata, links: Links, items: Vec<T>) -> (r: Page<T>)
        ensures
            r.metadata == metadata,
            r.links == links,
            r.items == items,
    {
        Page { metadata, links, items }
    }
}

} // verus!
