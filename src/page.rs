use vstd::prelude::*;

verus! {

/// Largest number of elements a single page may hold, whatever was asked for.
pub const MAX_PAGE_LIMIT: usize = 50;

/// The mathematical content of a page: its metadata and the window of elements.
pub struct PageView<T> {
    pub total: nat,
    pub has_more: bool,
    pub remaining: nat,
    pub data: Seq<T>,
}

/// One page of a sequence: a borrowed window `data` into it, plus metadata.
pub struct PaginatedResponse<'a, T> {
    /// Number of elements in the whole sequence.
    pub total: usize,
    /// Whether elements exist beyond the window.
    pub has_more: bool,
    /// Number of elements after the window.
    pub remaining: usize,
    /// The window itself.
    pub data: &'a [T],
}

impl<'a, T> View for PaginatedResponse<'a, T> {
    type V = PageView<T>;

    open spec fn view(&self) -> PageView<T> {
        PageView {
            total: self.total as nat,
            has_more: self.has_more,
            remaining: self.remaining as nat,
            data: self.data@,
        }
    }
}

/// First index of the window: the offset (0 when absent), clamped to `total`.
pub open spec fn window_start(total: nat, offset: Option<usize>) -> nat {
    let o: nat = match offset {
        Some(o) => o as nat,
        None => 0,
    };
    if o <= total { o } else { total }
}

/// The requested limit (all elements after the start when absent), capped at
/// the maximum page size.
pub open spec fn effective_limit(total: nat, offset: Option<usize>, limit: Option<usize>) -> nat {
    let requested: nat = match limit {
        Some(l) => l as nat,
        None => (total - window_start(total, offset)) as nat,
    };
    if requested <= MAX_PAGE_LIMIT { requested } else { MAX_PAGE_LIMIT as nat }
}

/// One past the last index of the window: start plus effective limit, clamped to `total`.
pub open spec fn window_end(total: nat, offset: Option<usize>, limit: Option<usize>) -> nat {
    let e = window_start(total, offset) + effective_limit(total, offset, limit);
    if e <= total { e } else { total }
}

/// The page that `paginate` produces for sequence `s`.
pub open spec fn page_of<T>(s: Seq<T>, offset: Option<usize>, limit: Option<usize>) -> PageView<T> {
    let start = window_start(s.len(), offset);
    let end = window_end(s.len(), offset, limit);
    PageView {
        total: s.len(),
        has_more: end < s.len(),
        remaining: (s.len() - end) as nat,
        data: s.subrange(start as int, end as int),
    }
}

/// Cuts the window `[start, end)` out of `data`, where `start` is the offset
/// (default 0) clamped to the length, and `end` is `start` plus the limit
/// (default: everything after `start`) capped at `MAX_PAGE_LIMIT`, clamped to
/// the length. No input is rejected. The window borrows from `data`.
pub fn paginate<T>(data: &[T], offset: Option<usize>, limit: Option<usize>) -> (r: PaginatedResponse<'_, T>)
    ensures
        r@ == page_of(data@, offset, limit),
        r.data@.len() == {
            let eff = effective_limit(data@.len(), offset, limit);
            let rest = data@.len() - window_start(data@.len(), offset);
            if eff <= rest { eff as int } else { rest }
        },
        r.data@.len() <= MAX_PAGE_LIMIT,
        r.has_more == (window_start(data@.len(), offset) + r.data@.len() < r.total),
        r.remaining == r.total - (window_start(data@.len(), offset) + r.data@.len()),
{
    let total = data.len();
    let start: usize = match offset {
        Some(o) => if o <= total { o } else { total },
        None => 0,
    };
    let requested: usize = match limit {
        Some(l) => l,
        None => total - start,
    };
    let capped: usize = if requested <= MAX_PAGE_LIMIT { requested } else { MAX_PAGE_LIMIT };
    let end: usize = if capped <= total - start { start + capped } else { total };
    PaginatedResponse {
        total,
        has_more: end < total,
        remaining: total - end,
        data: vstd::slice::slice_subrange(data, start, end),
    }
}

/// Paginating one unchanged sequence twice with the same offset and limit
/// gives the same page: the result depends on nothing but these arguments.
pub proof fn lemma_paginate_deterministic<T>(
    s: Seq<T>,
    offset: Option<usize>,
    limit: Option<usize>,
    first: PageView<T>,
    second: PageView<T>,
)
    requires
        first == page_of(s, offset, limit),
        second == page_of(s, offset, limit),
    ensures
        first == second,
{
}

/// An offset beyond the end of the sequence yields an empty window, no more
/// elements and nothing remaining, whatever the limit.
pub proof fn lemma_offset_past_end<T>(s: Seq<T>, offset: usize, limit: Option<usize>)
    requires
        offset > s.len(),
    ensures
        page_of(s, Some(offset), limit).data.len() == 0,
        !page_of(s, Some(offset), limit).has_more,
        page_of(s, Some(offset), limit).remaining == 0,
        page_of(s, Some(offset), limit).total == s.len(),
{
}

/// A limit of `MAX_PAGE_LIMIT` or more gives a window of exactly
/// `MAX_PAGE_LIMIT` elements, or of all elements after the start when fewer remain.
pub proof fn lemma_limit_capped<T>(s: Seq<T>, offset: Option<usize>, limit: usize)
    requires
        limit >= MAX_PAGE_LIMIT,
    ensures
        page_of(s, offset, Some(limit)).data.len() == {
            let rest = s.len() - window_start(s.len(), offset);
            if rest <= MAX_PAGE_LIMIT { rest } else { MAX_PAGE_LIMIT as int }
        },
{
}

} // verus!
