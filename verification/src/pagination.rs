//! Page arithmetic: defaults, offset computation, and the window a page
//! selects out of an ordered listing.

use vstd::prelude::*;

verus! {

/// Page number used when the caller passes none.
pub const DEFAULT_PAGE: i32 = 1;

/// Page size used when the caller passes none.
pub const DEFAULT_PAGE_SIZE: i32 = 10;

/// The effective page number: the argument, or the default.
pub open spec fn page_or_default(page: Option<i32>) -> int {
    match page {
        Some(p) => p as int,
        None => DEFAULT_PAGE as int,
    }
}

/// The effective page size: the argument, or the default.
pub open spec fn size_or_default(page_size: Option<i32>) -> int {
    match page_size {
        Some(s) => s as int,
        None => DEFAULT_PAGE_SIZE as int,
    }
}

/// The row offset a page starts at: pages are 1-indexed, so page `p` with
/// size `s` starts `(p - 1) * s` rows into the listing. A non-positive
/// page yields a non-positive offset on purpose: that edge case is handed
/// through, not repaired.
pub open spec fn offset_of(page: int, page_size: int) -> int {
    (page - 1) * page_size
}

/// The window of at most `lim` elements of `s` starting at `off`: the
/// whole tail when fewer than `lim` elements remain, and empty when `off`
/// is at or past the end.
pub open spec fn window<T>(s: Seq<T>, off: int, lim: int) -> Seq<T>
    recommends
        0 <= off,
        0 <= lim,
{
    if off >= s.len() {
        Seq::empty()
    } else if off + lim <= s.len() {
        s.subrange(off, off + lim)
    } else {
        s.subrange(off, s.len() as int)
    }
}

/// The concatenation of the windows of pages `1` through `k`, in page
/// order, for a fixed page size.
pub open spec fn pages_concat<T>(s: Seq<T>, k: nat, page_size: int) -> Seq<T>
    decreases k,
{
    if k == 0 {
        Seq::empty()
    } else {
        pages_concat(s, (k - 1) as nat, page_size) + window(
            s,
            (k - 1) * page_size,
            page_size,
        )
    }
}

/// The effective page number, computed.
pub fn resolve_page(page: Option<i32>) -> (r: i32)
    ensures
        r as int == page_or_default(page),
{
    match page {
        Some(p) => p,
        None => DEFAULT_PAGE,
    }
}

/// The effective page size, computed.
pub fn resolve_page_size(page_size: Option<i32>) -> (r: i32)
    ensures
        r as int == size_or_default(page_size),
{
    match page_size {
        Some(s) => s,
        None => DEFAULT_PAGE_SIZE,
    }
}

/// The limit and offset a listing query binds, widened so that the offset
/// product cannot wrap for any 32-bit page and page size.
pub fn limit_offset(page: Option<i32>, page_size: Option<i32>) -> (r: (i64, i64))
    ensures
        r.0 as int == size_or_default(page_size),
        r.1 as int == offset_of(page_or_default(page), size_or_default(page_size)),
{
    let p: i64 = resolve_page(page) as i64;
    let s: i64 = resolve_page_size(page_size) as i64;
    proof {
        let pi = p as int;
        let si = s as int;
        assert(i64::MIN <= (pi - 1) * si <= i64::MAX) by (nonlinear_arith)
            requires
                -0x8000_0000 <= pi <= 0x7fff_ffff,
                -0x8000_0000 <= si <= 0x7fff_ffff,
        ;
    }
    (s, (p - 1) * s)
}

/// A window that starts at or past the end of the listing is empty: paging
/// past the last row is not an error, it returns nothing.
pub proof fn lemma_window_past_end<T>(s: Seq<T>, off: int, lim: int)
    requires
        0 <= lim,
        off >= s.len(),
    ensures
        window(s, off, lim) == Seq::<T>::empty(),
{
}

/// Pages `1` through `k` concatenated reproduce the first
/// `min(k * page_size, len)` elements of the listing, in order.
proof fn lemma_pages_concat_prefix<T>(s: Seq<T>, k: nat, page_size: int)
    requires
        page_size >= 1,
    ensures
        pages_concat(s, k, page_size) == s.subrange(
            0,
            if k * page_size <= s.len() {
                k * page_size
            } else {
                s.len() as int
            },
        ),
    decreases k,
{
    if k == 0 {
        assert(0 * page_size == 0);
        assert(pages_concat(s, 0, page_size) =~= s.subrange(0, 0));
    } else {
        let j = (k - 1) as nat;
        lemma_pages_concat_prefix(s, j, page_size);
        let a = j * page_size;
        assert(a >= 0 && a + page_size == k * page_size) by (nonlinear_arith)
            requires
                page_size >= 1,
                j >= 0,
                a == j * page_size,
                k == j + 1,
        ;
        if a >= s.len() {
            assert(pages_concat(s, k, page_size) =~= s.subrange(0, s.len() as int));
        } else if a + page_size <= s.len() {
            assert(pages_concat(s, k, page_size) =~= s.subrange(0, a + page_size));
        } else {
            assert(pages_concat(s, k, page_size) =~= s.subrange(0, s.len() as int));
        }
    }
}

/// Pagination partition law: when `k` pages of size `page_size` cover the
/// whole listing, concatenating the windows of pages `1` through `k`
/// yields exactly the listing — every element once, in listing order, no
/// duplicates and none missing.
pub proof fn lemma_pagination_partition<T>(s: Seq<T>, k: nat, page_size: int)
    requires
        page_size >= 1,
        k * page_size >= s.len(),
    ensures
        pages_concat(s, k, page_size) == s,
{
    lemma_pages_concat_prefix(s, k, page_size);
    assert(s.subrange(0, s.len() as int) =~= s);
}

/// Pagination partition law for the least sufficient page count
/// `⌈len / page_size⌉`.
pub proof fn lemma_pagination_partition_ceil<T>(s: Seq<T>, page_size: int)
    requires
        page_size >= 1,
    ensures
        pages_concat(s, ((s.len() + page_size - 1) / page_size) as nat, page_size) == s,
{
    let t = s.len() as int;
    let k = (t + page_size - 1) / page_size;
    vstd::arithmetic::div_mod::lemma_fundamental_div_mod(t + page_size - 1, page_size);
    vstd::arithmetic::div_mod::lemma_mod_bound(t + page_size - 1, page_size);
    assert(k * page_size == page_size * k) by (nonlinear_arith);
    assert(k >= 0) by (nonlinear_arith)
        requires
            page_size >= 1,
            t >= 0,
            page_size * k == t + page_size - 1 - ((t + page_size - 1) % page_size),
            0 <= (t + page_size - 1) % page_size < page_size,
    ;
    lemma_pagination_partition(s, k as nat, page_size);
}

} // verus!
