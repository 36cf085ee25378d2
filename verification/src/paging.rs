//! Pages of a listing.

use vstd::arithmetic::div_mod::lemma_fundamental_div_mod;
use vstd::prelude::*;

verus! {

/// One page of a listing, with what a reader needs to ask for the others.
pub struct Page<T> {
    /// The items of this page.
    pub items: Vec<T>,
    /// The number of items on all pages.
    pub total: usize,
    /// The number of this page; the first page is page 1.
    pub page: usize,
    /// The number of items that a full page holds.
    pub per_page: usize,
    /// The number of pages.
    pub pages: usize,
}

/// A listing in the order in which it is read.
pub open spec fn ordered<T>(all: Seq<T>, reverse: bool) -> Seq<T> {
    if reverse {
        all.reverse()
    } else {
        all
    }
}

/// The number of pages that `total` items take.
pub open spec fn page_count(total: int, per_page: int) -> int {
    if per_page == 0 {
        0
    } else {
        (total + per_page - 1) / per_page
    }
}

/// The number of items on the pages before `page`; page 0 starts where page 1
/// does.
pub open spec fn page_offset(page: int, per_page: int) -> int {
    if page < 1 {
        0
    } else {
        (page - 1) * per_page
    }
}

/// The lesser of two numbers.
pub open spec fn lesser(a: int, b: int) -> int {
    if a < b {
        a
    } else {
        b
    }
}

/// The items of one page of a listing that is already in order.
pub open spec fn page_slice<T>(list: Seq<T>, page: int, per_page: int) -> Seq<T> {
    let start = lesser(page_offset(page, per_page), list.len() as int);
    let end = lesser(start + per_page, list.len() as int);
    list.subrange(start, end)
}

/// Cuts one page out of a listing.
///
/// With `reverse` the listing is read from its end. The pages are counted in the
/// order in which the listing is read, so page 1 is always the first one.
pub fn paginated_thoughts<T: Copy>(
    thoughts: Vec<T>,
    page: usize,
    per_page: usize,
    reverse: bool,
) -> (r: Page<T>)
    requires
        page_offset(page as int, per_page as int) <= usize::MAX,
    ensures
        r.items@ == page_slice(ordered(thoughts@, reverse), page as int, per_page as int),
        r.total == thoughts@.len(),
        r.page == page,
        r.per_page == per_page,
        r.pages == page_count(thoughts@.len() as int, per_page as int),
{
    let total = thoughts.len();
    let pages: usize = if per_page == 0 {
        0
    } else {
        let full = total / per_page;
        proof {
            lemma_page_count(total as int, per_page as int);
        }
        if total % per_page == 0 {
            full
        } else {
            full + 1
        }
    };
    let offset: usize = if page < 1 {
        0
    } else {
        (page - 1) * per_page
    };
    let start: usize = if offset < total {
        offset
    } else {
        total
    };
    let end: usize = if per_page < total - start {
        start + per_page
    } else {
        total
    };
    let ghost list = ordered(thoughts@, reverse);
    let mut items: Vec<T> = Vec::new();
    let mut i: usize = start;
    while i < end
        invariant
            start <= i <= end,
            end <= total,
            total == thoughts@.len(),
            list == ordered(thoughts@, reverse),
            items@ == list.subrange(start as int, i as int),
        decreases end - i,
    {
        if reverse {
            items.push(thoughts[total - 1 - i]);
        } else {
            items.push(thoughts[i]);
        }
        proof {
            let before = list.subrange(start as int, i as int);
            assert(list.subrange(start as int, i + 1) =~= before.push(list[i as int]));
        }
        i = i + 1;
    }
    Page { items, total, page, per_page, pages }
}

/// The number of pages, by the quotient and the remainder.
proof fn lemma_page_count(total: int, per_page: int)
    requires
        0 <= total,
        0 < per_page,
    ensures
        page_count(total, per_page) == total / per_page + (if total % per_page == 0 {
            0int
        } else {
            1int
        }),
        total % per_page != 0 ==> total / per_page + 1 <= total,
{
    lemma_fundamental_div_mod(total, per_page);
    let q = total / per_page;
    let m = total % per_page;
    assert(0 <= m < per_page);
    if m == 0 {
        assert((total + per_page - 1) / per_page == q) by (nonlinear_arith)
            requires
                total == per_page * q,
                0 < per_page,
        ;
    } else {
        assert((total + per_page - 1) / per_page == q + 1) by (nonlinear_arith)
            requires
                total == per_page * q + m,
                0 < m < per_page,
        ;
        assert(q + 1 <= total) by (nonlinear_arith)
            requires
                total == per_page * q + m,
                0 < m < per_page,
                0 <= total,
                q == total / per_page,
        ;
    }
}

/// The items of the first `k` pages, one page behind the other.
pub open spec fn first_pages<T>(list: Seq<T>, per_page: int, k: nat) -> Seq<T>
    decreases k,
{
    if k == 0 {
        Seq::empty()
    } else {
        first_pages(list, per_page, (k - 1) as nat) + page_slice(list, k as int, per_page)
    }
}

/// The first `k` pages hold the first items of the listing.
proof fn lemma_first_pages<T>(list: Seq<T>, per_page: int, k: nat)
    requires
        0 < per_page,
    ensures
        first_pages(list, per_page, k) == list.take(lesser(k * per_page, list.len() as int)),
    decreases k,
{
    if k == 0 {
        assert(k * per_page == 0) by (nonlinear_arith)
            requires
                k == 0,
        ;
        assert(first_pages(list, per_page, k) =~= list.take(0));
    } else {
        lemma_first_pages(list, per_page, (k - 1) as nat);
        assert(k * per_page == (k - 1) * per_page + per_page) by (nonlinear_arith);
        assert((k - 1) * per_page >= 0) by (nonlinear_arith)
            requires
                k >= 1,
                per_page > 0,
        ;
        assert(first_pages(list, per_page, k) =~= list.take(
            lesser(k * per_page, list.len() as int),
        ));
    }
}

/// Read one after the other, the pages give the whole listing, each item once
/// and in order; a page behind the last one is empty.
pub proof fn law_pages_partition_the_listing<T>(list: Seq<T>, per_page: int, beyond: int)
    requires
        0 < per_page,
        page_count(list.len() as int, per_page) < beyond,
    ensures
        first_pages(list, per_page, page_count(list.len() as int, per_page) as nat) == list,
        page_slice(list, beyond, per_page).len() == 0,
{
    let total = list.len() as int;
    let pages = page_count(total, per_page);
    lemma_page_count(total, per_page);
    lemma_fundamental_div_mod(total, per_page);
    assert(0 <= total / per_page) by (nonlinear_arith)
        requires
            0 <= total,
            0 < per_page,
    ;
    lemma_first_pages(list, per_page, pages as nat);
    assert(pages * per_page >= total) by (nonlinear_arith)
        requires
            total == per_page * (total / per_page) + total % per_page,
            total % per_page < per_page,
            0 < per_page,
            pages == total / per_page + (if total % per_page == 0 {
                0int
            } else {
                1int
            }),
    ;
    assert(list.take(total) =~= list);
    assert((beyond - 1) * per_page >= pages * per_page) by (nonlinear_arith)
        requires
            beyond - 1 >= pages,
            0 < per_page,
    ;
}

/// Reading a listing from its end shows on page 1 first what was added last.
pub proof fn law_newest_comes_first<T>(all: Seq<T>, per_page: int)
    requires
        all.len() > 0,
        0 < per_page,
    ensures
        page_slice(ordered(all, true), 1, per_page).len() > 0,
        page_slice(ordered(all, true), 1, per_page)[0] == all.last(),
        page_slice(ordered(all, false), 1, per_page)[0] == all.first(),
{
}

/// A page holds the items at its own place in the listing, as many as fit on it and are
/// left; page 0 is page 1. There are just as many pages as it takes to hold all items.
pub proof fn law_page_is_cut_at_its_place<T>(list: Seq<T>, page: int, per_page: int, k: int)
    requires
        1 <= page,
        0 < per_page,
    ensures
        ({
            let items = page_slice(list, page, per_page);
            let first = (page - 1) * per_page;
            let pages = page_count(list.len() as int, per_page);
            &&& items.len() == (if first >= list.len() {
                0
            } else if list.len() - first < per_page {
                list.len() - first
            } else {
                per_page
            })
            &&& 0 <= k < items.len() ==> items[k] == list[first + k]
            &&& page_slice(list, 0, per_page) == page_slice(list, 1, per_page)
            &&& list.len() <= pages * per_page
            &&& list.len() > 0 ==> (pages - 1) * per_page < list.len()
            &&& list.len() == 0 ==> pages == 0
        }),
{
    let total = list.len() as int;
    assert((page - 1) * per_page >= 0) by (nonlinear_arith)
        requires
            1 <= page,
            0 < per_page,
    ;
    assert((1int - 1) * per_page == 0);
    lemma_page_count(total, per_page);
    lemma_fundamental_div_mod(total, per_page);
    let q = total / per_page;
    let m = total % per_page;
    let pages = page_count(total, per_page);
    assert(total <= pages * per_page && (total > 0 ==> (pages - 1) * per_page < total))
        by (nonlinear_arith)
        requires
            total == per_page * q + m,
            0 <= m < per_page,
            pages == q + (if m == 0 {
                0int
            } else {
                1int
            }),
            0 <= total,
    ;
    if total == 0 {
        assert(q == 0) by (nonlinear_arith)
            requires
                0 == per_page * q + m,
                0 <= m < per_page,
        ;
    }
}

/// A page of no items at all is empty, and there are no such pages.
pub proof fn law_pages_of_nothing<T>(list: Seq<T>, page: int)
    ensures
        page_slice(list, page, 0).len() == 0,
        page_count(list.len() as int, 0) == 0,
{
    assert((page - 1) * 0 == 0);
}

/// Reading a listing from its end gives the same items, the last one first.
pub proof fn law_order_of_reading<T>(all: Seq<T>, k: int)
    requires
        0 <= k < all.len(),
    ensures
        ordered(all, true).len() == all.len(),
        ordered(all, true)[k] == all[all.len() - 1 - k],
        ordered(all, false) == all,
{
}

} // verus!
