//! Splitting a sequence into fixed-size pages.
//!
//! The page count is the ceiling of `len / size`: a sequence whose length is
//! a multiple of the size gets no trailing empty page, and an empty sequence
//! gets no page at all.
use vstd::prelude::*;

verus! {

/// The page size used when none, or no positive one, is given.
pub const DEFAULT_PAGE_SIZE: usize = 10;

/// One page: the items `[start, end)` of the sequence, with the bindings a
/// page fragment sees (`size`, the 1-based `index`, and `count`).
#[derive(Clone, Copy, Debug, PartialEq, Eq, Structural)]
pub struct Page {
    pub start: usize,
    pub end: usize,
    pub size: usize,
    pub index: usize,
    pub count: usize,
}

/// The page size from an optional parameter: the parameter when positive
/// (and addressable), else the default.
pub fn page_size(param: Option<u64>) -> (r: usize)
    ensures
        r == (match param {
            Some(n) => if 0 < n && n <= usize::MAX { n as usize } else { DEFAULT_PAGE_SIZE },
            None => DEFAULT_PAGE_SIZE,
        }),
        r > 0,
{
    match param {
        Some(n) => {
            if 0 < n && n <= usize::MAX as u64 {
                n as usize
            } else {
                DEFAULT_PAGE_SIZE
            }
        },
        None => DEFAULT_PAGE_SIZE,
    }
}

/// The number of pages: `len / size` rounded up.
pub open spec fn page_count(len: nat, size: nat) -> nat
    recommends
        size > 0,
{
    if len % size == 0 {
        len / size
    } else {
        len / size + 1
    }
}

pub open spec fn page_start(size: nat, k: nat) -> nat {
    k * size
}

pub open spec fn page_end(len: nat, size: nat, k: nat) -> nat {
    if k * size + size <= len {
        k * size + size
    } else {
        len
    }
}

/// The items of page `k` (0-based).
pub open spec fn page_items<A>(items: Seq<A>, size: nat, k: nat) -> Seq<A> {
    items.subrange(page_start(size, k) as int, page_end(items.len(), size, k) as int)
}

/// The first `m` pages, joined.
pub open spec fn joined_pages<A>(items: Seq<A>, size: nat, m: nat) -> Seq<A>
    decreases m,
{
    if m == 0 {
        Seq::empty()
    } else {
        joined_pages(items, size, (m - 1) as nat) + page_items(items, size, (m - 1) as nat)
    }
}

/// Splits `len` items into pages of `size`, in ascending order.
pub fn paginate(len: usize, size: usize) -> (r: Vec<Page>)
    requires
        size > 0,
    ensures
        r@.len() == page_count(len as nat, size as nat),
        forall|k: int|
            0 <= k < r@.len() ==> {
                &&& (#[trigger] r@[k]).start == page_start(size as nat, k as nat)
                &&& r@[k].end == page_end(len as nat, size as nat, k as nat)
                &&& r@[k].size == size
                &&& r@[k].index == k + 1
                &&& r@[k].count == r@.len()
            },
{
    let count: usize = if len % size == 0 {
        len / size
    } else {
        proof {
            let q = len / size;
            assert(q < usize::MAX) by (nonlinear_arith)
                requires q == len / size, size >= 2, len <= usize::MAX;
        }
        len / size + 1
    };
    proof {
        if 0 < count {
            lemma_page_start_below(len as nat, size as nat, 0);
        }
    }
    let mut pages: Vec<Page> = Vec::new();
    let mut k: usize = 0;
    let mut start: usize = 0;
    while k < count
        invariant
            count == page_count(len as nat, size as nat),
            size > 0,
            k <= count,
            pages@.len() == k,
            k < count ==> start == k * size,
            k < count ==> start < len,
            forall|j: int|
                0 <= j < k ==> {
                    &&& (#[trigger] pages@[j]).start == page_start(size as nat, j as nat)
                    &&& pages@[j].end == page_end(len as nat, size as nat, j as nat)
                    &&& pages@[j].size == size
                    &&& pages@[j].index == j + 1
                    &&& pages@[j].count == count
                },
        decreases count - k,
    {
        let end: usize = if len - start < size {
            len
        } else {
            start + size
        };
        pages.push(Page { start, end, size, index: k + 1, count });
        proof {
            assert((k + 1) * size == k * size + size) by (nonlinear_arith);
            if k + 1 < count {
                lemma_page_start_below(len as nat, size as nat, (k + 1) as nat);
            }
        }
        if end < len {
            start = end;
        } else {
            start = len;
            proof {
                if k + 1 < count {
                    lemma_page_start_below(len as nat, size as nat, (k + 1) as nat);
                    assert(false);
                }
            }
        }
        k = k + 1;
        proof {
            assert((k - 1) * size + size == k * size) by (nonlinear_arith);
            if k < count {
                lemma_page_start_below(len as nat, size as nat, k as nat);
            }
        }
    }
    pages
}

proof fn lemma_page_start_below(len: nat, size: nat, k: nat)
    requires
        size > 0,
        k < page_count(len, size),
    ensures
        k * size < len,
{
    let q = len / size;
    let r = len % size;
    assert(len == q * size + r) by (nonlinear_arith)
        requires q == len / size, r == len % size, size > 0;
    if r == 0 {
        assert(k < q);
        assert(k * size < q * size) by (nonlinear_arith)
            requires k < q, size > 0;
    } else {
        assert(k <= q);
        assert(k * size <= q * size) by (nonlinear_arith)
            requires k <= q, size > 0;
    }
}

proof fn lemma_joined_prefix<A>(items: Seq<A>, size: nat, m: nat)
    requires
        size > 0,
        m <= page_count(items.len(), size),
    ensures
        m * size <= items.len() ==> joined_pages(items, size, m) == items.subrange(0, (m * size) as int),
        m * size > items.len() ==> joined_pages(items, size, m) == items,
    decreases m,
{
    if m > 0 {
        let k = (m - 1) as nat;
        lemma_joined_prefix(items, size, k);
        lemma_page_start_below(items.len(), size, k);
        assert(k * size + size == m * size) by (nonlinear_arith)
            requires k + 1 == m;
        if m * size <= items.len() {
            assert(joined_pages(items, size, m) =~= items.subrange(0, (m * size) as int));
        } else {
            assert(joined_pages(items, size, m) =~= items);
        }
    }
}

/// Pages cover the sequence exactly: joined in ascending order they give
/// back the whole sequence; every page but the last holds `size` items,
/// and the last holds `len mod size` items, or `size` when that is zero.
pub proof fn lemma_pages_cover<A>(items: Seq<A>, size: nat)
    requires
        size > 0,
    ensures
        joined_pages(items, size, page_count(items.len(), size)) == items,
        forall|k: nat|
            k + 1 < page_count(items.len(), size) ==> #[trigger] page_items(items, size, k).len()
                == size,
        page_count(items.len(), size) > 0 ==> page_items(
            items,
            size,
            (page_count(items.len(), size) - 1) as nat,
        ).len() == (if items.len() % size == 0 {
            size
        } else {
            items.len() % size
        }),
{
    let n = items.len();
    let c = page_count(n, size);
    let q = n / size;
    let r = n % size;
    assert(n == q * size + r) by (nonlinear_arith)
        requires q == n / size, r == n % size, size > 0;
    lemma_joined_prefix(items, size, c);
    if r == 0 {
        assert(c * size == n);
    } else {
        assert(c * size == q * size + size) by (nonlinear_arith)
            requires c == q + 1;
    }
    assert forall|k: nat| k + 1 < c implies #[trigger] page_items(items, size, k).len() == size by {
        lemma_page_start_below(n, size, k + 1);
        assert((k + 1) * size == k * size + size) by (nonlinear_arith);
    }
    if c > 0 {
        let l = (c - 1) as nat;
        lemma_page_start_below(n, size, l);
        if r == 0 {
            assert(l * size + size == c * size) by (nonlinear_arith)
                requires l + 1 == c;
        } else {
            assert(l == q);
        }
    }
}

} // verus!
