use vstd::prelude::*;
use crate::error::{Error, Result};

verus! {

/// Largest page size a caller may ask for.
pub const PAGE_LIMIT: u8 = 100;

/// A window into a listing: `limit` records per page, `page` counted from zero.
#[derive(Debug, Clone, Copy, PartialEq, Eq)]
pub struct Page {
    pub limit: u8,
    pub page: u32,
}

impl Page {
    /// The page size is within the maximum.
    pub open spec fn spec_in_bounds(&self) -> bool {
        self.limit <= PAGE_LIMIT
    }

    /// Number of records that precede this page.
    pub open spec fn spec_offset(&self) -> nat {
        (self.limit as nat) * (self.page as nat)
    }

    /// The records of a listing that fall on this page: `limit` records from
    /// `spec_offset` on, as far as the listing goes.
    pub open spec fn spec_slice<T>(&self, all: Seq<T>) -> Seq<T> {
        let start: int = if self.spec_offset() <= all.len() {
            self.spec_offset() as int
        } else {
            all.len() as int
        };
        let end: int = if self.spec_offset() + self.limit <= all.len() {
            self.spec_offset() + self.limit
        } else {
            all.len() as int
        };
        all.subrange(start, end)
    }

    /// The page of index `page` among pages of `limit` records.
    pub fn new(limit: u8, page: u32) -> (r: Page)
        ensures
            r.limit == limit,
            r.page == page,
    {
        Page { limit, page }
    }

    /// The page size, refused when it is above `PAGE_LIMIT`.
    pub fn get_limit(&self) -> (r: Result<u8>)
        ensures
            self.spec_in_bounds() ==> r == Ok::<u8, Error>(self.limit),
            !self.spec_in_bounds() ==> r == Err::<u8, Error>(Error::ErrLimitOutOfBonds),
    {
        if self.limit > PAGE_LIMIT {
            return Err(Error::ErrLimitOutOfBonds);
        }
        Ok(self.limit)
    }

    /// The page size and the offset of the page's first record. A size above
    /// `PAGE_LIMIT` is refused, never cut down.
    pub fn compute(&self) -> (r: Result<(u8, u64)>)
        ensures
            self.spec_in_bounds() ==> r == Ok::<(u8, u64), Error>(
                (self.limit, self.spec_offset() as u64),
            ),
            self.spec_in_bounds() ==> r->Ok_0.1 == self.spec_offset(),
            !self.spec_in_bounds() ==> r == Err::<(u8, u64), Error>(Error::ErrLimitOutOfBonds),
    {
        let limit = self.get_limit()?;
        assert((self.limit as nat) * (self.page as nat) <= 255 * 0xffff_ffff) by (nonlinear_arith)
            requires
                self.limit <= 255,
                self.page <= 0xffff_ffff,
        ;
        Ok((limit, limit as u64 * self.page as u64))
    }

    /// The offset of the page's first record, where it fits the result type.
    pub fn get_offset(&self) -> (r: u32)
        requires
            self.spec_offset() <= u32::MAX,
        ensures
            r == self.spec_offset(),
    {
        self.limit as u32 * self.page
    }
}

/// The page of index `index` among pages of `size` records.
pub open spec fn spec_page(size: u8, index: u32) -> Page {
    Page { limit: size, page: index }
}

/// The first `count` pages of `size` records of a listing, one after the other.
pub open spec fn spec_pages<T>(all: Seq<T>, size: u8, count: nat) -> Seq<T>
    decreases count,
{
    if count == 0 {
        Seq::empty()
    } else {
        spec_pages(all, size, (count - 1) as nat) + spec_page(size, (count - 1) as u32).spec_slice(
            all,
        )
    }
}

/// The number of pages that `total` records fill, the last one perhaps in part.
pub open spec fn spec_page_count(total: nat, size: nat) -> nat {
    if size == 0 {
        0
    } else {
        ((total + size - 1) / (size as int)) as nat
    }
}

/// The first `count` pages hold the first `size * count` records, or all of them.
proof fn lemma_pages_prefix<T>(all: Seq<T>, size: u8, count: nat)
    requires
        count <= 0x1_0000_0000,
    ensures
        spec_pages(all, size, count) == all.subrange(
            0,
            if size * count <= all.len() {
                (size * count) as int
            } else {
                all.len() as int
            },
        ),
    decreases count,
{
    let s = size as nat;
    if count == 0 {
        assert(s * count == 0) by (nonlinear_arith)
            requires
                count == 0,
        ;
        assert(spec_pages(all, size, count) =~= all.subrange(0, 0));
    } else {
        let before = (count - 1) as nat;
        lemma_pages_prefix(all, size, before);
        assert(s * before + s == s * count) by (nonlinear_arith)
            requires
                before + 1 == count,
        ;
        let page = spec_page(size, before as u32);
        assert(page.spec_offset() == s * before);
        let end = if s * count <= all.len() {
            (s * count) as int
        } else {
            all.len() as int
        };
        assert(spec_pages(all, size, count) =~= all.subrange(0, end));
    }
}

/// Pages partition a listing: for a page size between 1 and `PAGE_LIMIT`, the pages
/// `0 .. spec_page_count` of a listing, taken one after the other, are exactly the
/// listing; every page but the last is full; and the last page holds the remainder of
/// the division of the total by the page size, or a full page where that is zero.
pub proof fn lemma_pages_partition<T>(all: Seq<T>, size: u8)
    requires
        1 <= size <= PAGE_LIMIT,
        spec_page_count(all.len(), size as nat) <= 0x1_0000_0000,
    ensures
        spec_pages(all, size, spec_page_count(all.len(), size as nat)) == all,
        forall|i: u32|
            i + 1 < spec_page_count(all.len(), size as nat) ==> (#[trigger] spec_page(
                size,
                i,
            ).spec_slice(all)).len() == size,
        all.len() > 0 ==> spec_page_count(all.len(), size as nat) > 0 && spec_page(
            size,
            (spec_page_count(all.len(), size as nat) - 1) as u32,
        ).spec_slice(all).len() == (if all.len() % (size as nat) == 0 {
            size as nat
        } else {
            all.len() % (size as nat)
        }),
{
    let n = all.len();
    let s = size as nat;
    let count = spec_page_count(n, s);
    assert(s * count >= n && (n > 0 ==> s * (count - 1) < n) && (n == 0 ==> count == 0)
        && (n > 0 ==> count > 0)) by (nonlinear_arith)
        requires
            s >= 1,
            count == ((n + s - 1) / (s as int)) as nat,
    ;
    lemma_pages_prefix(all, size, count);
    assert(all.subrange(0, n as int) =~= all);
    assert forall|i: u32| i + 1 < count implies (#[trigger] spec_page(size, i).spec_slice(
        all,
    )).len() == s by {
        assert(s * i + s <= n) by (nonlinear_arith)
            requires
                i + 1 < count,
                n > 0 ==> s * (count - 1) < n,
                n == 0 ==> count == 0,
                s >= 1,
        ;
    }
    if n > 0 {
        let last = (count - 1) as nat;
        assert(s * last < n);
        assert(s * last + s >= n) by (nonlinear_arith)
            requires
                s * count >= n,
                last + 1 == count,
        ;
        assert(n - s * last == (if n % s == 0 {
            s
        } else {
            n % s
        })) by (nonlinear_arith)
            requires
                s >= 1,
                s * last < n,
                s * last + s >= n,
        ;
        let page = spec_page(size, last as u32);
        assert(page.spec_offset() == s * last);
    }
}

} // verus!
