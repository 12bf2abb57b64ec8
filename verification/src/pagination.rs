//! Pagination of list endpoints.

use vstd::prelude::*;

verus! {

/// Which page of a list is asked for, and how long a page is.
#[derive(Debug, Clone, Copy)]
pub struct PaginationParams {
    /// Page number, counted from 1.
    pub page: u32,
    /// Number of items on a page.
    pub limit: u32,
}

/// The page that is shown when none is asked for.
pub fn default_page() -> (page: u32)
    ensures
        page == 1,
{
    1
}

/// The length of a page when none is asked for.
pub fn default_limit() -> (limit: u32)
    ensures
        limit == 20,
{
    20
}

/// The greatest length of a page.
pub const MAX_LIMIT: u32 = 100;

impl Default for PaginationParams {
    fn default() -> (params: Self)
        ensures
            params.page == 1,
            params.limit == 20,
    {
        PaginationParams { page: default_page(), limit: default_limit() }
    }
}

impl PaginationParams {
    /// The parameters are usable: the page is at least 1 and the limit is
    /// between 1 and the maximum.
    pub open spec fn is_valid(&self) -> bool {
        self.page >= 1 && 1 <= self.limit <= 100
    }

    /// The parameters that stand for these ones: page 0 means page 1, limit 0
    /// means the default limit, and a limit over the maximum means the maximum.
    pub open spec fn validated(self) -> PaginationParams {
        PaginationParams {
            page: if self.page == 0 {
                1
            } else {
                self.page
            },
            limit: if self.limit == 0 {
                20
            } else if self.limit > 100 {
                100
            } else {
                self.limit
            },
        }
    }

    /// The number of items before the page.
    pub open spec fn offset_spec(&self) -> int {
        if self.page == 0 {
            0
        } else {
            (self.page - 1) * self.limit
        }
    }

    /// The number of items to skip in a query: all the pages before this one.
    #[must_use]
    pub fn offset(&self) -> (skip: u64)
        ensures
            skip == self.offset_spec(),
    {
        let before: u32 = self.page.saturating_sub(1);
        let pages: u64 = before as u64;
        let limit: u64 = self.limit as u64;
        assert(pages * limit <= 0xffff_ffff * 0xffff_ffff) by (nonlinear_arith)
            requires
                pages <= 0xffff_ffff,
                limit <= 0xffff_ffff,
        ;
        assert(pages * limit == self.offset_spec()) by (nonlinear_arith)
            requires
                pages == if self.page == 0 {
                    0int
                } else {
                    self.page - 1
                },
                limit == self.limit,
        ;
        pages * limit
    }

    /// The limit as a `u64`, for a query.
    #[must_use]
    pub fn limit_u64(&self) -> (limit: u64)
        ensures
            limit == self.limit,
    {
        self.limit as u64
    }

    /// Brings the parameters into their valid range.
    pub fn validate(&mut self)
        ensures
            *final(self) == old(self).validated(),
            final(self).is_valid(),
    {
        if self.page == 0 {
            self.page = 1;
        }
        if self.limit == 0 {
            self.limit = default_limit();
        } else if self.limit > MAX_LIMIT {
            self.limit = MAX_LIMIT;
        }
    }
}

/// Validated parameters are valid, and validating them again changes
/// nothing.
pub proof fn lemma_validated(params: PaginationParams)
    ensures
        params.validated().is_valid(),
        params.validated().validated() == params.validated(),
        params.is_valid() ==> params.validated() == params,
{
}

} // verus!
