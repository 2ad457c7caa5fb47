use vstd::prelude::*;

verus! {

/// The page asked for when none is given.
pub fn default_page() -> (r: u64)
    ensures
        r == 1,
{
    1
}

/// The page size used when none is given.
pub fn default_per_page() -> (r: u64)
    ensures
        r == 100,
{
    100
}

/// Raw pagination parameters as a caller supplied them.
#[derive(Clone, Copy, Debug)]
pub struct PaginationParams {
    /// The 1-based page asked for.
    pub page: u64,
    /// How many items per page.
    pub per_page: u64,
}

impl PaginationParams {
    /// Validates and normalizes the parameters: the page is at least 1, and
    /// the page size is clamped between 1 and 500.
    pub fn validate(&self) -> (r: ValidatedPagination)
        ensures
            r.page == if self.page >= 1 {
                self.page
            } else {
                1
            },
            r.per_page == if self.per_page < 1 {
                1
            } else if self.per_page > 500 {
                500
            } else {
                self.per_page
            },
            1 <= r.page,
            1 <= r.per_page <= 500,
    {
        let page = if self.page >= 1 {
            self.page
        } else {
            1
        };
        let per_page = if self.per_page < 1 {
            1
        } else if self.per_page > 500 {
            500
        } else {
            self.per_page
        };
        ValidatedPagination { page, per_page }
    }
}

/// Pagination parameters that passed validation.
#[derive(Clone, Copy, Debug)]
pub struct ValidatedPagination {
    /// The 1-based page; at least 1.
    pub page: u64,
    /// Items per page; between 1 and 500.
    pub per_page: u64,
}

/// One page of results together with the paging facts a caller needs.
#[derive(Debug)]
pub struct Paginated<T> {
    /// The items of this page.
    pub data: Vec<T>,
    /// How many items exist in all.
    pub total: u64,
    /// Which 1-based page this is.
    pub page: u64,
    /// How many items a full page holds.
    pub per_page: u64,
    /// How many pages exist in all.
    pub total_pages: u64,
}

impl<T> Paginated<T> {
    /// Bundles one page of results with its paging facts.
    pub fn new(data: Vec<T>, total: u64, page: u64, per_page: u64, total_pages: u64) -> (r:
        Paginated<T>)
        ensures
            r.data == data,
            r.total == total,
            r.page == page,
            r.per_page == per_page,
            r.total_pages == total_pages,
    {
        Paginated { data, total, page, per_page, total_pages }
    }
}

} // verus!
