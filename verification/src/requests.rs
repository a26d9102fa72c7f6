//! What callers send: paging parameters and the bodies of the requests.

pub mod auth;
pub mod permission;
pub mod role;
pub mod user;

use vstd::prelude::*;
use vstd::string::StringExecFns;
use crate::text::{lowercase, lowercase_of};

verus! {

/// The direction in which a listing is sorted.
#[derive(Clone, Copy, Debug, PartialEq, Eq, Structural)]
pub enum Sort {
    Asc,
    Desc,
}

/// The paging parameters of a listing; `T` names the column to order by.
#[derive(Clone)]
pub struct PaginationRequest<T> {
    pub page: Option<u64>,
    pub limit: Option<u64>,
    pub search: Option<String>,
    pub order: Option<T>,
    pub sort: Option<Sort>,
}

/// The pattern that finds `search` anywhere in a text, whatever the case:
/// the search text in lower case between two `%`.
pub open spec fn search_pattern(search: Seq<char>) -> Seq<char> {
    seq!['%'] + lowercase_of(search) + seq!['%']
}

impl<T: Copy> PaginationRequest<T> {
    /// The page asked for: at least 1, and 1 where none is given.
    pub open spec fn page_spec(&self) -> u64 {
        match self.page {
            Some(page) => if page < 1 {
                1
            } else {
                page
            },
            None => 1,
        }
    }

    /// The page size asked for, kept between 10 and 100; 10 where none is
    /// given.
    pub open spec fn limit_spec(&self) -> u64 {
        match self.limit {
            Some(limit) => if limit > 100 {
                100
            } else if limit < 10 {
                10
            } else {
                limit
            },
            None => 10,
        }
    }

    /// The page asked for.
    #[verifier::when_used_as_spec(page_spec)]
    pub fn page(&self) -> (page: u64)
        ensures
            page == self.page_spec(),
            page >= 1,
    {
        if let Some(page) = self.page {
            if page < 1 {
                1
            } else {
                page
            }
        } else {
            1
        }
    }

    /// The page size asked for.
    #[verifier::when_used_as_spec(limit_spec)]
    pub fn limit(&self) -> (limit: u64)
        ensures
            limit == self.limit_spec(),
            10 <= limit <= 100,
    {
        if let Some(limit) = self.limit {
            if limit > 100 {
                100
            } else if limit < 10 {
                10
            } else {
                limit
            }
        } else {
            10
        }
    }

    /// How many rows stand before the page asked for.
    pub fn offset(&self) -> (offset: u64)
        requires
            (self.page_spec() - 1) * self.limit_spec() <= u64::MAX,
        ensures
            offset == (self.page_spec() - 1) * self.limit_spec(),
    {
        (self.page() - 1) * self.limit()
    }

    /// How many rows stand before the page asked for; nothing where the
    /// count does not fit in 64 bits.
    pub fn checked_offset(&self) -> (offset: Option<u64>)
        ensures
            match offset {
                Some(rows) => rows == (self.page_spec() - 1) * self.limit_spec(),
                None => (self.page_spec() - 1) * self.limit_spec() > u64::MAX,
            },
    {
        (self.page() - 1).checked_mul(self.limit())
    }

    /// How many full pages `total` rows make.
    pub fn pages(&self, total: u64) -> (pages: u64)
        ensures
            pages == total / self.limit_spec(),
    {
        total / self.limit()
    }

    /// The pattern to search with, where a search text is given.
    pub fn search(&self) -> (pattern: Option<String>)
        ensures
            match self.search {
                Some(search) => pattern is Some && pattern->0@ == search_pattern(search@),
                None => pattern is None,
            },
    {
        match &self.search {
            Some(search) => {
                proof {
                    reveal_strlit("%");
                }
                let lower = lowercase(search.as_str());
                let mut pattern = String::from_str("%");
                pattern.append(lower.as_str());
                pattern.append("%");
                assert(pattern@ =~= search_pattern(search@));
                Some(pattern)
            },
            None => None,
        }
    }

    /// The column to order by: the one asked for, else `default`.
    pub fn order(&self, default: T) -> (column: T)
        ensures
            column == match self.order {
                Some(order) => order,
                None => default,
            },
    {
        if let Some(order) = self.order {
            order
        } else {
            default
        }
    }

    /// The direction to sort in: ascending where none is given.
    pub fn sort(&self) -> (sort: Sort)
        ensures
            sort == match self.sort {
                Some(sort) => sort,
                None => Sort::Asc,
            },
    {
        match self.sort {
            Some(sort) => sort,
            None => Sort::Asc,
        }
    }
}

} // verus!
