//! Pages of a list: which rows a page asks for, and what it says of its neighbours.

use vstd::prelude::*;

verus! {

/// The number of rows of a page where none is asked for.
pub const DEFAULT_PER_PAGE: i64 = 10;

/// The number of rows of a page of users that is cut out between two ids.
pub const MAX_PAGE_SIZE: i64 = 100;

/// The rows that a page of users asks for.
#[derive(Debug)]
pub enum UsersPage {
    /// The users whose ids lie between the two, both included, a hundred to the page.
    Between { after: String, before: String, per_page: i64 },
    /// All users, `per_page` to the page.
    First { per_page: i64 },
}

/// The number of rows that stand before a page; `None` where it cannot be held.
pub open spec fn rows_before(page: i64, per_page: i64) -> Option<i64> {
    if i64::MIN <= (page - 1) * per_page <= i64::MAX && i64::MIN <= page - 1 {
        Some(((page - 1) * per_page) as i64)
    } else {
        None
    }
}

/// The number of rows that stand before the page `page` of `per_page` rows each.
pub fn page_offset(page: i64, per_page: i64) -> (r: Option<i64>)
    ensures
        r == rows_before(page, per_page),
{
    match page.checked_sub(1) {
        Some(pages) => pages.checked_mul(per_page),
        None => None,
    }
}

/// The page that the four arguments of a list of users ask for. Two ids and a
/// number of rows ask for the users between the ids; a number of rows alone asks for
/// the first users; every other choice of arguments asks for nothing that is served.
pub fn users_page(after: Option<String>, before: Option<String>, first: Option<usize>, last: Option<usize>) -> (r:
    Option<UsersPage>)
    requires
        first matches Some(n) ==> n <= i64::MAX,
    ensures
        match (after, before, first, last) {
            (Some(a), Some(b), Some(_), None) => r matches Some(UsersPage::Between { after, before, per_page })
                && after == a && before == b && per_page == MAX_PAGE_SIZE,
            (None, None, Some(n), None) => r matches Some(UsersPage::First { per_page }) && per_page == n,
            _ => r is None,
        },
{
    match (after, before, first, last) {
        (Some(after), Some(before), Some(_), None) => Some(
            UsersPage::Between { after, before, per_page: MAX_PAGE_SIZE },
        ),
        (None, None, Some(n), None) => Some(UsersPage::First { per_page: n as i64 }),
        _ => None,
    }
}

/// Whether a page has one before it, and one behind it.
pub fn page_neighbours(page: i64, total_pages: i64) -> (r: (bool, bool))
    ensures
        r.0 == (page > 1),
        r.1 == (page < total_pages),
{
    (page > 1, page < total_pages)
}

} // verus!
