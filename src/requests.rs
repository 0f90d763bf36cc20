//! Bodies and query strings of the HTTP requests, and pagination.

use vstd::prelude::*;
use crate::account::{AccountNameTrait, AccountType, AccountTypeView};

verus! {

/// A query string holding an email address.
#[derive(Debug, Clone)]
pub struct EmailQuery {
    pub email: String,
}

/// The body of a login request.
#[derive(Debug, Clone)]
pub struct LoginBody {
    pub email: String,
}

/// The body of a login confirmation.
#[derive(Debug, Clone)]
pub struct ConfirmLoginBody {
    pub email: String,
    pub confirmation_id: String,
    pub confirmation_code: String,
}

/// The body of a post confirmation.
#[derive(Debug, Clone)]
pub struct ConfirmPostBody {
    pub post_id: u32,
    pub confirmation_id: String,
    pub confirmation_code: String,
}

/// An account before it is stored.
#[derive(Debug, Clone)]
pub struct DBAccount {
    pub slug: String,
    pub email: String,
    pub account_type: AccountType,
}

impl AccountNameTrait for DBAccount {
    open spec fn type_of(&self) -> AccountTypeView {
        self.account_type@
    }

    fn get_display_name(&self) -> (r: String) {
        self.account_type.display_name()
    }

    fn get_names(&self) -> (r: (Option<&String>, Option<&String>, Option<&String>)) {
        self.account_type.names()
    }
}

/// A post before it is stored.
#[derive(Debug, Clone)]
pub struct DBPost {
    pub slug: String,
    pub title: String,
    pub poster_id: u32,
    pub short_description: String,
    pub description: String,
    pub tag_ids: Vec<u32>,
    pub is_confirmed: bool,
    pub published_at: String,
}

/// The body of a request creating a post by an existing poster.
#[derive(Debug, Clone)]
pub struct CreateOnePostBody {
    pub post: DBPost,
}

/// The body of a request creating a post together with its poster.
#[derive(Debug, Clone)]
pub struct CreateOnePostWithPosterBody {
    pub poster: DBAccount,
    pub post: DBPost,
}

/// A page of a listing, as requested.
#[derive(Debug, Clone, Copy, PartialEq, Eq, Structural)]
pub struct PaginationQuery {
    pub page: u32,
    pub per_page: u32,
}

/// A page of a listing, as the database reads it.
#[derive(Debug, Clone, Copy, PartialEq, Eq, Structural)]
pub struct DBPaginationQuery {
    pub limit: u32,
    pub start: u32,
}

/// Conversion of a requested page to rows.
pub trait PaginationQueryTrait {
    /// The page's first row fits in `u32`.
    spec fn fits(&self) -> bool;

    /// The rows of the page: `limit` rows from row `start`.
    spec fn db_query_of(&self) -> DBPaginationQuery;

    fn to_db_query(&self) -> (r: DBPaginationQuery)
        requires
            self.fits(),
        ensures
            r == self.db_query_of(),
    ;
}

impl PaginationQueryTrait for PaginationQuery {
    open spec fn fits(&self) -> bool {
        self.page * self.per_page <= u32::MAX
    }

    open spec fn db_query_of(&self) -> DBPaginationQuery {
        DBPaginationQuery { limit: self.per_page, start: (self.page * self.per_page) as u32 }
    }

    fn to_db_query(&self) -> (r: DBPaginationQuery) {
        let start = self.page * self.per_page;
        let limit = self.per_page;
        DBPaginationQuery { limit, start }
    }
}

} // verus!
