//! Texts derived from a post and its poster: its URL and its long title.

use vstd::prelude::*;
use crate::account::{display_name, Account, AccountTypeView, CompactAccount};
use crate::post::{CompactPost, Post};
use crate::text::{concat, decimal_text, decimal_u64};

verus! {

/// "at" for a company poster, "by" for a person.
pub open spec fn where_is(t: AccountTypeView) -> Seq<char> {
    match t {
        AccountTypeView::Company { .. } => seq!['a', 't'],
        _ => seq!['b', 'y'],
    }
}

fn where_is_text(poster_is_company: bool) -> (r: &'static str)
    ensures
        poster_is_company ==> r@ == seq!['a', 't'],
        !poster_is_company ==> r@ == seq!['b', 'y'],
{
    proof {
        reveal_strlit("at");
        reveal_strlit("by");
    }
    if poster_is_company {
        "at"
    } else {
        "by"
    }
}

/// The path of a post's page: `/jobs/<post slug>_<at|by>_<poster slug>_<post id>`.
pub open spec fn post_url(post_slug: Seq<char>, t: AccountTypeView, poster_slug: Seq<char>, id: u32) -> Seq<char> {
    seq!['/', 'j', 'o', 'b', 's', '/'] + post_slug + seq!['_'] + where_is(t) + seq!['_'] + poster_slug
        + seq!['_'] + decimal_text(id as int)
}

/// The path of a post's page.
pub fn get_post_url(post: &CompactPost, poster: &CompactAccount) -> (r: String)
    ensures
        r@ == post_url(post.slug@, poster.account_type@, poster.slug@, post.id),
{
    let is_company = match &poster.account_type {
        crate::account::AccountType::Company { .. } => true,
        _ => false,
    };
    proof {
        reveal_strlit("/jobs/");
        reveal_strlit("_");
    }
    let r = concat("/jobs/", post.slug.as_str());
    let r = concat(r.as_str(), "_");
    let r = concat(r.as_str(), where_is_text(is_company));
    let r = concat(r.as_str(), "_");
    let r = concat(r.as_str(), poster.slug.as_str());
    let r = concat(r.as_str(), "_");
    let id = decimal_u64(post.id as u64);
    let r = concat(r.as_str(), id.as_str());
    proof {
        assert(r@ =~= post_url(post.slug@, poster.account_type@, poster.slug@, post.id));
    }
    r
}

/// A post's title followed by ` needed <at|by> <poster name>`.
pub open spec fn post_long_title(title: Seq<char>, t: AccountTypeView) -> Seq<char> {
    title + seq![' ', 'n', 'e', 'e', 'd', 'e', 'd', ' '] + where_is(t) + seq![' '] + display_name(t)
}

/// A post's title followed by who needs the job done.
pub fn get_post_long_title(post: &Post, poster: &Account) -> (r: String)
    ensures
        r@ == post_long_title(post.title@, poster.account_type@),
{
    let is_company = match &poster.account_type {
        crate::account::AccountType::Company { .. } => true,
        _ => false,
    };
    proof {
        reveal_strlit(" needed ");
        reveal_strlit(" ");
    }
    let name = poster.account_type.display_name();
    let r = concat(post.title.as_str(), " needed ");
    let r = concat(r.as_str(), where_is_text(is_company));
    let r = concat(r.as_str(), " ");
    let r = concat(r.as_str(), name.as_str());
    proof {
        assert(r@ =~= post_long_title(post.title@, poster.account_type@));
    }
    r
}

} // verus!
