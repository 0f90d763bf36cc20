//! Generated sample records, used to seed a development database.

use vstd::prelude::*;
use crate::account::{account_merged, account_view, Account, AccountType, AccountTypeView, AccountView, PartialAccount};
use crate::category::{PartialCategoryTrait, category_merged, category_view, Category, CategoryView, PartialCategory};
use crate::post::{PartialPostTrait, post_merged, post_view, PartialPost, Post, PostView};
use crate::tag::{PartialTagTrait, tag_merged, tag_view, PartialTag, Tag, TagView};
use crate::text::decimal_i64;
use crate::text::{concat, decimal_text, decimal_u64};

verus! {

/// The sample account of identifier `id`.
pub open spec fn account_mock(id: u32) -> AccountView {
    AccountView {
        id,
        slug: "account_"@ + decimal_text(id as int),
        email: "moh_debbabi_mock_"@ + decimal_text(id as int) + "@algeriastartupjobs.com"@,
        account_type: AccountTypeView::Individual {
            first_name: "Moh "@ + decimal_text(id as int),
            last_name: "Debbabi "@ + decimal_text(id as int),
        },
    }
}

/// The sample account of identifier `account_id`.
pub fn generate_one_account_mock(account_id: u32) -> (r: Account)
    ensures
        account_view(r) == account_mock(account_id),
{
    let n = decimal_u64(account_id as u64);
    let slug = concat("account_", n.as_str());
    let first_name = concat("Moh ", n.as_str());
    let last_name = concat("Debbabi ", n.as_str());
    let email = concat("moh_debbabi_mock_", n.as_str());
    let email = concat(email.as_str(), "@algeriastartupjobs.com");
    Account {
        id: account_id,
        slug,
        account_type: AccountType::Individual { first_name, last_name },
        email,
    }
}

/// The sample accounts of identifiers `from` up to `to`, excluded, each with
/// the fields that `overwrite` gives for its identifier in place of the
/// generated ones.
pub fn generate_many_account_mocks_with_overwrite<F: Fn(u32) -> PartialAccount>(
    from: u32,
    to: u32,
    overwrite: Option<F>,
) -> (r: Vec<Account>)
    requires
        overwrite matches Some(f) ==> forall|i: u32| call_requires(f, (i,)),
    ensures
        r@.len() == if from <= to { to - from } else { 0 },
        forall|k: int| #![trigger r@[k]]
            0 <= k < r@.len() ==> match overwrite {
                None => account_view(#[trigger] r@[k]) == account_mock((from + k) as u32),
                Some(f) => exists|p: PartialAccount|
                    #[trigger] call_ensures(f, ((from + k) as u32,), p) && account_view(r@[k])
                        == account_merged(p, account_mock((from + k) as u32)),
            },
{
    let mut accounts: Vec<Account> = Vec::new();
    let mut i = from;
    while i < to
        invariant
            from <= to ==> from <= i <= to,
            from > to ==> i == from,
            accounts@.len() == i - from,
            overwrite matches Some(f) ==> forall|i: u32| call_requires(f, (i,)),
            forall|k: int| #![trigger accounts@[k]]
                0 <= k < accounts@.len() ==> match overwrite {
                    None => account_view(#[trigger] accounts@[k]) == account_mock((from + k) as u32),
                    Some(f) => exists|p: PartialAccount|
                        #[trigger] call_ensures(f, ((from + k) as u32,), p) && account_view(accounts@[k])
                            == account_merged(p, account_mock((from + k) as u32)),
                },
        decreases to - i,
    {
        let account = match &overwrite {
            Some(f) => {
                let partial = f(i);
                let default = generate_one_account_mock(i);
                let merged = Account {
                    id: match partial.id {
                        Some(id) => id,
                        None => default.id,
                    },
                    slug: match partial.slug {
                        Some(s) => s,
                        None => default.slug,
                    },
                    account_type: match partial.account_type {
                        Some(t) => t,
                        None => default.account_type,
                    },
                    email: match partial.email {
                        Some(e) => e,
                        None => default.email,
                    },
                };
                proof {
                    assert(account_view(merged) == account_merged(partial, account_mock(i)));
                }
                merged
            },
            None => generate_one_account_mock(i),
        };
        accounts.push(account);
        i = i + 1;
    }
    accounts
}

/// The sample accounts of identifiers `from` up to `to`, excluded.
pub fn generate_many_account_mocks(from: u32, to: u32) -> (r: Vec<Account>)
    ensures
        r@.len() == if from <= to { to - from } else { 0 },
        forall|k: int| 0 <= k < r@.len() ==> account_view(#[trigger] r@[k]) == account_mock((from + k) as u32),
{
    let no_overwrite = |_id: u32| -> (p: PartialAccount)
        ensures
            (p.id is None && p.slug is None && p.email is None && p.account_type is None),
        { PartialAccount { id: None, slug: None, email: None, account_type: None } };
    let r = generate_many_account_mocks_with_overwrite(from, to, Some(no_overwrite));
    proof {
        assert forall|k: int| 0 <= k < r@.len() implies account_view(#[trigger] r@[k]) == account_mock(
            (from + k) as u32,
        ) by {
            let p = choose|p: PartialAccount|
                #[trigger] call_ensures(no_overwrite, ((from + k) as u32,), p) && account_view(r@[k])
                    == account_merged(p, account_mock((from + k) as u32));
        }
    }
    r
}


/// Entry `t` is the sample of identifier `i`, with the fields `overwrite`
/// gives for `i` in place of the generated ones.
pub open spec fn tag_entry_ok<F: Fn(u32) -> PartialTag>(t: Tag, i: u32, overwrite: Option<F>) -> bool {
    match overwrite {
        None => tag_view(t) == tag_mock(i),
        Some(f) => exists|p: PartialTag| #[trigger] call_ensures(f, (i,), p) && tag_view(t) == tag_merged(p, tag_mock(i)),
    }
}

/// The sample tag of identifier `id`.
pub open spec fn tag_mock(id: u32) -> TagView {
    TagView { id, slug: "tag_"@ + decimal_text(id as int), name: "Tag "@ + decimal_text(id as int) }
}

/// The sample tag of identifier `tag_id`.
pub fn generate_one_tag_mock(tag_id: u32) -> (r: Tag)
    ensures
        tag_view(r) == tag_mock(tag_id),
{
    let n = decimal_u64(tag_id as u64);
    Tag { id: tag_id, slug: concat("tag_", n.as_str()), name: concat("Tag ", n.as_str()) }
}

/// The sample tags of identifiers `from` up to `to`, excluded, each with the
/// fields that `overwrite` gives for its identifier in place of the generated
/// ones.
pub fn generate_many_tag_mocks_with_overwrite<F: Fn(u32) -> PartialTag>(
    from: u32,
    to: u32,
    overwrite: Option<F>,
) -> (r: Vec<Tag>)
    requires
        overwrite matches Some(f) ==> forall|i: u32| call_requires(f, (i,)),
    ensures
        r@.len() == if from <= to { to - from } else { 0 },
        forall|k: int|
            0 <= k < r@.len() ==> tag_entry_ok(#[trigger] r@[k], (from + k) as u32, overwrite),
{
    let mut tags: Vec<Tag> = Vec::new();
    let mut i = from;
    while i < to
        invariant
            from <= to ==> from <= i <= to,
            from > to ==> i == from,
            tags@.len() == i - from,
            overwrite matches Some(f) ==> forall|i: u32| call_requires(f, (i,)),
            forall|k: int|
                0 <= k < tags@.len() ==> tag_entry_ok(#[trigger] tags@[k], (from + k) as u32, overwrite),
        decreases to - i,
    {
        let tag = match &overwrite {
            Some(f) => {
                let partial = f(i);
                let default = generate_one_tag_mock(i);
                let merged = partial.to_tag(default);
                proof {
                    assert(tag_view(merged) == tag_merged(partial, tag_mock(i)));
                }
                merged
            },
            None => generate_one_tag_mock(i),
        };
        proof {
            assert(tag_entry_ok(tag, i, overwrite));
        }
        tags.push(tag);
        i = i + 1;
    }
    tags
}

/// The sample tags of identifiers `from` up to `to`, excluded.
pub fn generate_many_tag_mocks(from: u32, to: u32) -> (r: Vec<Tag>)
    ensures
        r@.len() == if from <= to { to - from } else { 0 },
        forall|k: int| 0 <= k < r@.len() ==> tag_view(#[trigger] r@[k]) == tag_mock((from + k) as u32),
{
    let no_overwrite = |_id: u32| -> (p: PartialTag)
        ensures
            (p.id is None && p.slug is None && p.name is None),
        { PartialTag { id: None, slug: None, name: None } };
    let r = generate_many_tag_mocks_with_overwrite(from, to, Some(no_overwrite));
    proof {
        assert forall|k: int| 0 <= k < r@.len() implies tag_view(#[trigger] r@[k]) == tag_mock(
            (from + k) as u32,
        ) by {
            let p = choose|p: PartialTag|
                #[trigger] call_ensures(no_overwrite, ((from + k) as u32,), p) && tag_view(r@[k])
                    == tag_merged(p, tag_mock((from + k) as u32));
        }
    }
    r
}

/// Entry `t` is the sample of identifier `i`, with the fields `overwrite`
/// gives for `i` in place of the generated ones.
pub open spec fn category_entry_ok<F: Fn(i32) -> PartialCategory>(t: Category, i: i32, overwrite: Option<F>) -> bool {
    match overwrite {
        None => category_view(t) == category_mock(i),
        Some(f) => exists|p: PartialCategory| #[trigger] call_ensures(f, (i,), p) && category_view(t) == category_merged(p, category_mock(i)),
    }
}

/// The sample category of identifier `id`.
pub open spec fn category_mock(id: i32) -> CategoryView {
    CategoryView {
        id,
        slug: "category_"@ + decimal_text(id as int),
        name: "Category "@ + decimal_text(id as int),
        description: "Description for category "@ + decimal_text(id as int),
    }
}

/// The sample category of identifier `category_id`.
pub fn generate_one_category_mock(category_id: i32) -> (r: Category)
    ensures
        category_view(r) == category_mock(category_id),
{
    let n = decimal_i64(category_id as i64);
    Category {
        id: category_id,
        slug: concat("category_", n.as_str()),
        name: concat("Category ", n.as_str()),
        description: concat("Description for category ", n.as_str()),
    }
}

/// The sample categories of identifiers `from` up to `to`, excluded, each with
/// the fields that `overwrite` gives for its identifier in place of the
/// generated ones.
pub fn generate_many_category_mocks_with_overwrite<F: Fn(i32) -> PartialCategory>(
    from: i32,
    to: i32,
    overwrite: Option<F>,
) -> (r: Vec<Category>)
    requires
        overwrite matches Some(f) ==> forall|i: i32| call_requires(f, (i,)),
    ensures
        r@.len() == if from <= to { to - from } else { 0 },
        forall|k: int|
            0 <= k < r@.len() ==> category_entry_ok(#[trigger] r@[k], (from + k) as i32, overwrite),
{
    let mut categories: Vec<Category> = Vec::new();
    let mut i = from;
    while i < to
        invariant
            from <= to ==> from <= i <= to,
            from > to ==> i == from,
            categories@.len() == i - from,
            overwrite matches Some(f) ==> forall|i: i32| call_requires(f, (i,)),
            forall|k: int|
                0 <= k < categories@.len() ==> category_entry_ok(#[trigger] categories@[k], (from + k) as i32, overwrite),
        decreases to - i,
    {
        let category = match &overwrite {
            Some(f) => {
                let partial = f(i);
                let default = generate_one_category_mock(i);
                let merged = partial.to_category(default);
                proof {
                    assert(category_view(merged) == category_merged(partial, category_mock(i)));
                }
                merged
            },
            None => generate_one_category_mock(i),
        };
        proof {
            assert(category_entry_ok(category, i, overwrite));
        }
        categories.push(category);
        i = i + 1;
    }
    categories
}

/// The sample categories of identifiers `from` up to `to`, excluded.
pub fn generate_many_category_mocks(from: i32, to: i32) -> (r: Vec<Category>)
    ensures
        r@.len() == if from <= to { to - from } else { 0 },
        forall|k: int|
            0 <= k < r@.len() ==> category_view(#[trigger] r@[k]) == category_mock((from + k) as i32),
{
    let no_overwrite = |_id: i32| -> (p: PartialCategory)
        ensures
            (p.id is None && p.slug is None && p.name is None && p.description is None),
        { PartialCategory { id: None, slug: None, name: None, description: None } };
    let r = generate_many_category_mocks_with_overwrite(from, to, Some(no_overwrite));
    proof {
        assert forall|k: int| 0 <= k < r@.len() implies category_view(#[trigger] r@[k])
            == category_mock((from + k) as i32) by {
            let p = choose|p: PartialCategory|
                #[trigger] call_ensures(no_overwrite, ((from + k) as i32,), p) && category_view(r@[k])
                    == category_merged(p, category_mock((from + k) as i32));
        }
    }
    r
}


/// The sample post of identifier `id`: posted by account `id`, tagged `id`.
pub open spec fn post_mock(id: u32) -> PostView {
    PostView {
        id,
        slug: "post_"@ + decimal_text(id as int),
        title: "Post "@ + decimal_text(id as int),
        poster_id: id,
        short_description: "Short description for post "@ + decimal_text(id as int),
        description: "Description for post "@ + decimal_text(id as int),
        tag_ids: seq![id],
        is_confirmed: true,
        published_at: Seq::empty(),
    }
}

/// Entry `t` is the sample of identifier `i`, with the fields `overwrite`
/// gives for `i` in place of the generated ones.
pub open spec fn post_entry_ok<F: Fn(u32) -> PartialPost>(t: Post, i: u32, overwrite: Option<F>) -> bool {
    match overwrite {
        None => post_view(t) == post_mock(i),
        Some(f) => exists|p: PartialPost| #[trigger] call_ensures(f, (i,), p) && post_view(t) == post_merged(p, post_mock(i)),
    }
}

/// The sample post of identifier `post_id`.
pub fn generate_one_post_mock(post_id: u32) -> (r: Post)
    ensures
        post_view(r) == post_mock(post_id),
{
    let n = decimal_u64(post_id as u64);
    let tag_ids = vec![post_id];
    proof {
        assert(tag_ids@ =~= seq![post_id]);
    }
    let published_at = String::new();
    Post {
        id: post_id,
        slug: concat("post_", n.as_str()),
        title: concat("Post ", n.as_str()),
        poster_id: post_id,
        short_description: concat("Short description for post ", n.as_str()),
        description: concat("Description for post ", n.as_str()),
        tag_ids,
        is_confirmed: true,
        published_at,
    }
}

/// The sample posts of identifiers `from` up to `to`, excluded, each with the
/// fields that `overwrite` gives for its identifier in place of the generated
/// ones.
pub fn generate_many_post_mocks_with_overwrite<F: Fn(u32) -> PartialPost>(
    from: u32,
    to: u32,
    overwrite: Option<F>,
) -> (r: Vec<Post>)
    requires
        overwrite matches Some(f) ==> forall|i: u32| call_requires(f, (i,)),
    ensures
        r@.len() == if from <= to { to - from } else { 0 },
        forall|k: int|
            0 <= k < r@.len() ==> post_entry_ok(#[trigger] r@[k], (from + k) as u32, overwrite),
{
    let mut posts: Vec<Post> = Vec::new();
    let mut i = from;
    while i < to
        invariant
            from <= to ==> from <= i <= to,
            from > to ==> i == from,
            posts@.len() == i - from,
            overwrite matches Some(f) ==> forall|i: u32| call_requires(f, (i,)),
            forall|k: int|
                0 <= k < posts@.len() ==> post_entry_ok(#[trigger] posts@[k], (from + k) as u32, overwrite),
        decreases to - i,
    {
        let post = match &overwrite {
            Some(f) => {
                let partial = f(i);
                let d = generate_one_post_mock(i);
                let merged = partial.to_post(d);
                proof {
                    assert(post_view(merged) == post_merged(partial, post_mock(i)));
                }
                merged
            },
            None => generate_one_post_mock(i),
        };
        proof {
            assert(post_entry_ok(post, i, overwrite));
        }
        posts.push(post);
        i = i + 1;
    }
    posts
}

/// The sample posts of identifiers `from` up to `to`, excluded.
pub fn generate_many_post_mocks(from: u32, to: u32) -> (r: Vec<Post>)
    ensures
        r@.len() == if from <= to { to - from } else { 0 },
        forall|k: int| 0 <= k < r@.len() ==> post_view(#[trigger] r@[k]) == post_mock((from + k) as u32),
{
    let no_overwrite = |_id: u32| -> (p: PartialPost)
        ensures
            (p.id is None && p.slug is None && p.title is None && p.poster_id is None
                && p.short_description is None && p.description is None && p.tag_ids is None
                && p.is_confirmed is None && p.published_at is None),
        {
            PartialPost {
                id: None,
                slug: None,
                title: None,
                poster_id: None,
                short_description: None,
                description: None,
                tag_ids: None,
                is_confirmed: None,
                published_at: None,
            }
        };
    let r = generate_many_post_mocks_with_overwrite(from, to, Some(no_overwrite));
    proof {
        assert forall|k: int| 0 <= k < r@.len() implies post_view(#[trigger] r@[k]) == post_mock(
            (from + k) as u32,
        ) by {
            assert(post_entry_ok(r@[k], (from + k) as u32, Some(no_overwrite)));
            let p = choose|p: PartialPost|
                #[trigger] call_ensures(no_overwrite, ((from + k) as u32,), p) && post_view(r@[k])
                    == post_merged(p, post_mock((from + k) as u32));
        }
    }
    r
}

} // verus!
