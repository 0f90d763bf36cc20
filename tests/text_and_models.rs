use job_search::account::{Account, AccountNameTrait, AccountType, CompactAccount};
use job_search::config::Stage;
use job_search::database::{sort_and_dedup_vec, DBOrderDirection, SQLDBName};
use job_search::mocks::{
    generate_many_account_mocks, generate_many_category_mocks, generate_many_post_mocks,
    generate_many_tag_mocks, generate_many_tag_mocks_with_overwrite, generate_one_account_mock,
    generate_one_category_mock, generate_one_post_mock, generate_one_tag_mock,
};
use job_search::post::{CompactPost, Post};
use job_search::post_links::{get_post_long_title, get_post_url};
use job_search::requests::{PaginationQuery, PaginationQueryTrait};
use job_search::services::{rate_limit_step, RateLimitConstraint, RateLimitEntry};
use job_search::tag::PartialTag;
use job_search::text::{
    decimal_i64, decimal_u64, escape_double_quote, escape_new_line, escape_new_line_with_br,
    escape_single_quote, get_searchable_words, get_words, slugify, tokenize,
};

fn s(v: &str) -> String {
    v.to_string()
}

#[test]
fn get_words_keeps_empty_pieces() {
    assert_eq!(get_words("Hello, world"), vec![s("Hello"), s(""), s("world")]);
    assert_eq!(get_words(""), vec![s("")]);
    assert_eq!(get_searchable_words(&s("a-b")), vec![s("a"), s("b")]);
    assert_eq!(
        get_searchable_words(&s("senior full-stack, dev")),
        vec![s("senior"), s("full"), s("stack"), s("dev")]
    );
}

#[test]
fn tokenize_lowercases_and_drops_empty_tokens() {
    assert_eq!(tokenize("Hello, World! C3PO"), vec![s("hello"), s("world"), s("c3po")]);
    assert_eq!(tokenize("  ,;  "), Vec::<String>::new());
    assert_eq!(tokenize("ÉCOLE"), vec![s("école")]);
}

#[test]
fn escapes_replace_each_occurrence() {
    assert_eq!(escape_single_quote(&s("it's 'x'")), s("it\\'s \\'x\\'"));
    assert_eq!(escape_double_quote(&s("say \"hi\"")), s("say \\\"hi\\\""));
    assert_eq!(escape_new_line(&s("a\nb")), s("a\\nb"));
    assert_eq!(escape_new_line_with_br(&s("a\nb\n")), s("a<br>b<br>"));
}

#[test]
fn decimal_texts() {
    assert_eq!(decimal_u64(0), s("0"));
    assert_eq!(decimal_u64(1207), s("1207"));
    assert_eq!(decimal_u64(u64::MAX), u64::MAX.to_string());
    assert_eq!(decimal_i64(-45), s("-45"));
    assert_eq!(decimal_i64(i64::MIN), i64::MIN.to_string());
}

#[test]
fn slugify_filters_and_truncates() {
    assert_eq!(slugify(&s("Senior Rust Engineer!")), s("senior-rust-engineer"));
    assert_eq!(slugify(&s("a_b")), s("ab"));
    assert_eq!(slugify(&"x".repeat(80)).len(), 50);
}

#[test]
fn post_url_and_long_title() {
    let company = CompactAccount {
        id: 3,
        slug: s("acme"),
        account_type: AccountType::Company { company_name: s("Acme") },
    };
    let post = CompactPost {
        id: 12,
        slug: s("dev"),
        title: s("Dev"),
        poster_id: 3,
        short_description: s(""),
        tag_ids: vec![],
        published_at: s(""),
    };
    assert_eq!(get_post_url(&post, &company), s("/jobs/dev_at_acme_12"));
    let person = Account {
        id: 4,
        slug: s("moh"),
        email: s("m@x"),
        account_type: AccountType::Individual { first_name: s("Moh"), last_name: s("D") },
    };
    let full = Post {
        id: 12,
        slug: s("dev"),
        title: s("Dev"),
        poster_id: 4,
        short_description: s(""),
        description: s(""),
        tag_ids: vec![],
        is_confirmed: true,
        published_at: s(""),
    };
    assert_eq!(get_post_long_title(&full, &person), s("Dev needed by Moh D"));
    assert_eq!(person.get_display_name(), s("Moh D"));
    assert_eq!(company.get_display_name(), s("Acme"));
}

#[test]
fn mocks_are_numbered() {
    let a = generate_one_account_mock(7);
    assert_eq!(a.slug, s("account_7"));
    assert_eq!(a.email, s("moh_debbabi_mock_7@algeriastartupjobs.com"));
    assert_eq!(a.get_display_name(), s("Moh 7 Debbabi 7"));
    assert_eq!(generate_many_account_mocks(2, 5).len(), 3);
    assert_eq!(generate_many_account_mocks(5, 2).len(), 0);
    assert_eq!(generate_one_tag_mock(3).name, s("Tag 3"));
    assert_eq!(generate_many_tag_mocks(0, 2)[1].slug, s("tag_1"));
    let c = generate_one_category_mock(-2);
    assert_eq!(c.slug, s("category_-2"));
    assert_eq!(generate_many_category_mocks(1, 3)[0].description, s("Description for category 1"));
    let p = generate_one_post_mock(9);
    assert_eq!(p.title, s("Post 9"));
    assert_eq!(p.tag_ids, vec![9]);
    assert_eq!(generate_many_post_mocks(4, 6)[1].id, 5);
    let named = generate_many_tag_mocks_with_overwrite(
        0,
        2,
        Some(|id: u32| PartialTag { id: None, slug: None, name: Some(format!("Named {}", id)) }),
    );
    assert_eq!(named[1].name, s("Named 1"));
    assert_eq!(named[1].slug, s("tag_1"));
}

#[test]
fn sort_and_dedup_ids() {
    let mut v = vec![5, 1, 5, 3, 1];
    sort_and_dedup_vec(&mut v);
    assert_eq!(v, vec![1, 3, 5]);
    let mut e: Vec<u32> = vec![];
    sort_and_dedup_vec(&mut e);
    assert!(e.is_empty());
}

#[test]
fn names_of_enums_and_pages() {
    assert_eq!(Stage::Production.as_str(), "production");
    assert_eq!(Stage::from_name("staging"), Stage::Staging);
    assert_eq!(Stage::from_name("other"), Stage::Development);
    assert_eq!(SQLDBName::Search.as_str(), "search");
    assert_eq!(DBOrderDirection::DESC.as_str(), "DESC");
    let q = PaginationQuery { page: 3, per_page: 20 }.to_db_query();
    assert_eq!((q.start, q.limit), (60, 20));
}

#[test]
fn seeds_name_and_slug_each_record() {
    let tags = job_search::seeds::generate_tags_seed();
    assert_eq!(tags.len(), 43);
    assert_eq!(tags[0].slug, s("developer"));
    assert_eq!(tags[0].name, s("Developer"));
    assert_eq!(tags[12].slug, s("c_plus_plus"));
    assert_eq!(tags[25].slug, s("team_lead"));
    assert_eq!(tags[25].name, s("Team Lead"));
    assert_eq!(tags[25].id, 25);
    let categories = job_search::seeds::generate_categories_seed();
    assert_eq!(categories.len(), 34);
    assert_eq!(categories[0].slug, s("accounting_and_finance"));
    assert_eq!(categories[5].slug, s("customer_service"));
    assert_eq!(categories[5].name, s("Customer Service"));
    assert_eq!(categories[5].description, s("All jobs related to Customer Service"));
}

#[test]
fn account_seed_kinds_slugs_and_emails() {
    let accounts = job_search::seeds::generate_accounts_seed();
    assert_eq!(accounts.len(), 11);
    assert_eq!(accounts[0].slug, s("zakaria_mansouri_0"));
    assert_eq!(accounts[0].email, s("jobs_at_zakaria_mansouri_mock_0@algeriastartupjobs.com"));
    assert!(matches!(&accounts[0].account_type, AccountType::Admin { first_name, last_name }
        if first_name == "Zakaria" && last_name == "Mansouri"));
    assert!(matches!(&accounts[1].account_type, AccountType::Company { company_name }
        if company_name == "Yassiron"));
    assert_eq!(accounts[1].slug, s("yassiron_1"));
    assert!(matches!(&accounts[9].account_type, AccountType::Individual { first_name, last_name }
        if first_name == "Mourat" && last_name == "Weld El Ailma"));
    assert_eq!(accounts[9].get_display_name(), s("Mourat Weld El Ailma"));
}

#[test]
fn rate_limit_counts_within_a_window() {
    let c = RateLimitConstraint { id: s("login-1-a"), max_requests: 2, duration_ms: 10_000 };
    let (ok, e) = rate_limit_step(None, 1_000, &c);
    assert!(ok);
    assert_eq!(e, Some(RateLimitEntry { last_time_ms: 1_000, count: 1 }));
    let (ok, e) = rate_limit_step(e, 2_000, &c);
    assert!(ok);
    assert_eq!(e, Some(RateLimitEntry { last_time_ms: 2_000, count: 2 }));
    assert_eq!(rate_limit_step(e, 3_000, &c), (false, None));
    let (ok, e2) = rate_limit_step(e, 12_001, &c);
    assert!(ok);
    assert_eq!(e2, Some(RateLimitEntry { last_time_ms: 12_001, count: 1 }));
}
