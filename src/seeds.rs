//! The seed records of a fresh database: the accounts, tags and job
//! categories the board starts with.

use vstd::prelude::*;
use crate::account::{account_merged, account_view, Account, AccountType, AccountTypeView, PartialAccount};
use crate::category::{category_merged, category_view, Category, PartialCategory};
use crate::mocks::{
    account_mock, generate_many_account_mocks_with_overwrite, category_entry_ok, category_mock, generate_many_category_mocks_with_overwrite,
    generate_many_tag_mocks_with_overwrite, tag_entry_ok, tag_mock,
};
use crate::tag::{tag_merged, tag_view, PartialTag, Tag};
use crate::text::{concat, decimal_text, decimal_u64, lower_of, lowercase, replace_char, replaced};

verus! {

/// What `titlecase::titlecase` returns for a string.
pub uninterp spec fn title_of(s: Seq<char>) -> Seq<char>;

/// Relies on `titlecase::titlecase`: the result depends on the text alone.
#[verifier::external_body]
fn title_case(s: &str) -> (r: String)
    ensures
        r@ == title_of(s@),
{
    titlecase::titlecase(s)
}

/// The names of the seed tags: roles, languages, skills, levels and medical
/// tags.
pub open spec fn tag_seed_names() -> Seq<Seq<char>> {
    seq![
        "developer"@,
        "engineer"@,
        "designer"@,
        "manager"@,
        "tester"@,
        "devops"@,
        "qa"@,
        "rust"@,
        "python"@,
        "javascript"@,
        "go"@,
        "typescript"@,
        "c++"@,
        "c"@,
        "java"@,
        "backend"@,
        "frontend"@,
        "fullstack"@,
        "devops"@,
        "qa"@,
        "ux"@,
        "ui"@,
        "junior"@,
        "mid"@,
        "senior"@,
        "team lead"@,
        "architect"@,
        "engineering lead"@,
        "doctor"@,
        "nurse"@,
        "pharmacist"@,
        "dentist"@,
        "surgeon"@,
        "therapist"@,
        "optometrist"@,
        "psychologist"@,
        "veterinarian"@,
        "dietitian"@,
        "nutritionist"@,
        "chiropractor"@,
        "pediatrician"@,
        "treat"@,
        "patients"@,
    ]
}

/// The names of the seed tags.
pub fn tag_seed_name_list() -> (r: Vec<&'static str>)
    ensures
        r@.map_values(|s: &str| s@) == tag_seed_names(),
{
    let r = vec![
        "developer",
        "engineer",
        "designer",
        "manager",
        "tester",
        "devops",
        "qa",
        "rust",
        "python",
        "javascript",
        "go",
        "typescript",
        "c++",
        "c",
        "java",
        "backend",
        "frontend",
        "fullstack",
        "devops",
        "qa",
        "ux",
        "ui",
        "junior",
        "mid",
        "senior",
        "team lead",
        "architect",
        "engineering lead",
        "doctor",
        "nurse",
        "pharmacist",
        "dentist",
        "surgeon",
        "therapist",
        "optometrist",
        "psychologist",
        "veterinarian",
        "dietitian",
        "nutritionist",
        "chiropractor",
        "pediatrician",
        "treat",
        "patients",
    ];
    proof {
        assert(r@.map_values(|s: &str| s@) =~= tag_seed_names());
    }
    r
}

/// The slug of a seed tag: `+` written `_plus`, spaces written `_`.
pub open spec fn tag_seed_slug(name: Seq<char>) -> Seq<char> {
    replaced(replaced(name, '+', seq!['_', 'p', 'l', 'u', 's']), ' ', seq!['_'])
}

/// The seed tags: tag `k` is named after the `k`-th seed name in title case,
/// with that name's slug.
pub fn generate_tags_seed() -> (r: Vec<Tag>)
    ensures
        r@.len() == tag_seed_names().len(),
        forall|k: int|
            0 <= k < r@.len() ==> #[trigger] r@[k].id == k && r@[k].slug@ == tag_seed_slug(
                tag_seed_names()[k],
            ) && r@[k].name@ == title_of(tag_seed_names()[k]),
{
    let names = tag_seed_name_list();
    let ghost nv = names@.map_values(|s: &str| s@);
    let overwrite = |id: u32| -> (p: PartialTag)
        ensures
            (p.id is None && ((id as int) < names@.len() ==> p.slug is Some && p.name is Some
                && p.slug->0@ == tag_seed_slug(names@[id as int]@) && p.name->0@ == title_of(
                names@[id as int]@,
            ))),
        {
            if (id as usize) < names.len() {
                let name = names[id as usize];
                let plus = vec!['_', 'p', 'l', 'u', 's'];
                let under = vec!['_'];
                proof {
                    assert(plus@ =~= seq!['_', 'p', 'l', 'u', 's']);
                    assert(under@ =~= seq!['_']);
                }
                let slug = replace_char(&replace_char(&name.to_owned(), '+', &plus), ' ', &under);
                PartialTag { id: None, slug: Some(slug), name: Some(title_case(name)) }
            } else {
                PartialTag { id: None, slug: None, name: None }
            }
        };
    let r = generate_many_tag_mocks_with_overwrite(0, names.len() as u32, Some(overwrite));
    proof {
        assert forall|k: int| 0 <= k < r@.len() implies #[trigger] r@[k].id == k && r@[k].slug@
            == tag_seed_slug(tag_seed_names()[k]) && r@[k].name@ == title_of(tag_seed_names()[k]) by {
            assert(tag_entry_ok(r@[k], k as u32, Some(overwrite)));
            let p = choose|p: PartialTag|
                #[trigger] call_ensures(overwrite, (k as u32,), p) && tag_view(r@[k]) == tag_merged(
                    p,
                    tag_mock(k as u32),
                );
            assert(nv[k] == names@[k]@);
        }
    }
    r
}

/// The names of the seed job categories.
pub open spec fn category_seed_names() -> Seq<Seq<char>> {
    seq![
        "Accounting/Finance"@,
        "Administrative"@,
        "Arts/Entertainment/Publishing"@,
        "Banking/Loans"@,
        "Construction/Facilities"@,
        "Customer Service"@,
        "Education/Training"@,
        "Engineering/Architecture"@,
        "Government/Military"@,
        "Healthcare"@,
        "Hospitality/Travel"@,
        "Human Resources"@,
        "Installation/Maintenance"@,
        "Insurance"@,
        "Internet"@,
        "Law Enforcement/Security"@,
        "Legal"@,
        "Management/Executive"@,
        "Manufacturing/Operations"@,
        "Marketing"@,
        "Non-Profit/Volunteer"@,
        "Other"@,
        "Product Management"@,
        "Project/Program Management"@,
        "Public Relations"@,
        "Quality Assurance"@,
        "Real Estate"@,
        "Research"@,
        "Sales"@,
        "Science/Technology"@,
        "Software Engineering"@,
        "Supply Chain/Logistics"@,
        "Training"@,
        "Writing/Editing"@,
    ]
}

/// The names of the seed job categories.
pub fn category_seed_name_list() -> (r: Vec<&'static str>)
    ensures
        r@.map_values(|s: &str| s@) == category_seed_names(),
{
    let r = vec![
        "Accounting/Finance",
        "Administrative",
        "Arts/Entertainment/Publishing",
        "Banking/Loans",
        "Construction/Facilities",
        "Customer Service",
        "Education/Training",
        "Engineering/Architecture",
        "Government/Military",
        "Healthcare",
        "Hospitality/Travel",
        "Human Resources",
        "Installation/Maintenance",
        "Insurance",
        "Internet",
        "Law Enforcement/Security",
        "Legal",
        "Management/Executive",
        "Manufacturing/Operations",
        "Marketing",
        "Non-Profit/Volunteer",
        "Other",
        "Product Management",
        "Project/Program Management",
        "Public Relations",
        "Quality Assurance",
        "Real Estate",
        "Research",
        "Sales",
        "Science/Technology",
        "Software Engineering",
        "Supply Chain/Logistics",
        "Training",
        "Writing/Editing",
    ];
    proof {
        assert(r@.map_values(|s: &str| s@) =~= category_seed_names());
    }
    r
}

/// The slug of a seed category: `/` written `_and_`, spaces written `_`, all
/// lowercase.
pub open spec fn category_seed_slug(name: Seq<char>) -> Seq<char> {
    lower_of(replaced(replaced(name, '/', seq!['_', 'a', 'n', 'd', '_']), ' ', seq!['_']))
}

/// The seed job categories: category `k` is named after the `k`-th seed name
/// in title case, with that name's slug and a description naming it.
pub fn generate_categories_seed() -> (r: Vec<Category>)
    ensures
        r@.len() == category_seed_names().len(),
        forall|k: int|
            0 <= k < r@.len() ==> #[trigger] r@[k].id == k && r@[k].slug@ == category_seed_slug(
                category_seed_names()[k],
            ) && r@[k].name@ == title_of(category_seed_names()[k]) && r@[k].description@ == "All jobs related to "@
                + category_seed_names()[k],
{
    let names = category_seed_name_list();
    let ghost nv = names@.map_values(|s: &str| s@);
    let overwrite = |id: i32| -> (p: PartialCategory)
        ensures
            (p.id is None && (0 <= id < names@.len() ==> p.slug is Some && p.name is Some
                && p.description is Some && p.slug->0@ == category_seed_slug(names@[id as int]@)
                && p.name->0@ == title_of(names@[id as int]@) && p.description->0@ == "All jobs related to "@
                + names@[id as int]@)),
        {
            if 0 <= id && (id as usize) < names.len() {
                let name = names[id as usize];
                let and = vec!['_', 'a', 'n', 'd', '_'];
                let under = vec!['_'];
                proof {
                    assert(and@ =~= seq!['_', 'a', 'n', 'd', '_']);
                    assert(under@ =~= seq!['_']);
                }
                let joined = replace_char(&replace_char(&name.to_owned(), '/', &and), ' ', &under);
                let slug = lowercase(joined.as_str());
                PartialCategory {
                    id: None,
                    slug: Some(slug),
                    name: Some(title_case(name)),
                    description: Some(concat("All jobs related to ", name)),
                }
            } else {
                PartialCategory { id: None, slug: None, name: None, description: None }
            }
        };
    let r = generate_many_category_mocks_with_overwrite(0, names.len() as i32, Some(overwrite));
    proof {
        assert forall|k: int| 0 <= k < r@.len() implies #[trigger] r@[k].id == k && r@[k].slug@
            == category_seed_slug(category_seed_names()[k]) && r@[k].name@ == title_of(
            category_seed_names()[k],
        ) && r@[k].description@ == "All jobs related to "@ + category_seed_names()[k] by {
            assert(category_entry_ok(r@[k], k as i32, Some(overwrite)));
            let p = choose|p: PartialCategory|
                #[trigger] call_ensures(overwrite, (k as i32,), p) && category_view(r@[k])
                    == category_merged(p, category_mock(k as i32));
            assert(nv[k] == names@[k]@);
        }
    }
    r
}


/// The names of the seed accounts: the admin, then the startups, then the
/// self-employed.
pub open spec fn account_seed_names() -> Seq<Seq<char>> {
    seq![
        "Zakaria Mansouri"@,
        "Yassiron"@,
        "Specific Emballage"@,
        "Startdown.dz"@,
        "Algeria Startdown Test"@,
        "Startupstare"@,
        "Issab Refraf"@,
        "Alia Haddada"@,
        "Fatima Zeroual"@,
        "Mourat Weld El Ailma"@,
        "Nadiatora Ramdani"@,
    ]
}

/// The names of the seed accounts.
pub fn account_seed_name_list() -> (r: Vec<&'static str>)
    ensures
        r@.map_values(|s: &str| s@) == account_seed_names(),
{
    let r = vec![
        "Zakaria Mansouri",
        "Yassiron",
        "Specific Emballage",
        "Startdown.dz",
        "Algeria Startdown Test",
        "Startupstare",
        "Issab Refraf",
        "Alia Haddada",
        "Fatima Zeroual",
        "Mourat Weld El Ailma",
        "Nadiatora Ramdani",
    ];
    proof {
        assert(r@.map_values(|s: &str| s@) =~= account_seed_names());
    }
    r
}

/// The number of admins at the head of the seed names.
pub const SEED_ADMINS: usize = 1;

/// The number of startups after the admins.
pub const SEED_STARTUPS: usize = 5;

/// The position of the first space of `s`, or its length.
pub open spec fn first_space(s: Seq<char>) -> nat
    decreases s.len(),
{
    if s.len() == 0 {
        0
    } else if s[0] == ' ' {
        0
    } else {
        1 + first_space(s.drop_first())
    }
}

/// The first word of a name.
pub open spec fn first_word(s: Seq<char>) -> Seq<char> {
    s.take(first_space(s) as int)
}

/// The rest of a name after its first word and the space that ends it.
pub open spec fn other_words(s: Seq<char>) -> Seq<char> {
    if first_space(s) < s.len() {
        s.skip(first_space(s) + 1int)
    } else {
        Seq::empty()
    }
}

proof fn lemma_first_space(s: Seq<char>)
    ensures
        first_space(s) <= s.len(),
        forall|k: int| 0 <= k < first_space(s) ==> s[k] != ' ',
        first_space(s) < s.len() ==> s[first_space(s) as int] == ' ',
    decreases s.len(),
{
    if s.len() > 0 && s[0] != ' ' {
        lemma_first_space(s.drop_first());
        assert forall|k: int| 0 <= k < first_space(s) implies s[k] != ' ' by {
            if k > 0 {
                assert(s[k] == s.drop_first()[k - 1]);
            }
        }
    }
}

/// Splits a name at its first space.
fn split_first_word(s: &str) -> (r: (String, String))
    ensures
        r.0@ == first_word(s@),
        r.1@ == other_words(s@),
{
    let cs = crate::text::chars_of(s);
    proof {
        lemma_first_space(s@);
    }
    let mut i: usize = 0;
    while i < cs.len() && cs[i] != ' '
        invariant
            i <= cs@.len(),
            cs@ == s@,
            i <= first_space(s@),
            first_space(s@) <= s@.len(),
            first_space(s@) < s@.len() ==> s@[first_space(s@) as int] == ' ',
            forall|k: int| 0 <= k < i ==> cs@[k] != ' ',
        decreases cs@.len() - i,
    {
        i = i + 1;
    }
    proof {
        if i < first_space(s@) {
            assert(s@[i as int] != ' ');
        }
    }
    let mut first: Vec<char> = Vec::new();
    let mut j: usize = 0;
    while j < i
        invariant
            j <= i <= cs@.len(),
            first@ == cs@.take(j as int),
        decreases i - j,
    {
        first.push(cs[j]);
        j = j + 1;
        proof {
            assert(first@ =~= cs@.take(j as int));
        }
    }
    let mut rest: Vec<char> = Vec::new();
    if i < cs.len() {
        let mut k: usize = i + 1;
        while k < cs.len()
            invariant
                i < k <= cs@.len(),
                rest@ == cs@.subrange(i + 1, k as int),
            decreases cs@.len() - k,
        {
            rest.push(cs[k]);
            k = k + 1;
            proof {
                assert(rest@ =~= cs@.subrange(i + 1, k as int));
            }
        }
        proof {
            assert(rest@ =~= s@.skip(i + 1));
        }
    }
    proof {
        assert(i == first_space(s@));
        assert(first@ =~= first_word(s@));
        if i >= cs@.len() {
            assert(rest@ =~= other_words(s@));
        }
    }
    (crate::text::string_of(&first), crate::text::string_of(&rest))
}

/// The account type of seed account `k` named `name`: the admin first, then
/// companies, then the self-employed.
pub open spec fn seed_account_type(k: int, name: Seq<char>) -> AccountTypeView {
    if k < SEED_ADMINS {
        AccountTypeView::Admin {
            first_name: title_of(first_word(name)),
            last_name: title_of(other_words(name)),
        }
    } else if k < SEED_ADMINS + SEED_STARTUPS {
        AccountTypeView::Company { company_name: title_of(name) }
    } else {
        AccountTypeView::Individual {
            first_name: title_of(first_word(name)),
            last_name: title_of(other_words(name)),
        }
    }
}

/// The slug of seed account `k`: its lowercase name with `_` for spaces, then
/// `_k`.
pub open spec fn seed_account_slug(k: int, name: Seq<char>) -> Seq<char> {
    replaced(lower_of(name), ' ', seq!['_']) + seq!['_'] + decimal_text(k)
}

/// The email of seed account `k`, lowercase with `_` for spaces.
pub open spec fn seed_account_email(k: int, name: Seq<char>) -> Seq<char> {
    replaced(
        lower_of("jobs_at_"@ + name + "_mock_"@ + decimal_text(k) + "@algeriastartupjobs.com"@),
        ' ',
        seq!['_'],
    )
}

/// The seed accounts: account `k` is named after the `k`-th seed name.
pub fn generate_accounts_seed() -> (r: Vec<Account>)
    ensures
        r@.len() == account_seed_names().len(),
        forall|k: int|
            0 <= k < r@.len() ==> #[trigger] r@[k].id == k && r@[k].slug@ == seed_account_slug(
                k,
                account_seed_names()[k],
            ) && r@[k].email@ == seed_account_email(k, account_seed_names()[k])
                && r@[k].account_type@ == seed_account_type(k, account_seed_names()[k]),
{
    let names = account_seed_name_list();
    let ghost nv = names@.map_values(|s: &str| s@);
    let overwrite = |id: u32| -> (p: PartialAccount)
        ensures
            (p.id is None && ((id as int) < names@.len() ==> p.slug is Some && p.email is Some
                && p.account_type is Some && p.slug->0@ == seed_account_slug(id as int, names@[id as int]@)
                && p.email->0@ == seed_account_email(id as int, names@[id as int]@)
                && p.account_type->0@ == seed_account_type(id as int, names@[id as int]@))),
        {
            if (id as usize) < names.len() {
                let name = names[id as usize];
                let under = vec!['_'];
                proof {
                    assert(under@ =~= seq!['_']);
                }
                let n = decimal_u64(id as u64);
                let lower = lowercase(name);
                let slug = concat(replace_char(&lower, ' ', &under).as_str(), "_");
                let slug = concat(slug.as_str(), n.as_str());
                let email = concat("jobs_at_", name);
                let email = concat(email.as_str(), "_mock_");
                let email = concat(email.as_str(), n.as_str());
                let email = concat(email.as_str(), "@algeriastartupjobs.com");
                let email = replace_char(&lowercase(email.as_str()), ' ', &under);
                let account_type = if (id as usize) < SEED_ADMINS {
                    let (first, last) = split_first_word(name);
                    AccountType::Admin {
                        first_name: title_case(first.as_str()),
                        last_name: title_case(last.as_str()),
                    }
                } else if (id as usize) < SEED_ADMINS + SEED_STARTUPS {
                    AccountType::Company { company_name: title_case(name) }
                } else {
                    let (first, last) = split_first_word(name);
                    AccountType::Individual {
                        first_name: title_case(first.as_str()),
                        last_name: title_case(last.as_str()),
                    }
                };
                proof {
                    reveal_strlit("_");
                    assert(name@ == names@[id as int]@);
                    assert(slug@ =~= seed_account_slug(id as int, name@));
                    assert(email@ =~= seed_account_email(id as int, name@));
                    assert(account_type@ == seed_account_type(id as int, name@));
                }
                PartialAccount {
                    id: None,
                    slug: Some(slug),
                    email: Some(email),
                    account_type: Some(account_type),
                }
            } else {
                PartialAccount { id: None, slug: None, email: None, account_type: None }
            }
        };
    let r = generate_many_account_mocks_with_overwrite(0, names.len() as u32, Some(overwrite));
    proof {
        assert forall|k: int| 0 <= k < r@.len() implies #[trigger] r@[k].id == k && r@[k].slug@
            == seed_account_slug(k, account_seed_names()[k]) && r@[k].email@ == seed_account_email(
            k,
            account_seed_names()[k],
        ) && r@[k].account_type@ == seed_account_type(k, account_seed_names()[k]) by {
            let p = choose|p: PartialAccount|
                #[trigger] call_ensures(overwrite, ((0 + k) as u32,), p) && account_view(r@[k])
                    == account_merged(p, account_mock((0 + k) as u32));
            assert(nv[k] == names@[k]@);
        }
    }
    r
}

} // verus!
