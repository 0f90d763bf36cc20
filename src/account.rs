//! Accounts: the posters of job posts.

use vstd::prelude::*;

verus! {

/// The kind of an account, with the names it carries.
#[derive(Debug, Clone)]
pub enum AccountType {
    Admin { first_name: String, last_name: String },
    Individual { first_name: String, last_name: String },
    Company { company_name: String },
}

/// An account type as a mathematical value.
pub enum AccountTypeView {
    Admin { first_name: Seq<char>, last_name: Seq<char> },
    Individual { first_name: Seq<char>, last_name: Seq<char> },
    Company { company_name: Seq<char> },
}

impl View for AccountType {
    type V = AccountTypeView;

    open spec fn view(&self) -> AccountTypeView {
        match self {
            AccountType::Admin { first_name, last_name } => AccountTypeView::Admin {
                first_name: first_name@,
                last_name: last_name@,
            },
            AccountType::Individual { first_name, last_name } => AccountTypeView::Individual {
                first_name: first_name@,
                last_name: last_name@,
            },
            AccountType::Company { company_name } => AccountTypeView::Company {
                company_name: company_name@,
            },
        }
    }
}

/// The name shown for an account: first and last name joined by a space, or
/// the company name.
pub open spec fn display_name(t: AccountTypeView) -> Seq<char> {
    match t {
        AccountTypeView::Admin { first_name, last_name } => first_name + seq![' '] + last_name,
        AccountTypeView::Individual { first_name, last_name } => first_name + seq![' '] + last_name,
        AccountTypeView::Company { company_name } => company_name,
    }
}

/// First name, last name and company name, where the kind has them.
pub open spec fn names_of(t: AccountTypeView) -> (Option<Seq<char>>, Option<Seq<char>>, Option<Seq<char>>) {
    match t {
        AccountTypeView::Admin { first_name, last_name } => (Some(first_name), Some(last_name), None),
        AccountTypeView::Individual { first_name, last_name } => (Some(first_name), Some(last_name), None),
        AccountTypeView::Company { company_name } => (None, None, Some(company_name)),
    }
}

/// The view of an optional string.
pub open spec fn opt_view(o: Option<&String>) -> Option<Seq<char>> {
    match o {
        Some(s) => Some(s@),
        None => None,
    }
}

/// Joins two names with a space.
fn join_names(first: &String, last: &String) -> (r: String)
    ensures
        r@ == first@ + seq![' '] + last@,
{
    let mut r = first.clone();
    proof {
        reveal_strlit(" ");
    }
    r.append(" ");
    r.append(last.as_str());
    r
}

impl AccountType {
    /// A copy of this account type.
    pub fn copy(&self) -> (r: AccountType)
        ensures
            r@ == self@,
    {
        match self {
            AccountType::Admin { first_name, last_name } => AccountType::Admin {
                first_name: first_name.clone(),
                last_name: last_name.clone(),
            },
            AccountType::Individual { first_name, last_name } => AccountType::Individual {
                first_name: first_name.clone(),
                last_name: last_name.clone(),
            },
            AccountType::Company { company_name } => AccountType::Company {
                company_name: company_name.clone(),
            },
        }
    }

    /// The name shown for an account of this type.
    pub fn display_name(&self) -> (r: String)
        ensures
            r@ == display_name(self@),
    {
        match self {
            AccountType::Admin { first_name, last_name } => join_names(first_name, last_name),
            AccountType::Individual { first_name, last_name } => join_names(first_name, last_name),
            AccountType::Company { company_name } => company_name.clone(),
        }
    }

    /// First name, last name and company name, where this type has them.
    pub fn names(&self) -> (r: (Option<&String>, Option<&String>, Option<&String>))
        ensures
            opt_view(r.0) == names_of(self@).0,
            opt_view(r.1) == names_of(self@).1,
            opt_view(r.2) == names_of(self@).2,
    {
        match self {
            AccountType::Admin { first_name, last_name } => (Some(first_name), Some(last_name), None),
            AccountType::Individual { first_name, last_name } => (
                Some(first_name),
                Some(last_name),
                None,
            ),
            AccountType::Company { company_name } => (None, None, Some(company_name)),
        }
    }
}

/// A user or company account.
#[derive(Debug, Clone)]
pub struct Account {
    pub id: u32,
    pub slug: String,
    pub email: String,
    pub account_type: AccountType,
}

/// The fields of an account that listings need.
#[derive(Debug, Clone)]
pub struct CompactAccount {
    pub id: u32,
    pub slug: String,
    pub account_type: AccountType,
}

/// An account with any field possibly missing.
#[derive(Debug, Clone)]
pub struct PartialAccount {
    pub id: Option<u32>,
    pub slug: Option<String>,
    pub email: Option<String>,
    pub account_type: Option<AccountType>,
}

/// Conversion of an account to its compact form.
pub trait AccountTrait {
    /// The account this value describes.
    spec fn account_value(&self) -> AccountView;

    fn to_compact_account(&self) -> (r: CompactAccount)
        ensures
            r.id == self.account_value().id,
            r.slug@ == self.account_value().slug,
            r.account_type@ == self.account_value().account_type,
    ;
}

impl AccountTrait for Account {
    open spec fn account_value(&self) -> AccountView {
        account_view(*self)
    }

    fn to_compact_account(&self) -> (r: CompactAccount) {
        CompactAccount { id: self.id, slug: self.slug.clone(), account_type: self.account_type.copy() }
    }
}

/// The names of an account.
pub trait AccountNameTrait {
    /// The type of the account.
    spec fn type_of(&self) -> AccountTypeView;

    fn get_display_name(&self) -> (r: String)
        ensures
            r@ == display_name(self.type_of()),
    ;

    fn get_names(&self) -> (r: (Option<&String>, Option<&String>, Option<&String>))
        ensures
            opt_view(r.0) == names_of(self.type_of()).0,
            opt_view(r.1) == names_of(self.type_of()).1,
            opt_view(r.2) == names_of(self.type_of()).2,
    ;
}

impl AccountNameTrait for Account {
    open spec fn type_of(&self) -> AccountTypeView {
        self.account_type@
    }

    fn get_display_name(&self) -> (r: String) {
        self.account_type.display_name()
    }

    fn get_names(&self) -> (r: (Option<&String>, Option<&String>, Option<&String>)) {
        self.account_type.names()
    }
}

impl AccountNameTrait for CompactAccount {
    open spec fn type_of(&self) -> AccountTypeView {
        self.account_type@
    }

    fn get_display_name(&self) -> (r: String) {
        self.account_type.display_name()
    }

    fn get_names(&self) -> (r: (Option<&String>, Option<&String>, Option<&String>)) {
        self.account_type.names()
    }
}

/// Completing a partial account from a fallback.
pub trait PartialAccountTrait {
    /// The account made of the present fields, the others from `fallback`.
    spec fn over(&self, fallback: AccountView) -> AccountView;

    fn to_account(&self, fallback_account: Account) -> (r: Account)
        ensures
            account_view(r) == self.over(account_view(fallback_account)),
    ;
}

impl PartialAccountTrait for PartialAccount {
    open spec fn over(&self, fallback: AccountView) -> AccountView {
        account_merged(*self, fallback)
    }

    fn to_account(&self, fallback_account: Account) -> (r: Account) {
        Account {
            id: match self.id {
                Some(id) => id,
                None => fallback_account.id,
            },
            slug: match &self.slug {
                Some(slug) => slug.clone(),
                None => fallback_account.slug,
            },
            email: match &self.email {
                Some(email) => email.clone(),
                None => fallback_account.email,
            },
            account_type: match &self.account_type {
                Some(t) => t.copy(),
                None => fallback_account.account_type,
            },
        }
    }
}

/// An account as a mathematical value.
pub struct AccountView {
    pub id: u32,
    pub slug: Seq<char>,
    pub email: Seq<char>,
    pub account_type: AccountTypeView,
}

/// The value of an account.
pub open spec fn account_view(a: Account) -> AccountView {
    AccountView { id: a.id, slug: a.slug@, email: a.email@, account_type: a.account_type@ }
}

/// The fields of `p` that are present, the others from `d`.
pub open spec fn account_merged(p: PartialAccount, d: AccountView) -> AccountView {
    AccountView {
        id: match p.id {
            Some(id) => id,
            None => d.id,
        },
        slug: match p.slug {
            Some(s) => s@,
            None => d.slug,
        },
        email: match p.email {
            Some(s) => s@,
            None => d.email,
        },
        account_type: match p.account_type {
            Some(t) => t@,
            None => d.account_type,
        },
    }
}

} // verus!
