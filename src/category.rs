//! Job categories.

use vstd::prelude::*;

verus! {

/// A job category.
#[derive(Debug, Clone)]
pub struct Category {
    pub id: i32,
    pub slug: String,
    pub name: String,
    pub description: String,
}

/// The fields of a category that listings need.
#[derive(Debug, Clone)]
pub struct CompactCategory {
    pub id: i32,
    pub slug: String,
    pub name: String,
}

/// A category with any field possibly missing.
#[derive(Debug, Clone)]
pub struct PartialCategory {
    pub id: Option<i32>,
    pub slug: Option<String>,
    pub name: Option<String>,
    pub description: Option<String>,
}

/// Conversion of a category to its compact form.
pub trait CategoryTrait {
    /// The category this value describes.
    spec fn category_value(&self) -> CategoryView;

    fn to_compact_category(&self) -> (r: CompactCategory)
        ensures
            r.id == self.category_value().id,
            r.slug@ == self.category_value().slug,
            r.name@ == self.category_value().name,
    ;
}

impl CategoryTrait for Category {
    open spec fn category_value(&self) -> CategoryView {
        category_view(*self)
    }

    fn to_compact_category(&self) -> (r: CompactCategory) {
        CompactCategory { id: self.id, slug: self.slug.clone(), name: self.name.clone() }
    }
}

/// Completing a partial category from a fallback.
pub trait PartialCategoryTrait {
    /// The category made of the present fields, the others from `fallback`.
    spec fn over(&self, fallback: CategoryView) -> CategoryView;

    fn to_category(&self, fallback_category: Category) -> (r: Category)
        ensures
            category_view(r) == self.over(category_view(fallback_category)),
    ;
}

impl PartialCategoryTrait for PartialCategory {
    open spec fn over(&self, fallback: CategoryView) -> CategoryView {
        category_merged(*self, fallback)
    }

    fn to_category(&self, fallback_category: Category) -> (r: Category) {
        Category {
            id: match self.id {
                Some(id) => id,
                None => fallback_category.id,
            },
            slug: match &self.slug {
                Some(s) => s.clone(),
                None => fallback_category.slug,
            },
            name: match &self.name {
                Some(s) => s.clone(),
                None => fallback_category.name,
            },
            description: match &self.description {
                Some(s) => s.clone(),
                None => fallback_category.description,
            },
        }
    }
}

/// A category as a mathematical value.
pub struct CategoryView {
    pub id: i32,
    pub slug: Seq<char>,
    pub name: Seq<char>,
    pub description: Seq<char>,
}

/// The value of a category.
pub open spec fn category_view(c: Category) -> CategoryView {
    CategoryView { id: c.id, slug: c.slug@, name: c.name@, description: c.description@ }
}

/// The fields of `p` that are present, the others from `d`.
pub open spec fn category_merged(p: PartialCategory, d: CategoryView) -> CategoryView {
    CategoryView {
        id: match p.id {
            Some(id) => id,
            None => d.id,
        },
        slug: match p.slug {
            Some(s) => s@,
            None => d.slug,
        },
        name: match p.name {
            Some(s) => s@,
            None => d.name,
        },
        description: match p.description {
            Some(s) => s@,
            None => d.description,
        },
    }
}

} // verus!
