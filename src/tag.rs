//! Tags attached to job posts.

use vstd::prelude::*;

verus! {

/// A tag.
#[derive(Debug, Clone)]
pub struct Tag {
    pub id: u32,
    pub slug: String,
    pub name: String,
}

/// The fields of a tag that listings need.
#[derive(Debug, Clone)]
pub struct CompactTag {
    pub id: u32,
    pub slug: String,
    pub name: String,
}

/// A tag with any field possibly missing.
#[derive(Debug, Clone)]
pub struct PartialTag {
    pub id: Option<u32>,
    pub slug: Option<String>,
    pub name: Option<String>,
}

/// Conversion of a tag to its compact form.
pub trait TagTrait {
    /// The tag this value describes.
    spec fn tag_value(&self) -> TagView;

    fn to_compact_tag(&self) -> (r: CompactTag)
        ensures
            r.id == self.tag_value().id,
            r.slug@ == self.tag_value().slug,
            r.name@ == self.tag_value().name,
    ;
}

impl TagTrait for Tag {
    open spec fn tag_value(&self) -> TagView {
        tag_view(*self)
    }

    fn to_compact_tag(&self) -> (r: CompactTag) {
        CompactTag { id: self.id, slug: self.slug.clone(), name: self.name.clone() }
    }
}

/// Completing a partial tag from a fallback.
pub trait PartialTagTrait {
    /// The tag made of the present fields, the others from `fallback`.
    spec fn over(&self, fallback: TagView) -> TagView;

    fn to_tag(&self, fallback_tag: Tag) -> (r: Tag)
        ensures
            tag_view(r) == self.over(tag_view(fallback_tag)),
    ;
}

impl PartialTagTrait for PartialTag {
    open spec fn over(&self, fallback: TagView) -> TagView {
        tag_merged(*self, fallback)
    }

    fn to_tag(&self, fallback_tag: Tag) -> (r: Tag) {
        Tag {
            id: match self.id {
                Some(id) => id,
                None => fallback_tag.id,
            },
            slug: match &self.slug {
                Some(slug) => slug.clone(),
                None => fallback_tag.slug,
            },
            name: match &self.name {
                Some(name) => name.clone(),
                None => fallback_tag.name,
            },
        }
    }
}

/// A tag as a mathematical value.
pub struct TagView {
    pub id: u32,
    pub slug: Seq<char>,
    pub name: Seq<char>,
}

/// The value of a tag.
pub open spec fn tag_view(t: Tag) -> TagView {
    TagView { id: t.id, slug: t.slug@, name: t.name@ }
}

/// The fields of `p` that are present, the others from `d`.
pub open spec fn tag_merged(p: PartialTag, d: TagView) -> TagView {
    TagView {
        id: match p.id {
            Some(id) => id,
            None => d.id,
        },
        slug: match p.slug {
            Some(s) => s@,
            None => d.slug,
        },
        name: match p.name {
            Some(s) => s@,
            None => d.name,
        },
    }
}

} // verus!
