//! Job posts.

use vstd::prelude::*;

verus! {

/// A job post.
#[derive(Debug, Clone)]
pub struct Post {
    pub id: u32,
    pub slug: String,
    pub title: String,
    pub poster_id: u32,
    pub short_description: String,
    pub description: String,
    pub tag_ids: Vec<u32>,
    pub is_confirmed: bool,
    pub published_at: String,
}

/// The fields of a post that listings need.
#[derive(Debug, Clone)]
pub struct CompactPost {
    pub id: u32,
    pub slug: String,
    pub title: String,
    pub poster_id: u32,
    pub short_description: String,
    pub tag_ids: Vec<u32>,
    pub published_at: String,
}

/// A post with any field possibly missing.
#[derive(Debug, Clone)]
pub struct PartialPost {
    pub id: Option<u32>,
    pub slug: Option<String>,
    pub title: Option<String>,
    pub poster_id: Option<u32>,
    pub short_description: Option<String>,
    pub description: Option<String>,
    pub tag_ids: Option<Vec<u32>>,
    pub is_confirmed: Option<bool>,
    pub published_at: Option<String>,
}

/// A copy of a list of identifiers.
pub fn copy_ids(v: &Vec<u32>) -> (r: Vec<u32>)
    ensures
        r@ == v@,
{
    let mut r: Vec<u32> = Vec::new();
    let mut i: usize = 0;
    while i < v.len()
        invariant
            i <= v@.len(),
            r@ == v@.take(i as int),
        decreases v@.len() - i,
    {
        r.push(v[i]);
        i = i + 1;
        proof {
            assert(r@ =~= v@.take(i as int));
        }
    }
    proof {
        assert(v@.take(i as int) =~= v@);
    }
    r
}

/// Conversion of a post to its compact form.
pub trait PostTrait {
    /// The post this value describes.
    spec fn post_value(&self) -> PostView;

    fn to_compact_post(&self) -> (r: CompactPost)
        ensures
            r.id == self.post_value().id,
            r.slug@ == self.post_value().slug,
            r.title@ == self.post_value().title,
            r.poster_id == self.post_value().poster_id,
            r.short_description@ == self.post_value().short_description,
            r.tag_ids@ == self.post_value().tag_ids,
            r.published_at@ == self.post_value().published_at,
    ;
}

impl PostTrait for Post {
    open spec fn post_value(&self) -> PostView {
        post_view(*self)
    }

    fn to_compact_post(&self) -> (r: CompactPost) {
        CompactPost {
            id: self.id,
            slug: self.slug.clone(),
            title: self.title.clone(),
            poster_id: self.poster_id,
            short_description: self.short_description.clone(),
            tag_ids: copy_ids(&self.tag_ids),
            published_at: self.published_at.clone(),
        }
    }
}

/// Completing a partial post from a fallback.
pub trait PartialPostTrait {
    /// The post made of the present fields, the others from `fallback`.
    spec fn over(&self, fallback: PostView) -> PostView;

    fn to_post(&self, fallback_post: Post) -> (r: Post)
        ensures
            post_view(r) == self.over(post_view(fallback_post)),
    ;
}

impl PartialPostTrait for PartialPost {
    open spec fn over(&self, fallback: PostView) -> PostView {
        post_merged(*self, fallback)
    }

    fn to_post(&self, fallback_post: Post) -> (r: Post) {
        Post {
            id: match self.id {
                Some(id) => id,
                None => fallback_post.id,
            },
            slug: match &self.slug {
                Some(s) => s.clone(),
                None => fallback_post.slug,
            },
            title: match &self.title {
                Some(s) => s.clone(),
                None => fallback_post.title,
            },
            poster_id: match self.poster_id {
                Some(id) => id,
                None => fallback_post.poster_id,
            },
            short_description: match &self.short_description {
                Some(s) => s.clone(),
                None => fallback_post.short_description,
            },
            description: match &self.description {
                Some(s) => s.clone(),
                None => fallback_post.description,
            },
            tag_ids: match &self.tag_ids {
                Some(ids) => copy_ids(ids),
                None => fallback_post.tag_ids,
            },
            is_confirmed: match self.is_confirmed {
                Some(b) => b,
                None => fallback_post.is_confirmed,
            },
            published_at: match &self.published_at {
                Some(s) => s.clone(),
                None => fallback_post.published_at,
            },
        }
    }
}

/// A post as a mathematical value.
pub struct PostView {
    pub id: u32,
    pub slug: Seq<char>,
    pub title: Seq<char>,
    pub poster_id: u32,
    pub short_description: Seq<char>,
    pub description: Seq<char>,
    pub tag_ids: Seq<u32>,
    pub is_confirmed: bool,
    pub published_at: Seq<char>,
}

/// The value of a post.
pub open spec fn post_view(p: Post) -> PostView {
    PostView {
        id: p.id,
        slug: p.slug@,
        title: p.title@,
        poster_id: p.poster_id,
        short_description: p.short_description@,
        description: p.description@,
        tag_ids: p.tag_ids@,
        is_confirmed: p.is_confirmed,
        published_at: p.published_at@,
    }
}

/// The fields of `p` that are present, the others from `d`.
pub open spec fn post_merged(p: PartialPost, d: PostView) -> PostView {
    PostView {
        id: match p.id {
            Some(v) => v,
            None => d.id,
        },
        slug: match p.slug {
            Some(v) => v@,
            None => d.slug,
        },
        title: match p.title {
            Some(v) => v@,
            None => d.title,
        },
        poster_id: match p.poster_id {
            Some(v) => v,
            None => d.poster_id,
        },
        short_description: match p.short_description {
            Some(v) => v@,
            None => d.short_description,
        },
        description: match p.description {
            Some(v) => v@,
            None => d.description,
        },
        tag_ids: match p.tag_ids {
            Some(v) => v@,
            None => d.tag_ids,
        },
        is_confirmed: match p.is_confirmed {
            Some(v) => v,
            None => d.is_confirmed,
        },
        published_at: match p.published_at {
            Some(v) => v@,
            None => d.published_at,
        },
    }
}

} // verus!
