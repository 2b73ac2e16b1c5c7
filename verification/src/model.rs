//! The data model: a post's metadata, the post itself (metadata plus the
//! HTML rendered from its markdown body), and the mathematical views that
//! contracts speak of.

use vstd::prelude::*;
use crate::dates::is_valid_date;

verus! {

/// Metadata for a blog post, used for listing.
///
/// Every field is read from the frontmatter block of the post's source
/// file. `slug` through `tags` are required there; the rest are optional.
#[derive(Debug, Clone, PartialEq)]
pub struct BlogPostMeta {
    /// Unique identifier/slug for the blog post.
    pub slug: String,
    /// Title of the blog post.
    pub title: String,
    /// Short description/excerpt.
    pub description: String,
    /// Author name.
    pub author: String,
    /// Publication date, `YYYY-MM-DD`.
    pub date: String,
    /// Optional cover image path (relative to the public assets root).
    pub cover_image: Option<String>,
    /// Tags for categorization.
    pub tags: Vec<String>,
    /// OpenGraph title (falls back to `title` where absent).
    pub og_title: Option<String>,
    /// OpenGraph description (falls back to `description` where absent).
    pub og_description: Option<String>,
    /// OpenGraph image URL (falls back to `cover_image` where absent).
    pub og_image: Option<String>,
    /// OpenGraph type (for example `article`).
    pub og_type: Option<String>,
}

/// Full blog post: metadata plus the HTML rendered from the body.
#[derive(Debug, Clone, PartialEq)]
pub struct BlogPost {
    /// Metadata.
    pub meta: BlogPostMeta,
    /// HTML produced from the markdown body of the source file.
    pub content: String,
}

/// The mathematical value of a [`BlogPostMeta`]: each string as its
/// sequence of characters.
#[verifier::ext_equal]
pub ghost struct MetaView {
    pub slug: Seq<char>,
    pub title: Seq<char>,
    pub description: Seq<char>,
    pub author: Seq<char>,
    pub date: Seq<char>,
    pub cover_image: Option<Seq<char>>,
    pub tags: Seq<Seq<char>>,
    pub og_title: Option<Seq<char>>,
    pub og_description: Option<Seq<char>>,
    pub og_image: Option<Seq<char>>,
    pub og_type: Option<Seq<char>>,
}

/// The mathematical value of a [`BlogPost`].
#[verifier::ext_equal]
pub ghost struct PostView {
    pub meta: MetaView,
    pub content: Seq<char>,
}

impl MetaView {
    /// A well-formed metadata value carries a valid calendar date.
    pub open spec fn wf(self) -> bool {
        is_valid_date(self.date)
    }
}

impl View for BlogPostMeta {
    type V = MetaView;

    open spec fn view(&self) -> MetaView {
        MetaView {
            slug: self.slug@,
            title: self.title@,
            description: self.description@,
            author: self.author@,
            date: self.date@,
            cover_image: self.cover_image.deep_view(),
            tags: self.tags.deep_view(),
            og_title: self.og_title.deep_view(),
            og_description: self.og_description.deep_view(),
            og_image: self.og_image.deep_view(),
            og_type: self.og_type.deep_view(),
        }
    }
}

impl DeepView for BlogPostMeta {
    type V = MetaView;

    open spec fn deep_view(&self) -> MetaView {
        self.view()
    }
}

impl View for BlogPost {
    type V = PostView;

    open spec fn view(&self) -> PostView {
        PostView { meta: self.meta@, content: self.content@ }
    }
}

impl DeepView for BlogPost {
    type V = PostView;

    open spec fn deep_view(&self) -> PostView {
        self.view()
    }
}

impl BlogPostMeta {
    /// An explicit copy whose view provably equals the original's.
    pub fn duplicate(&self) -> (r: BlogPostMeta)
        ensures
            r@ == self@,
    {
        let mut tags: Vec<String> = Vec::new();
        let mut i: usize = 0;
        while i < self.tags.len()
            invariant
                i <= self.tags.len(),
                tags@.len() == i,
                forall|k: int| 0 <= k < i ==> tags@[k]@ == self.tags@[k]@,
            decreases self.tags.len() - i,
        {
            let t = self.tags[i].clone();
            tags.push(t);
            i = i + 1;
        }
        proof {
            assert(tags.deep_view() =~~= self.tags.deep_view());
        }
        let r = BlogPostMeta {
            slug: self.slug.clone(),
            title: self.title.clone(),
            description: self.description.clone(),
            author: self.author.clone(),
            date: self.date.clone(),
            cover_image: clone_opt(&self.cover_image),
            tags,
            og_title: clone_opt(&self.og_title),
            og_description: clone_opt(&self.og_description),
            og_image: clone_opt(&self.og_image),
            og_type: clone_opt(&self.og_type),
        };
        proof {
            assert(r@ =~~= self@);
        }
        r
    }
}

impl BlogPost {
    /// An explicit copy whose view provably equals the original's.
    pub fn duplicate(&self) -> (r: BlogPost)
        ensures
            r@ == self@,
    {
        BlogPost { meta: self.meta.duplicate(), content: self.content.clone() }
    }
}

/// An explicit copy of an optional string whose deep view provably equals
/// the original's.
fn clone_opt(o: &Option<String>) -> (r: Option<String>)
    ensures
        r.deep_view() == o.deep_view(),
{
    match o {
        Some(s) => Some(s.clone()),
        None => None,
    }
}

} // verus!
