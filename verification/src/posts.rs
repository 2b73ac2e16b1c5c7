//! The pipeline itself: parsing one post file, sorting the parsed posts by
//! date, and assembling and querying the collection.

use vstd::prelude::*;
use crate::dates::{date_num, date_key, is_valid_date, validate_date};
use crate::frontmatter::{spec_split_frontmatter, split_frontmatter};
use crate::markdown::{html_of, markdown_to_html};
use crate::model::{BlogPost, BlogPostMeta, MetaView, PostView};
use crate::yaml::{list_field, str_field, yaml_list_field, yaml_str_field};

verus! {

/// The metadata held by the frontmatter block `block`: `None` where the
/// block lacks one of the required fields — `slug`, `title`,
/// `description`, `author`, `date`, `tags` — or where its date is not a
/// valid `YYYY-MM-DD` calendar date.
pub open spec fn spec_meta(block: Seq<char>) -> Option<MetaView> {
    match (
        yaml_str_field(block, "slug"@),
        yaml_str_field(block, "title"@),
        yaml_str_field(block, "description"@),
        yaml_str_field(block, "author"@),
        yaml_str_field(block, "date"@),
        yaml_list_field(block, "tags"@),
    ) {
        (Some(slug), Some(title), Some(description), Some(author), Some(date), Some(tags)) => {
            if is_valid_date(date) {
                Some(
                    MetaView {
                        slug,
                        title,
                        description,
                        author,
                        date,
                        cover_image: yaml_str_field(block, "cover_image"@),
                        tags,
                        og_title: yaml_str_field(block, "og_title"@),
                        og_description: yaml_str_field(block, "og_description"@),
                        og_image: yaml_str_field(block, "og_image"@),
                        og_type: yaml_str_field(block, "og_type"@),
                    },
                )
            } else {
                None
            }
        },
        _ => None,
    }
}

/// The post held by the file text `s`: its frontmatter's metadata and the
/// HTML rendering of its body. `None` where the text has no frontmatter
/// block or the block's metadata is rejected.
pub open spec fn spec_parse_post(s: Seq<char>) -> Option<PostView> {
    match spec_split_frontmatter(s) {
        None => None,
        Some(pair) => match spec_meta(pair.0) {
            None => None,
            Some(m) => Some(PostView { meta: m, content: html_of(pair.1) }),
        },
    }
}

/// Why a file was skipped rather than ingested. One bad file is reported
/// with its kind and never fails the rest of the batch.
#[derive(Clone, Copy, Debug, PartialEq, Eq, Structural)]
pub enum SkipReason {
    /// The text has no complete frontmatter block: no opening marker
    /// line, or no closing one.
    MissingFrontmatter,
    /// A required field — `slug`, `title`, `description`, `author`,
    /// `date`, `tags` — is absent or not of the required type, or the
    /// block's data could not be read at all.
    MissingRequiredField,
    /// The `date` field is not a valid `YYYY-MM-DD` calendar date.
    InvalidDate,
}

/// Whether the frontmatter block holds every required field, with the
/// required type.
pub open spec fn spec_required_present(block: Seq<char>) -> bool {
    &&& yaml_str_field(block, "slug"@) is Some
    &&& yaml_str_field(block, "title"@) is Some
    &&& yaml_str_field(block, "description"@) is Some
    &&& yaml_str_field(block, "author"@) is Some
    &&& yaml_str_field(block, "date"@) is Some
    &&& yaml_list_field(block, "tags"@) is Some
}

/// The kind of rejection a file text earns, or `None` where it is a
/// valid post.
pub open spec fn spec_skip_reason(s: Seq<char>) -> Option<SkipReason> {
    match spec_split_frontmatter(s) {
        None => Some(SkipReason::MissingFrontmatter),
        Some(pair) => if !spec_required_present(pair.0) {
            Some(SkipReason::MissingRequiredField)
        } else {
            match yaml_str_field(pair.0, "date"@) {
                Some(date) => if !is_valid_date(date) {
                    Some(SkipReason::InvalidDate)
                } else {
                    None
                },
                None => Some(SkipReason::MissingRequiredField),
            }
        },
    }
}

/// Parses one post file: splits frontmatter from body, reads the metadata
/// fields, validates the date, and renders the body to HTML. A text that
/// is not a valid post earns the kind of its rejection — the file is
/// skipped, never the whole batch.
pub fn parse_post_checked(content: &str) -> (r: Result<BlogPost, SkipReason>)
    ensures
        r matches Ok(p) ==> spec_parse_post(content@) == Some(p@) && p@.meta.wf(),
        r matches Err(e) ==> spec_skip_reason(content@) == Some(e),
        r is Ok <==> spec_parse_post(content@) is Some,
{
    let (block, body) = match split_frontmatter(content) {
        Some(pair) => pair,
        None => {
            return Err(SkipReason::MissingFrontmatter);
        },
    };
    let slug = match str_field(block, "slug") {
        Some(v) => v,
        None => {
            return Err(SkipReason::MissingRequiredField);
        },
    };
    let title = match str_field(block, "title") {
        Some(v) => v,
        None => {
            return Err(SkipReason::MissingRequiredField);
        },
    };
    let description = match str_field(block, "description") {
        Some(v) => v,
        None => {
            return Err(SkipReason::MissingRequiredField);
        },
    };
    let author = match str_field(block, "author") {
        Some(v) => v,
        None => {
            return Err(SkipReason::MissingRequiredField);
        },
    };
    let date = match str_field(block, "date") {
        Some(v) => v,
        None => {
            return Err(SkipReason::MissingRequiredField);
        },
    };
    let tags = match list_field(block, "tags") {
        Some(v) => v,
        None => {
            return Err(SkipReason::MissingRequiredField);
        },
    };
    if !validate_date(date.as_str()) {
        return Err(SkipReason::InvalidDate);
    }
    let meta = BlogPostMeta {
        slug,
        title,
        description,
        author,
        date,
        cover_image: str_field(block, "cover_image"),
        tags,
        og_title: str_field(block, "og_title"),
        og_description: str_field(block, "og_description"),
        og_image: str_field(block, "og_image"),
        og_type: str_field(block, "og_type"),
    };
    let html = markdown_to_html(body);
    let post = BlogPost { meta, content: html };
    proof {
        assert(spec_parse_post(content@) == Some(post@)) by {
            assert(post@.meta =~= spec_meta(block@).unwrap());
        }
    }
    Ok(post)
}

/// Parses one post file, dropping the rejection kind: `None` simply
/// skips the file.
pub fn parse_post_content(content: &str) -> (r: Option<BlogPost>)
    ensures
        r matches Some(p) ==> spec_parse_post(content@) == Some(p@),
        r is None <==> spec_parse_post(content@) is None,
        r matches Some(p) ==> p@.meta.wf(),
{
    match parse_post_checked(content) {
        Ok(p) => Some(p),
        Err(_) => None,
    }
}

/// The direction a collection is ordered in. The assembler itself always
/// orders ascending — oldest first — but the direction is an explicit
/// parameter of the sort, so a caller wanting a newest-first index can
/// ask for the other one.
#[derive(Clone, Copy, Debug, PartialEq, Eq, Structural)]
pub enum SortDirection {
    /// Oldest post first.
    Ascending,
    /// Newest post first.
    Descending,
}

/// Whether `a` may stand before `b` when ordering in direction `dir`.
pub open spec fn in_order(dir: SortDirection, a: PostView, b: PostView) -> bool {
    match dir {
        SortDirection::Ascending => date_num(a.meta.date) <= date_num(b.meta.date),
        SortDirection::Descending => date_num(a.meta.date) >= date_num(b.meta.date),
    }
}

/// The sequence is ordered by date in direction `dir`.
pub open spec fn sorted_in(dir: SortDirection, s: Seq<PostView>) -> bool {
    forall|i: int, j: int| 0 <= i < j < s.len() ==> in_order(dir, s[i], s[j])
}

/// The sequence is ordered by date, ascending.
pub open spec fn sorted_by_date(s: Seq<PostView>) -> bool {
    sorted_in(SortDirection::Ascending, s)
}

/// Stable insertion of `p` into `s`: `p` lands after every element that
/// may stand before it.
pub open spec fn insert_in_order(dir: SortDirection, p: PostView, s: Seq<PostView>) -> Seq<
    PostView,
>
    decreases s.len(),
{
    if s.len() == 0 {
        seq![p]
    } else if in_order(dir, s.last(), p) {
        s.push(p)
    } else {
        insert_in_order(dir, p, s.drop_last()).push(s.last())
    }
}

/// Stable insertion sort by date in direction `dir`: posts with equal
/// dates keep their relative order.
pub open spec fn sort_in_order(dir: SortDirection, s: Seq<PostView>) -> Seq<PostView>
    decreases s.len(),
{
    if s.len() == 0 {
        Seq::empty()
    } else {
        insert_in_order(dir, s.last(), sort_in_order(dir, s.drop_last()))
    }
}

/// Stable insertion sort by date, ascending: the ordering the assembled
/// collection has.
pub open spec fn sort_by_date(s: Seq<PostView>) -> Seq<PostView> {
    sort_in_order(SortDirection::Ascending, s)
}

/// Where `j` sits right after the last element of `s` that may stand
/// before `p`, insertion lands `p` exactly at `j`.
proof fn lemma_insert_position(dir: SortDirection, p: PostView, s: Seq<PostView>, j: int)
    requires
        0 <= j <= s.len(),
        j > 0 ==> in_order(dir, s[j - 1], p),
        forall|k: int| j <= k < s.len() ==> !in_order(dir, #[trigger] s[k], p),
    ensures
        insert_in_order(dir, p, s) == s.subrange(0, j).push(p) + s.subrange(j, s.len() as int),
    decreases s.len(),
{
    if s.len() == 0 {
        assert(insert_in_order(dir, p, s) =~= s.subrange(0, j).push(p) + s.subrange(j, 0));
    } else if in_order(dir, s.last(), p) {
        assert(j == s.len()) by {
            if j < s.len() {
                assert(!in_order(dir, s[s.len() - 1], p));
            }
        }
        assert(insert_in_order(dir, p, s) =~= s.subrange(0, j).push(p) + s.subrange(
            j,
            s.len() as int,
        ));
    } else {
        assert(j < s.len()) by {
            if j == s.len() {
                assert(in_order(dir, s[j - 1], p));
            }
        }
        lemma_insert_position(dir, p, s.drop_last(), j);
        assert(s.drop_last().subrange(0, j) =~= s.subrange(0, j));
        assert(s.drop_last().subrange(j, s.len() - 1) =~= s.subrange(j, s.len() - 1));
        assert(insert_in_order(dir, p, s) =~= s.subrange(0, j).push(p) + s.subrange(
            j,
            s.len() as int,
        ));
    }
}

/// Inserts `p` into the sorted collection, keeping it sorted by date.
fn insert_sorted(sorted: &mut Vec<BlogPost>, p: BlogPost, dir: SortDirection)
    requires
        sorted_in(dir, old(sorted).deep_view()),
        forall|k: int|
            0 <= k < old(sorted)@.len() ==> is_valid_date(
                #[trigger] old(sorted)@[k].meta.date@,
            ),
        is_valid_date(p.meta.date@),
    ensures
        final(sorted).deep_view() == insert_in_order(dir, p@, old(sorted).deep_view()),
        sorted_in(dir, final(sorted).deep_view()),
        forall|k: int|
            0 <= k < final(sorted)@.len() ==> is_valid_date(
                #[trigger] final(sorted)@[k].meta.date@,
            ),
{
    let key = date_key(p.meta.date.as_str());
    let mut j: usize = sorted.len();
    while j > 0
        invariant
            j <= sorted@.len(),
            *sorted == *old(sorted),
            forall|k: int|
                0 <= k < sorted@.len() ==> is_valid_date(#[trigger] sorted@[k].meta.date@),
            key as int == date_num(p@.meta.date),
            forall|k: int|
                j <= k < sorted@.len() ==> !in_order(
                    dir,
                    #[trigger] sorted.deep_view()[k],
                    p@,
                ),
        ensures
            j <= sorted@.len(),
            *sorted == *old(sorted),
            forall|k: int|
                j <= k < sorted@.len() ==> !in_order(
                    dir,
                    #[trigger] sorted.deep_view()[k],
                    p@,
                ),
            j > 0 ==> in_order(dir, sorted.deep_view()[j - 1], p@),
        decreases j,
    {
        let kj = date_key(sorted[j - 1].meta.date.as_str());
        let fits = match dir {
            SortDirection::Ascending => kj <= key,
            SortDirection::Descending => kj >= key,
        };
        if fits {
            break ;
        }
        j = j - 1;
    }
    let ghost ov = sorted.deep_view();
    let ghost jj = j as int;
    proof {
        lemma_insert_position(dir, p@, ov, jj);
    }
    sorted.insert(j, p);
    proof {
        assert(sorted.deep_view() =~= ov.subrange(0, jj).push(p@) + ov.subrange(
            jj,
            ov.len() as int,
        ));
        let nv = sorted.deep_view();
        assert forall|a: int, b: int| 0 <= a < b < nv.len() implies in_order(
            dir,
            nv[a],
            nv[b],
        ) by {
            if a < jj && b == jj {
                if a < jj - 1 {
                    assert(in_order(dir, ov[a], ov[jj - 1]));
                }
            } else if a == jj && b > jj {
                assert(!in_order(dir, ov[b - 1], p@));
            } else if a < jj && b > jj {
                assert(!in_order(dir, ov[b - 1], p@));
                if a < jj - 1 {
                    assert(in_order(dir, ov[a], ov[jj - 1]));
                }
            }
        }
        assert forall|k: int| 0 <= k < sorted@.len() implies is_valid_date(
            #[trigger] sorted@[k].meta.date@,
        ) by {
            assert(sorted.deep_view()[k] == nv[k]);
            if k < jj {
                assert(nv[k] == ov[k]);
                assert(is_valid_date(old(sorted)@[k].meta.date@));
            } else if k > jj {
                assert(nv[k] == ov[k - 1]);
                assert(is_valid_date(old(sorted)@[k - 1].meta.date@));
            }
        }
    }
}

/// Sorts the collection by publication date in the given direction,
/// stably: posts with equal dates keep their relative order.
pub fn sort_posts_in(posts: &mut Vec<BlogPost>, dir: SortDirection)
    requires
        forall|k: int|
            0 <= k < old(posts)@.len() ==> is_valid_date(#[trigger] old(posts)@[k].meta.date@),
    ensures
        final(posts).deep_view() == sort_in_order(dir, old(posts).deep_view()),
{
    let mut sorted: Vec<BlogPost> = Vec::new();
    let n = posts.len();
    let mut i: usize = 0;
    while i < n
        invariant
            i <= n,
            n == posts@.len(),
            *posts == *old(posts),
            forall|k: int|
                0 <= k < posts@.len() ==> is_valid_date(#[trigger] posts@[k].meta.date@),
            sorted.deep_view() == sort_in_order(dir, posts.deep_view().subrange(0, i as int)),
            sorted_in(dir, sorted.deep_view()),
            forall|k: int|
                0 <= k < sorted@.len() ==> is_valid_date(#[trigger] sorted@[k].meta.date@),
        decreases n - i,
    {
        let p = posts[i].duplicate();
        insert_sorted(&mut sorted, p, dir);
        proof {
            let pre = posts.deep_view().subrange(0, (i + 1) as int);
            assert(pre.drop_last() =~= posts.deep_view().subrange(0, i as int));
            assert(pre.last() == posts.deep_view()[i as int]);
        }
        i = i + 1;
    }
    proof {
        assert(posts.deep_view().subrange(0, n as int) =~= posts.deep_view());
    }
    *posts = sorted;
}

/// Sorts the collection as the assembler does: by publication date,
/// ascending, so the oldest post comes first. A blog index that wants
/// the newest post first sorts with `SortDirection::Descending` instead.
pub fn sort_posts(posts: &mut Vec<BlogPost>)
    requires
        forall|k: int|
            0 <= k < old(posts)@.len() ==> is_valid_date(#[trigger] old(posts)@[k].meta.date@),
    ensures
        final(posts).deep_view() == sort_by_date(old(posts).deep_view()),
{
    sort_posts_in(posts, SortDirection::Ascending);
}

/// The posts parsed out of the file texts `ts`, in enumeration order;
/// texts that are not valid posts are skipped.
pub open spec fn parsed_views(ts: Seq<Seq<char>>) -> Seq<PostView>
    decreases ts.len(),
{
    if ts.len() == 0 {
        Seq::empty()
    } else {
        let rest = parsed_views(ts.drop_last());
        match spec_parse_post(ts.last()) {
            Some(p) => rest.push(p),
            None => rest,
        }
    }
}

/// The whole ingestion pipeline on file texts: parse what parses, skip
/// the rest, and sort by date ascending.
pub open spec fn spec_pipeline(ts: Seq<Seq<char>>) -> Seq<PostView> {
    sort_by_date(parsed_views(ts))
}

/// Every post parsed out of a batch carries a valid date.
pub proof fn lemma_parsed_views_wf(ts: Seq<Seq<char>>)
    ensures
        forall|k: int| 0 <= k < parsed_views(ts).len() ==> (#[trigger] parsed_views(ts)[k]).meta.wf(),
    decreases ts.len(),
{
    if ts.len() > 0 {
        lemma_parsed_views_wf(ts.drop_last());
    }
}

/// Runs the pipeline on the given file texts: parses every text that is a
/// valid post, skips every one that is not, and returns the posts sorted
/// by date ascending.
pub fn process_posts(texts: &Vec<String>) -> (r: Vec<BlogPost>)
    ensures
        r.deep_view() == spec_pipeline(texts.deep_view()),
{
    let mut posts: Vec<BlogPost> = Vec::new();
    let mut i: usize = 0;
    while i < texts.len()
        invariant
            i <= texts@.len(),
            posts.deep_view() == parsed_views(texts.deep_view().subrange(0, i as int)),
            forall|k: int|
                0 <= k < posts@.len() ==> is_valid_date(#[trigger] posts@[k].meta.date@),
        decreases texts@.len() - i,
    {
        let ghost pre = texts.deep_view().subrange(0, (i + 1) as int);
        proof {
            assert(pre.drop_last() =~= texts.deep_view().subrange(0, i as int));
            assert(pre.last() == texts.deep_view()[i as int]);
        }
        match parse_post_content(texts[i].as_str()) {
            Some(p) => {
                posts.push(p);
            },
            None => {},
        }
        i = i + 1;
    }
    proof {
        assert(texts.deep_view().subrange(0, texts@.len() as int) =~= texts.deep_view());
    }
    sort_posts(&mut posts);
    posts
}

/// The metadata of the assembled posts, in collection order.
pub fn list_posts(texts: &Vec<String>) -> (r: Vec<BlogPostMeta>)
    ensures
        r.deep_view() == spec_pipeline(texts.deep_view()).map_values(|p: PostView| p.meta),
{
    let posts = process_posts(texts);
    let mut metas: Vec<BlogPostMeta> = Vec::new();
    let mut i: usize = 0;
    while i < posts.len()
        invariant
            i <= posts@.len(),
            posts.deep_view() == spec_pipeline(texts.deep_view()),
            metas@.len() == i,
            forall|k: int| 0 <= k < i ==> #[trigger] metas@[k]@ == posts@[k]@.meta,
        decreases posts@.len() - i,
    {
        let m = posts[i].meta.duplicate();
        metas.push(m);
        i = i + 1;
    }
    proof {
        assert(metas.deep_view() =~~= spec_pipeline(texts.deep_view()).map_values(
            |p: PostView| p.meta,
        ));
    }
    metas
}

/// The first post in `s` whose slug is `slug`, scanning from the front.
pub open spec fn spec_find_by_slug(s: Seq<PostView>, slug: Seq<char>) -> Option<PostView>
    decreases s.len(),
{
    if s.len() == 0 {
        None
    } else if s.first().meta.slug == slug {
        Some(s.first())
    } else {
        spec_find_by_slug(s.drop_first(), slug)
    }
}

/// Finds the first post with the given slug; `None` — not an error —
/// where no post has it.
pub fn find_by_slug(posts: Vec<BlogPost>, slug: &str) -> (r: Option<BlogPost>)
    ensures
        r.deep_view() == spec_find_by_slug(posts.deep_view(), slug@),
{
    let mut i: usize = 0;
    proof {
        assert(posts.deep_view().skip(0) =~= posts.deep_view());
    }
    while i < posts.len()
        invariant
            i <= posts@.len(),
            spec_find_by_slug(posts.deep_view(), slug@) == spec_find_by_slug(
                posts.deep_view().skip(i as int),
                slug@,
            ),
        decreases posts@.len() - i,
    {
        let ghost pv = posts.deep_view();
        let ghost suf = pv.skip(i as int);
        proof {
            assert(suf.first() == pv[i as int]);
            assert(suf.drop_first() =~= pv.skip((i + 1) as int));
        }
        let hit = str_eq_string(slug, &posts[i].meta.slug);
        if hit {
            proof {
                assert(spec_find_by_slug(suf, slug@) == Some(suf.first()));
            }
            let p = posts[i].duplicate();
            return Some(p);
        }
        i = i + 1;
    }
    proof {
        assert(posts.deep_view().skip(posts@.len() as int) =~= Seq::<PostView>::empty());
        assert(spec_find_by_slug(posts.deep_view(), slug@) is None);
    }
    None
}

/// Runs the pipeline on the given file texts and looks the slug up in the
/// assembled collection.
pub fn get_post(texts: &Vec<String>, slug: &str) -> (r: Option<BlogPost>)
    ensures
        r.deep_view() == spec_find_by_slug(spec_pipeline(texts.deep_view()), slug@),
{
    let posts = process_posts(texts);
    find_by_slug(posts, slug)
}

/// Character-for-character comparison of a borrowed and an owned string.
fn str_eq_string(a: &str, b: &String) -> (r: bool)
    ensures
        r == (a@ == b@),
{
    let owned: String = a.to_owned();
    owned.eq(b)
}

} // verus!
