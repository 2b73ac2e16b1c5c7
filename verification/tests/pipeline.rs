//! End-to-end tests of the ingestion pipeline on in-memory file texts.

use blog_posts::posts::{
    get_post, list_posts, parse_post_checked, parse_post_content, process_posts, SkipReason,
};

fn full_post() -> String {
    [
        "---",
        "slug: hello-world",
        "title: Hello, world",
        "description: A first post",
        "author: Ada",
        "date: 2024-01-01",
        "cover_image: cover.png",
        "tags:",
        "  - rust",
        "  - verification",
        "og_title: Hello OG",
        "og_type: article",
        "---",
        "**bold** and ~~strike~~",
    ]
    .join("\n")
}

fn older_post() -> String {
    [
        "---",
        "slug: older",
        "title: Older",
        "description: An older post",
        "author: Grace",
        "date: 2023-05-05",
        "tags: []",
        "---",
        "Body of the older post.",
    ]
    .join("\n")
}

#[test]
fn parses_full_post_fields() {
    let post = parse_post_content(&full_post()).expect("a valid post must parse");
    assert_eq!(post.meta.slug, "hello-world");
    assert_eq!(post.meta.title, "Hello, world");
    assert_eq!(post.meta.description, "A first post");
    assert_eq!(post.meta.author, "Ada");
    assert_eq!(post.meta.date, "2024-01-01");
    assert_eq!(post.meta.cover_image.as_deref(), Some("cover.png"));
    assert_eq!(post.meta.tags, vec!["rust".to_string(), "verification".to_string()]);
    assert_eq!(post.meta.og_title.as_deref(), Some("Hello OG"));
    assert_eq!(post.meta.og_description, None);
    assert_eq!(post.meta.og_image, None);
    assert_eq!(post.meta.og_type.as_deref(), Some("article"));
}

#[test]
fn renders_markdown_extensions() {
    let post = parse_post_content(&full_post()).expect("a valid post must parse");
    assert!(post.content.contains("<strong>bold</strong>"));
    assert!(post.content.contains("<del>strike</del>"));
    assert_ne!(post.content, "**bold** and ~~strike~~");
}

#[test]
fn missing_slug_excludes_file_without_failing_batch() {
    let bad = [
        "---",
        "title: No slug here",
        "description: d",
        "author: a",
        "date: 2024-01-01",
        "tags: []",
        "---",
        "body",
    ]
    .join("\n");
    assert!(parse_post_content(&bad).is_none());
    let texts = vec![bad, full_post()];
    let metas = list_posts(&texts);
    assert_eq!(metas.len(), 1);
    assert_eq!(metas[0].slug, "hello-world");
    assert!(get_post(&texts, "no-slug").is_none());
}

#[test]
fn missing_frontmatter_is_not_a_post() {
    assert!(parse_post_content("Just a markdown file, no frontmatter.").is_none());
    assert!(parse_post_content("").is_none());
    assert!(parse_post_content("---\nslug: x\nno closing marker").is_none());
}

#[test]
fn list_is_sorted_ascending_by_date() {
    let texts = vec![full_post(), older_post()];
    let metas = list_posts(&texts);
    assert_eq!(metas.len(), 2);
    assert_eq!(metas[0].date, "2023-05-05");
    assert_eq!(metas[1].date, "2024-01-01");

    // The same posts enumerated the other way round sort the same.
    let swapped = vec![older_post(), full_post()];
    assert_eq!(list_posts(&swapped), metas);
}

#[test]
fn equal_dates_keep_enumeration_order() {
    let mut a = older_post();
    let mut b = older_post();
    a = a.replace("slug: older", "slug: first");
    b = b.replace("slug: older", "slug: second");
    let posts = process_posts(&vec![a, b]);
    assert_eq!(posts.len(), 2);
    assert_eq!(posts[0].meta.slug, "first");
    assert_eq!(posts[1].meta.slug, "second");
}

#[test]
fn absent_slug_returns_none_not_error() {
    let texts = vec![full_post(), older_post()];
    assert!(get_post(&texts, "no-such-slug").is_none());
}

#[test]
fn get_post_finds_by_slug() {
    let texts = vec![full_post(), older_post()];
    let post = get_post(&texts, "older").expect("present slug must be found");
    assert_eq!(post.meta.author, "Grace");
    assert!(post.content.contains("Body of the older post."));
}

#[test]
fn listing_twice_is_identical() {
    let texts = vec![full_post(), older_post()];
    let first = list_posts(&texts);
    let second = list_posts(&texts);
    assert_eq!(first, second);
    let once = process_posts(&texts);
    let again = process_posts(&texts);
    assert_eq!(once, again);
}

#[test]
fn no_files_means_no_posts_not_an_error() {
    let texts: Vec<String> = Vec::new();
    assert!(list_posts(&texts).is_empty());
    assert!(process_posts(&texts).is_empty());
    assert!(get_post(&texts, "anything").is_none());
}

#[test]
fn empty_body_is_empty_html_and_still_included() {
    let text = [
        "---",
        "slug: empty-body",
        "title: t",
        "description: d",
        "author: a",
        "date: 2024-06-30",
        "tags: []",
        "---",
    ]
    .join("\n")
        + "\n";
    let post = parse_post_content(&text).expect("metadata alone is a valid post");
    assert_eq!(post.content, "");
    let metas = list_posts(&vec![text]);
    assert_eq!(metas.len(), 1);
}

#[test]
fn invalid_date_excludes_post_before_sorting() {
    let bad_month = older_post().replace("date: 2023-05-05", "date: 2023-13-05");
    let bad_day = older_post().replace("date: 2023-05-05", "date: 2023-02-29");
    let free_text = older_post().replace("date: 2023-05-05", "date: yesterday");
    assert!(parse_post_content(&bad_month).is_none());
    assert!(parse_post_content(&bad_day).is_none());
    assert!(parse_post_content(&free_text).is_none());
    let texts = vec![bad_month, full_post(), bad_day, free_text];
    let metas = list_posts(&texts);
    assert_eq!(metas.len(), 1);
    assert_eq!(metas[0].slug, "hello-world");
}

#[test]
fn rejections_carry_their_kind() {
    assert_eq!(
        parse_post_checked("no frontmatter here"),
        Err(SkipReason::MissingFrontmatter)
    );
    assert_eq!(
        parse_post_checked("---\nslug: x\nnever closed"),
        Err(SkipReason::MissingFrontmatter)
    );
    let no_slug = full_post().replace("slug: hello-world\n", "");
    assert_eq!(parse_post_checked(&no_slug), Err(SkipReason::MissingRequiredField));
    let malformed = "---\n\t: : [\n---\nbody";
    assert_eq!(parse_post_checked(malformed), Err(SkipReason::MissingRequiredField));
    let bad_date = full_post().replace("date: 2024-01-01", "date: 2024-01-32");
    assert_eq!(parse_post_checked(&bad_date), Err(SkipReason::InvalidDate));
    assert!(parse_post_checked(&full_post()).is_ok());
}

#[test]
fn mistyped_required_field_excludes_post() {
    let numeric_title = older_post().replace("title: Older", "title: 17");
    assert!(parse_post_content(&numeric_title).is_none());
    let numeric_tag = older_post().replace("tags: []", "tags:\n  - 3");
    assert!(parse_post_content(&numeric_tag).is_none());
}
