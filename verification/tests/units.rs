//! Unit tests of the pipeline's pieces: date validation, the frontmatter
//! split, and sorting.

use blog_posts::dates::{date_key, validate_date};
use blog_posts::frontmatter::split_frontmatter;
use blog_posts::posts::{parse_post_content, sort_posts, sort_posts_in, SortDirection};

#[test]
fn validates_calendar_dates() {
    assert!(validate_date("2024-01-01"));
    assert!(validate_date("2024-02-29")); // leap year
    assert!(validate_date("2000-02-29")); // divisible by 400
    assert!(validate_date("0001-12-31"));
    assert!(!validate_date("1900-02-29")); // divisible by 100, not by 400
    assert!(!validate_date("2023-02-29"));
    assert!(!validate_date("2024-04-31"));
    assert!(!validate_date("2024-00-10"));
    assert!(!validate_date("2024-13-01"));
    assert!(!validate_date("2024-05-00"));
    assert!(!validate_date("2024-5-1"));
    assert!(!validate_date("2024/05/01"));
    assert!(!validate_date("24-05-01"));
    assert!(!validate_date(""));
    assert!(!validate_date("yesterday"));
}

#[test]
fn date_keys_order_as_the_calendar_does() {
    assert_eq!(date_key("2024-01-31"), 20240131);
    assert!(date_key("2023-05-05") < date_key("2024-01-01"));
    assert!(date_key("2024-01-01") < date_key("2024-01-02"));
    assert!(date_key("2024-01-31") < date_key("2024-02-01"));
}

#[test]
fn splits_frontmatter_from_body() {
    let text = "---\na: 1\nb: 2\n---\nbody line\n";
    let (block, body) = split_frontmatter(text).expect("both markers are present");
    assert_eq!(block, "a: 1\nb: 2\n");
    assert_eq!(body, "body line\n");
}

#[test]
fn marker_lines_tolerate_trailing_whitespace() {
    let text = "--- \t\na: 1\n---\r\nbody";
    let (block, body) = split_frontmatter(text).expect("padded markers still count");
    assert_eq!(block, "a: 1\n");
    assert_eq!(body, "body");
}

#[test]
fn text_without_markers_does_not_split() {
    assert!(split_frontmatter("no markers at all").is_none());
    assert!(split_frontmatter("---\nopen but never closed").is_none());
    assert!(split_frontmatter("late\n---\nmarker\n---\n").is_none());
    assert!(split_frontmatter("---").is_none());
}

#[test]
fn closing_marker_at_end_of_file_gives_empty_body() {
    let (block, body) = split_frontmatter("---\na: 1\n---").expect("closing marker at EOF");
    assert_eq!(block, "a: 1\n");
    assert_eq!(body, "");
}

#[test]
fn first_closing_marker_ends_the_block() {
    let text = "---\na: 1\n---\nintro\n---\nrest";
    let (block, body) = split_frontmatter(text).expect("both markers are present");
    assert_eq!(block, "a: 1\n");
    assert_eq!(body, "intro\n---\nrest");
}

#[test]
fn crlf_files_split_like_lf_files() {
    let text = "---\r\nslug: crlf\r\ntitle: t\r\ndescription: d\r\nauthor: a\r\ndate: 2024-01-01\r\ntags: []\r\n---\r\nbody";
    let post = parse_post_content(text).expect("carriage returns do not break a post");
    assert_eq!(post.meta.slug, "crlf");
    assert!(post.content.contains("body"));
}

#[test]
fn quoted_yaml_values_come_through_verbatim() {
    let text = [
        "---",
        "slug: quoted",
        "title: \"Colon: inside\"",
        "description: 'single quoted'",
        "author: a",
        "date: 2024-01-01",
        "tags:",
        "  - \"tag one\"",
        "---",
        "body",
    ]
    .join("\n");
    let post = parse_post_content(&text).expect("quoted scalars are strings");
    assert_eq!(post.meta.title, "Colon: inside");
    assert_eq!(post.meta.description, "single quoted");
    assert_eq!(post.meta.tags, vec!["tag one".to_string()]);
}

#[test]
fn sorts_posts_in_place_ascending() {
    let make = |slug: &str, date: &str| {
        let text = format!(
            "---\nslug: {}\ntitle: t\ndescription: d\nauthor: a\ndate: {}\ntags: []\n---\nbody",
            slug, date
        );
        parse_post_content(&text).expect("valid post")
    };
    let mut posts = vec![
        make("c", "2024-03-01"),
        make("a", "2022-01-15"),
        make("b", "2023-07-09"),
    ];
    sort_posts(&mut posts);
    let slugs: Vec<&str> = posts.iter().map(|p| p.meta.slug.as_str()).collect();
    assert_eq!(slugs, vec!["a", "b", "c"]);
}

#[test]
fn sort_direction_is_an_explicit_parameter() {
    let make = |slug: &str, date: &str| {
        let text = format!(
            "---\nslug: {}\ntitle: t\ndescription: d\nauthor: a\ndate: {}\ntags: []\n---\nbody",
            slug, date
        );
        parse_post_content(&text).expect("valid post")
    };
    let original = vec![
        make("mid", "2023-07-09"),
        make("new", "2024-03-01"),
        make("old", "2022-01-15"),
    ];

    let mut ascending = original.clone();
    sort_posts_in(&mut ascending, SortDirection::Ascending);
    let slugs: Vec<&str> = ascending.iter().map(|p| p.meta.slug.as_str()).collect();
    assert_eq!(slugs, vec!["old", "mid", "new"]);

    let mut default_order = original.clone();
    sort_posts(&mut default_order);
    assert_eq!(default_order, ascending);

    let mut descending = original.clone();
    sort_posts_in(&mut descending, SortDirection::Descending);
    let slugs: Vec<&str> = descending.iter().map(|p| p.meta.slug.as_str()).collect();
    assert_eq!(slugs, vec!["new", "mid", "old"]);
}
