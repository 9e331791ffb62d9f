use org_wiki::page::{page_title, PageMeta};

#[test]
fn extracts_title() {
    let meta = PageMeta::parse("#+title: My Page\n\n* Section\n");
    assert_eq!(meta.title.as_deref(), Some("My Page"));
}

#[test]
fn title_is_case_insensitive() {
    let meta = PageMeta::parse("#+TITLE: Upper\n");
    assert_eq!(meta.title.as_deref(), Some("Upper"));
}

#[test]
fn title_stops_at_headline() {
    // A #+title: after a headline is not a document keyword.
    let meta = PageMeta::parse("* Headline\n#+title: Not a title\n");
    assert!(meta.title.is_none());
}

#[test]
fn missing_title_returns_none() {
    let meta = PageMeta::parse("#+author: Someone\n\n* Section\n");
    assert!(meta.title.is_none());
}

#[test]
fn repeated_title_joins_with_space() {
    let meta = PageMeta::parse("#+TITLE: hello\n#+TITLE: world\n");
    assert_eq!(meta.title.as_deref(), Some("hello world"));
}

#[test]
fn extracts_author_and_date() {
    let meta = PageMeta::parse("#+title: T\n#+author: Logan Barnett\n#+date: 2026-05-21\n");
    assert_eq!(meta.author.as_deref(), Some("Logan Barnett"));
    assert_eq!(meta.date.as_deref(), Some("2026-05-21"));
}

#[test]
fn extracts_filetags_colon_form() {
    let meta = PageMeta::parse("#+FILETAGS: :rust:wiki:\n");
    assert_eq!(meta.filetags, vec!["rust", "wiki"]);
}

#[test]
fn filetags_merge_across_lines() {
    let meta = PageMeta::parse("#+filetags: :rust:\n#+filetags: :wiki:\n");
    assert_eq!(meta.filetags, vec!["rust", "wiki"]);
}

#[test]
fn missing_filetags_is_empty() {
    let meta = PageMeta::parse("#+title: t\n");
    assert!(meta.filetags.is_empty());
}

#[test]
fn filetags_whitespace_form() {
    let meta = PageMeta::parse("#+filetags: alpha  beta\tgamma\n");
    assert_eq!(meta.filetags, vec!["alpha", "beta", "gamma"]);
}

#[test]
fn from_keywords_joins_author_values() {
    let kws = vec![
        ("AUTHOR".to_string(), " Ada ".to_string()),
        ("Author".to_string(), "Lovelace".to_string()),
        ("DATE".to_string(), "  ".to_string()),
        ("date".to_string(), "today".to_string()),
        ("FILETAGS".to_string(), ":a::b: c".to_string()),
    ];
    let meta = PageMeta::from_keywords(Some("T".to_string()), &kws);
    assert_eq!(meta.title.as_deref(), Some("T"));
    assert_eq!(meta.author.as_deref(), Some("Ada Lovelace"));
    // A blank first value leaves the text empty, so no space precedes the next.
    assert_eq!(meta.date.as_deref(), Some("today"));
    assert_eq!(meta.filetags, vec!["a", "b", "c"]);
}

#[test]
fn from_keywords_without_matches() {
    let kws = vec![("OPTIONS".to_string(), "toc:nil".to_string())];
    let meta = PageMeta::from_keywords(None, &kws);
    assert!(meta.title.is_none());
    assert!(meta.author.is_none());
    assert!(meta.date.is_none());
    assert!(meta.filetags.is_empty());
}

#[test]
fn display_title_prefers_title() {
    let meta = PageMeta::parse("#+title: Shown\n");
    assert_eq!(meta.display_title("stem"), "Shown");
    let untitled = PageMeta::parse("plain text\n");
    assert_eq!(untitled.display_title("stem"), "stem");
}

#[test]
fn page_title_falls_back_to_file_stem() {
    assert_eq!(page_title(Some("#+title: Guide\n"), "guides/setup.org"), "Guide");
    assert_eq!(page_title(Some("no keywords\n"), "guides/setup.org"), "setup");
    assert_eq!(page_title(None, "index.org"), "index");
    assert_eq!(page_title(None, ".org"), ".org");
}
