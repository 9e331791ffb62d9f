use org_wiki::cache::{html_key_of, lookup_result, Cache, CacheError, FileRead};

#[test]
fn nested_page_maps_to_mirrored_file() {
    let cache = Cache::new("/var/cache/wiki".to_string());
    assert_eq!(cache.entry_path("guides/setup.org").as_deref(), Some("/var/cache/wiki/guides/setup.html"));
    assert_eq!(cache.entry_path("index.org").as_deref(), Some("/var/cache/wiki/index.html"));
}

#[test]
fn key_without_org_gets_html_appended() {
    assert_eq!(html_key_of("notes"), "notes.html");
    assert_eq!(html_key_of("a/b.org"), "a/b.html");
    assert_eq!(html_key_of(".org"), ".html");
}

#[test]
fn disabled_cache_has_no_entries() {
    let cache = Cache::disabled();
    assert!(cache.entry_path("index.org").is_none());
    assert!(Cache::from_dir(None).entry_path("index.org").is_none());
    assert_eq!(Cache::from_dir(Some("c".to_string())).entry_path("a.org").as_deref(), Some("c/a.html"));
}

#[test]
fn distinct_pages_get_distinct_files() {
    let cache = Cache::new("c".to_string());
    let a = cache.entry_path("a.org").unwrap();
    let b = cache.entry_path("a/b.org").unwrap();
    assert_ne!(a, b);
}

#[test]
fn read_outcomes() {
    assert_eq!(
        lookup_result("p".to_string(), FileRead::Contents("<p>hello</p>".to_string())).unwrap().as_deref(),
        Some("<p>hello</p>")
    );
    assert!(lookup_result("p".to_string(), FileRead::NotFound).unwrap().is_none());
    match lookup_result("p".to_string(), FileRead::Failed("denied".to_string())) {
        Err(CacheError::Read { path, message }) => {
            assert_eq!(path, "p");
            assert_eq!(message, "denied");
        }
        other => panic!("unexpected: {other:?}"),
    }
}
