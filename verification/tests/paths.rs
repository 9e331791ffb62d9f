use org_wiki::paths::{
    classify_entry, join_path, normalize_page_path, page_stem, path_le_exec, sort_page_paths,
    EntryKind,
};

#[test]
fn normalize_appends_extension() {
    assert_eq!(normalize_page_path("guides/setup"), "guides/setup.org");
    assert_eq!(normalize_page_path("index.org"), "index.org");
}

#[test]
fn normalize_strips_traversal() {
    assert_eq!(normalize_page_path("/../../etc/passwd"), "etc/passwd.org");
    assert_eq!(normalize_page_path("a/./b//c/../d.org"), "a/b/c/d.org");
    assert_eq!(normalize_page_path("//x/"), "x/.org");
    assert_eq!(normalize_page_path(""), ".org");
}

#[test]
fn normalize_is_idempotent_on_examples() {
    for raw in ["/a/../b", "guides/setup", "..", "x//y/.org"] {
        let once = normalize_page_path(raw);
        assert_eq!(normalize_page_path(&once), once);
        assert!(once.ends_with(".org"));
        assert!(!once.starts_with('/'));
        assert!(once.split('/').all(|c| !c.is_empty() && c != "." && c != ".."));
    }
}

#[test]
fn join_follows_path_join() {
    assert_eq!(join_path("/cache", "a/b.html"), "/cache/a/b.html");
    assert_eq!(join_path("/cache/", "a.html"), "/cache/a.html");
    assert_eq!(join_path("", "a.html"), "a.html");
    assert_eq!(join_path("/cache", "/abs.html"), "/abs.html");
    for (b, r) in [("/cache", "a/b.html"), ("/cache/", "a.html"), ("", "a.html"), ("/c", "/abs")] {
        let expected = std::path::Path::new(b).join(r);
        assert_eq!(join_path(b, r), expected.to_string_lossy());
    }
}

#[test]
fn page_stem_matches_file_stem() {
    for p in ["guides/setup.org", "index.org", "a/.org", "x/y.tar.org"] {
        let expected = std::path::Path::new(p).file_stem().unwrap().to_string_lossy().into_owned();
        assert_eq!(page_stem(p), expected);
    }
}

#[test]
fn classify_entries() {
    assert_eq!(classify_entry(".git", true), EntryKind::Skip);
    assert_eq!(classify_entry(".hidden.org", false), EntryKind::Skip);
    assert_eq!(classify_entry("guides", true), EntryKind::Descend);
    assert_eq!(classify_entry("setup.org", false), EntryKind::Page);
    assert_eq!(classify_entry("notes.txt", false), EntryKind::Skip);
    assert_eq!(classify_entry("org", false), EntryKind::Skip);
    assert_eq!(classify_entry("archive.tar.org", false), EntryKind::Page);
}

#[test]
fn pages_sort_like_paths() {
    let pages = vec![
        "a-b.org".to_string(),
        "a/b.org".to_string(),
        "README.org".to_string(),
        "a/a.org".to_string(),
        "a.org".to_string(),
    ];
    let sorted = sort_page_paths(pages.clone());
    let mut expected: Vec<std::path::PathBuf> = pages.iter().map(std::path::PathBuf::from).collect();
    expected.sort();
    let expected: Vec<String> = expected.iter().map(|p| p.to_string_lossy().into_owned()).collect();
    assert_eq!(sorted, expected);
    assert_eq!(sorted, vec!["README.org", "a/a.org", "a/b.org", "a-b.org", "a.org"]);
}

#[test]
fn path_order_is_component_wise() {
    assert!(path_le_exec("a/b", "a-b"));
    assert!(!path_le_exec("a-b", "a/b"));
    assert!(path_le_exec("a", "a/b"));
    assert!(path_le_exec("x.org", "x.org"));
}
