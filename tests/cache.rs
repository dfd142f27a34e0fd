use picturium::cache::{
    bust_cache, cache_path, capacity_kb, detect_out_of_date, file_stem, freshness, index, is_cached,
    is_index_file, parse_du_output, remove_out_of_date, FileTimes, Freshness, IndexEntry,
};

fn t(mtime: i64, ctime: i64) -> Option<FileTimes> {
    Some(FileTimes { mtime, ctime })
}

#[test]
fn path_layout() {
    assert_eq!(cache_path("/tmp", 1234567890, 42, "jpg"), "/tmp/12/34/56/42.jpg");
    assert_eq!(cache_path("/c", 123, 7, "pdf"), "/c/00/01/23/7.pdf");
}

#[test]
fn freshness_rules() {
    assert_eq!(freshness(None, t(1, 1)), Freshness::Missing);
    assert_eq!(freshness(t(5, 1), None), Freshness::Fresh);
    assert_eq!(freshness(t(5, 1), t(3, 5)), Freshness::Fresh);
    assert_eq!(freshness(t(5, 1), t(3, 6)), Freshness::Stale);
    assert!(is_cached(t(10, 10), t(10, 10)));
    assert!(!is_cached(t(9, 9), t(10, 1)));
}

#[test]
fn index_record_beside_derivative() {
    let r = index("/tmp/12/34/56/42.webp", "/img/a.jpg");
    assert_eq!(r.path, "/tmp/12/34/56/42.index");
    assert_eq!(r.content, "/img/a.jpg");
    assert_eq!(file_stem(&r.path), file_stem("/tmp/12/34/56/42.webp"));
    assert!(is_index_file("42.index"));
    assert!(!is_index_file("42.webp"));
}

#[test]
fn stems() {
    assert_eq!(file_stem("/a/b/42.tar.gz"), Some("42.tar".to_string()));
    assert_eq!(file_stem("/a/b/.hidden"), Some(".hidden".to_string()));
    assert_eq!(file_stem("/a/b/"), None);
    assert_eq!(file_stem("noext"), Some("noext".to_string()));
}

fn entries() -> Vec<IndexEntry> {
    vec![
        IndexEntry { path: "/c/00/01/23/1.index".to_string(), source_times: t(100, 100), index_times: t(50, 50) },
        IndexEntry { path: "/c/00/01/23/2.index".to_string(), source_times: t(10, 10), index_times: t(50, 50) },
        IndexEntry { path: "/c/00/01/23/3.index".to_string(), source_times: None, index_times: t(50, 50) },
    ]
}

fn files() -> Vec<String> {
    ["/c/00/01/23/1.index", "/c/00/01/23/1.webp", "/c/00/01/23/2.index", "/c/00/01/23/2.jpg", "/c/00/01/23/3.png"]
        .iter()
        .map(|s| s.to_string())
        .collect()
}

#[test]
fn buster_removes_only_stale_stems() {
    assert_eq!(detect_out_of_date(&entries()), vec!["1".to_string()]);
    let busted = vec!["1".to_string()];
    assert_eq!(remove_out_of_date(&files(), &busted), vec!["/c/00/01/23/1.index".to_string(), "/c/00/01/23/1.webp".to_string()]);
    assert_eq!(bust_cache(200, 100, &entries(), &files()).len(), 2);
}

#[test]
fn buster_within_capacity_removes_nothing() {
    assert!(bust_cache(100, 100, &entries(), &files()).is_empty());
    assert!(bust_cache(0, 10485760, &entries(), &files()).is_empty());
}

#[test]
fn capacity_and_du() {
    assert_eq!(capacity_kb(10), Some(10485760));
    assert_eq!(capacity_kb(u64::MAX), None);
    assert_eq!(parse_du_output("12345\t/tmp\n"), Some(12345));
    assert_eq!(parse_du_output("  7 /tmp"), Some(7));
    assert_eq!(parse_du_output("du: cannot access"), None);
    assert_eq!(parse_du_output(""), None);
}
