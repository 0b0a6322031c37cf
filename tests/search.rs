use mide_core::{
    fuzzy_rank, is_heavy_folder, is_scanned_entry, is_searched_entry, match_path, order_entries,
    search_content, FileNode, SearchResult, MAX_FUZZY_RESULTS, SEARCH_RESULT_LIMIT,
};

#[test]
fn match_path_strips_root_and_slashes() {
    assert_eq!(match_path("/home/u/proj/src/main.rs", "/home/u/proj"), "src/main.rs");
    assert_eq!(match_path("C:\\proj\\src\\lib.rs", "C:\\proj"), "src/lib.rs");
    assert_eq!(match_path("/a/b", ""), "a/b");
}

#[test]
fn fuzzy_rank_orders_best_first() {
    let paths = vec![
        "/p/docs/readme.md".to_string(),
        "/p/src/main.rs".to_string(),
        "/p/src/domain.rs".to_string(),
    ];
    let r = fuzzy_rank("/p", &paths, "main");
    assert!(!r.is_empty());
    assert_eq!(r[0].path, "/p/src/main.rs");
    for w in r.windows(2) {
        assert!(w[0].score >= w[1].score);
    }
    assert!(r.iter().all(|x| x.path != "/p/docs/readme.md"));
}

#[test]
fn fuzzy_rank_keeps_at_most_fifty() {
    let paths: Vec<String> = (0..80).map(|i| format!("/p/file{}.txt", i)).collect();
    let r = fuzzy_rank("/p", &paths, "file");
    assert_eq!(r.len(), MAX_FUZZY_RESULTS);
}

#[test]
fn fuzzy_rank_no_match() {
    let paths = vec!["/p/a.txt".to_string()];
    assert!(fuzzy_rank("/p", &paths, "zzzz").is_empty());
}

#[test]
fn content_search_matches_case_insensitively() {
    let mut results = Vec::new();
    let stop = search_content("f.txt", "Hello World\nnothing\n  say HELLO  \n", "hello", &mut results);
    assert!(!stop);
    assert_eq!(
        results,
        vec![
            SearchResult { file: "f.txt".to_string(), line: 1, content: "Hello World".to_string() },
            SearchResult { file: "f.txt".to_string(), line: 3, content: "say HELLO".to_string() },
        ]
    );
}

#[test]
fn content_search_stops_past_the_limit() {
    let content = "x\n".repeat(1500);
    let mut results = Vec::new();
    let stop = search_content("f", &content, "x", &mut results);
    assert!(stop);
    assert_eq!(results.len(), SEARCH_RESULT_LIMIT + 1);
    assert_eq!(results[1000].line, 1001);
}

fn node(name: &str, is_dir: bool) -> FileNode {
    FileNode { name: name.to_string(), path: format!("/r/{}", name), is_dir, children: None }
}

#[test]
fn entries_list_folders_first_then_by_name() {
    let nodes = vec![node("b.txt", false), node("src", true), node("A.md", false), node("assets", true)];
    let names: Vec<String> = order_entries(nodes).into_iter().map(|n| n.name).collect();
    assert_eq!(names, vec!["assets", "src", "A.md", "b.txt"]);
}

#[test]
fn entry_filters() {
    assert!(is_heavy_folder("node_modules"));
    assert!(is_heavy_folder(".git"));
    assert!(!is_heavy_folder("src"));
    assert!(is_searched_entry("src"));
    assert!(!is_searched_entry(".hidden"));
    assert!(!is_searched_entry("target"));
    assert!(!is_searched_entry("dist"));
    assert!(is_searched_entry("build"));
    assert!(!is_scanned_entry("build"));
    assert!(!is_scanned_entry("__pycache__"));
    assert!(is_scanned_entry("lib"));
}
