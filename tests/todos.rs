use mide_core::{extract_todos, is_scanned_extension, lowercase, sort_by_priority, TodoItem};

fn item(line: usize, kind: &str, text: &str) -> TodoItem {
    TodoItem { file: "a.rs".to_string(), line, todo_type: kind.to_string(), text: text.to_string() }
}

#[test]
fn markers_are_extracted_per_kind() {
    let content = "fn main() {\n    // TODO: write this\n    // fixme later\n    // note:\n}\n";
    let items = extract_todos("a.rs", content);
    assert_eq!(items, vec![item(2, "TODO", "write this"), item(3, "FIXME", "later"), item(4, "NOTE", ":")]);
}

#[test]
fn one_line_can_hold_several_kinds() {
    let items = extract_todos("a.rs", "// TODO: fix BUG here");
    assert_eq!(items, vec![item(1, "TODO", "fix BUG here"), item(1, "BUG", "here")]);
}

#[test]
fn empty_marker_tries_next_keyword() {
    let items = extract_todos("a.rs", "todo later todo:\n");
    assert_eq!(items, vec![item(1, "TODO", "later todo:")]);
    assert!(extract_todos("a.rs", "x @todo").is_empty());
}

#[test]
fn markers_sorted_by_priority_stably() {
    let items = vec![
        item(1, "NOTE", "n"),
        item(2, "TODO", "t1"),
        item(3, "BUG", "b"),
        item(4, "HACK", "h"),
        item(5, "FIXME", "f"),
        item(6, "TODO", "t2"),
        item(7, "OTHER", "o"),
    ];
    let sorted = sort_by_priority(items);
    let lines: Vec<usize> = sorted.iter().map(|t| t.line).collect();
    assert_eq!(lines, vec![3, 5, 2, 6, 4, 1, 7]);
}

#[test]
fn scanned_extensions_ignore_case() {
    assert!(is_scanned_extension("rs"));
    assert!(is_scanned_extension("PY"));
    assert!(is_scanned_extension("sql"));
    assert!(!is_scanned_extension("png"));
    assert!(!is_scanned_extension(""));
}

#[test]
fn lowercase_changes_letters() {
    assert_eq!(lowercase("HeLLo"), "hello");
    assert_eq!(lowercase(""), "");
}
