use snsx::listing::{
    file_text_matches, find_workspace_paths, kind_label, list_directory, node_label, order_entries, query_needle,
    render_tree, search_workspace_text, sort_items, text_contains, text_less, tree_line, visible_entries, DirEntry,
    NodeKind, PathCandidate, TreeNode,
};
use snsx::paths::WorkspacePath;

fn path(parts: &[&str]) -> WorkspacePath {
    WorkspacePath { absolute: true, parts: parts.iter().map(|p| p.to_string()).collect() }
}

fn entry(name: &str, kind: NodeKind, symlink: bool) -> DirEntry {
    DirEntry { name: name.to_string(), kind, symlink }
}

#[test]
fn byte_order_of_texts() {
    assert!(text_less("a", "b"));
    assert!(text_less("ab", "abc"));
    assert!(!text_less("abc", "ab"));
    assert!(!text_less("same", "same"));
    assert!(text_less("Z", "a"));
    assert!(text_less("", "x"));
}

#[test]
fn sort_is_stable_and_puts_later_items_last() {
    let items = vec![
        (false, "b".to_string(), 1),
        (false, "a".to_string(), 2),
        (true, "a".to_string(), 3),
        (false, "b".to_string(), 4),
    ];
    let sorted = sort_items(items);
    let order: Vec<i32> = sorted.iter().map(|x| x.2).collect();
    assert_eq!(order, vec![2, 1, 4, 3]);
}

#[test]
fn sorted_items_are_a_rearrangement_in_ascending_order() {
    let items = vec![
        (false, "delta".to_string(), 'd'),
        (true, "alpha".to_string(), 'A'),
        (false, "charlie".to_string(), 'c'),
        (false, "bravo".to_string(), 'b'),
        (true, "alpha".to_string(), 'B'),
    ];
    let sorted = sort_items(items.clone());
    assert_eq!(sorted.len(), items.len());
    for pair in sorted.windows(2) {
        let (a, b) = (&pair[0], &pair[1]);
        assert!(!(b.0 == false && a.0 == true) && !(a.0 == b.0 && text_less(&b.1, &a.1)));
    }
    let mut left: Vec<char> = items.iter().map(|x| x.2).collect();
    let mut right: Vec<char> = sorted.iter().map(|x| x.2).collect();
    left.sort();
    right.sort();
    assert_eq!(left, right);
}

#[test]
fn entries_are_filtered_and_ordered() {
    let raw = vec![
        entry(".git", NodeKind::Dir, false),
        entry("target", NodeKind::Dir, false),
        entry("link", NodeKind::Dir, true),
        entry("src", NodeKind::Dir, false),
        entry("b.txt", NodeKind::File, false),
    ];
    let visible = visible_entries(raw);
    let names: Vec<&str> = visible.iter().map(|e| e.name.as_str()).collect();
    assert_eq!(names, vec!["src", "b.txt"]);

    let mixed = vec![
        entry("b.txt", NodeKind::File, false),
        entry("Zeta", NodeKind::Dir, false),
        entry("A.md", NodeKind::File, false),
        entry("alpha", NodeKind::Dir, false),
    ];
    let dirs_first = order_entries(mixed.clone(), true);
    let names: Vec<&str> = dirs_first.iter().map(|e| e.name.as_str()).collect();
    assert_eq!(names, vec!["alpha", "Zeta", "A.md", "b.txt"]);
    let by_name = order_entries(mixed, false);
    let names: Vec<&str> = by_name.iter().map(|e| e.name.as_str()).collect();
    assert_eq!(names, vec!["A.md", "alpha", "b.txt", "Zeta"]);
}

#[test]
fn tree_lines_and_labels() {
    assert_eq!(kind_label(NodeKind::Dir), "dir ");
    assert_eq!(kind_label(NodeKind::Other), "node");
    assert_eq!(tree_line(0, NodeKind::Dir, "proj"), "dir  proj");
    assert_eq!(tree_line(2, NodeKind::File, "main.snsx"), "    file main.snsx");
    assert_eq!(node_label(true, None), ".");
    assert_eq!(node_label(false, None), "?");
    assert_eq!(node_label(false, Some("x")), "x");
    let root = path(&["w"]);
    let nodes = vec![
        TreeNode { depth: 0, kind: NodeKind::Dir, label: "w".to_string() },
        TreeNode { depth: 1, kind: NodeKind::File, label: "main.snsx".to_string() },
    ];
    assert_eq!(render_tree(&root, &root, true, &nodes).unwrap(), vec!["dir  w", "  file main.snsx"]);
    let missing = path(&["w", "nope"]);
    assert_eq!(render_tree(&root, &missing, false, &nodes).unwrap_err().message(), "path does not exist: nope");
}

#[test]
fn directory_listings() {
    let root = path(&["w"]);
    let entries = vec![entry("b.snsx", NodeKind::File, false), entry("mods", NodeKind::Dir, false)];
    assert_eq!(
        list_directory(&root, &root, true, NodeKind::Dir, 0, entries).unwrap(),
        vec!["Listing .", "dir  mods", "file b.snsx"]
    );
    let empty = path(&["w", "empty"]);
    assert_eq!(list_directory(&root, &empty, true, NodeKind::Dir, 0, vec![]).unwrap(), vec!["Listing empty", "(empty)"]);
    let file = path(&["w", "src", "main.snsx"]);
    assert_eq!(
        list_directory(&root, &file, true, NodeKind::File, 1234, vec![]).unwrap(),
        vec!["file src/main.snsx", "bytes 1234"]
    );
    let node = path(&["w", "fifo"]);
    assert_eq!(
        list_directory(&root, &node, true, NodeKind::Other, 0, vec![]).unwrap(),
        vec!["node fifo", "special filesystem entry (not editable as a regular SNSX file)"]
    );
    assert_eq!(
        list_directory(&root, &node, false, NodeKind::Other, 0, vec![]).unwrap_err().message(),
        "path does not exist: fifo"
    );
}

#[test]
fn substring_search() {
    assert!(text_contains("hello world", "o w"));
    assert!(text_contains("abc", ""));
    assert!(!text_contains("abc", "abcd"));
    assert!(!text_contains("abc", "ac"));
}

#[test]
fn find_matches_paths_by_lowercase_label() {
    assert_eq!(query_needle("  Main ", "find expects a non-empty path fragment").unwrap(), "main");
    assert_eq!(
        query_needle("   ", "find expects a non-empty path fragment").unwrap_err().message(),
        "find expects a non-empty path fragment"
    );
    let candidates = vec![
        PathCandidate { label: "src/main.snsx".to_string(), file_name: "main.snsx".to_string(), kind: NodeKind::File },
        PathCandidate { label: "lib/util.snsx".to_string(), file_name: "util.snsx".to_string(), kind: NodeKind::File },
        PathCandidate { label: "docs/MAIN.md".to_string(), file_name: "MAIN.md".to_string(), kind: NodeKind::File },
        PathCandidate { label: "mainline".to_string(), file_name: "mainline".to_string(), kind: NodeKind::Dir },
    ];
    assert_eq!(
        find_workspace_paths(" Main ", candidates).unwrap(),
        vec!["File matches for ' Main ':", "file docs/MAIN.md", "dir  mainline", "file src/main.snsx"]
    );
    assert_eq!(find_workspace_paths("zz", vec![]).unwrap(), vec!["File matches for 'zz':", "(no matches)"]);
    assert_eq!(find_workspace_paths("  ", vec![]).unwrap_err().message(), "find expects a non-empty path fragment");
}

#[test]
fn find_shows_at_most_120_paths() {
    let candidates: Vec<PathCandidate> = (0..130)
        .map(|i| PathCandidate { label: format!("m{i:03}"), file_name: format!("m{i:03}"), kind: NodeKind::File })
        .collect();
    let lines = find_workspace_paths("m", candidates).unwrap();
    assert_eq!(lines.len(), 121);
    assert_eq!(lines[1], "file m000");
    assert_eq!(lines[120], "file m119");
}

#[test]
fn text_search_in_a_file() {
    let content = "hold x = 1\nshow X here\nnothing\r\n";
    assert_eq!(
        file_text_matches("src/a.snsx", content, "x", "X", 10),
        vec!["src/a.snsx:1 | hold x = 1", "src/a.snsx:2 | show X here"]
    );
    assert_eq!(file_text_matches("src/a.snsx", content, "x", "X", 1), vec!["src/a.snsx:1 | hold x = 1"]);
    assert_eq!(file_text_matches("src/a.snsx", content, "x", "X", 0), Vec::<String>::new());
    let long = format!("  {}x  ", "a".repeat(150));
    let hit = file_text_matches("f", &long, "x", "x", 5);
    assert_eq!(hit, vec![format!("f:1 | {}...", "a".repeat(140))]);
}

#[test]
fn text_search_listing() {
    assert_eq!(search_workspace_text("q", vec![]).unwrap(), vec!["Content matches for 'q':", "(no matches)"]);
    assert_eq!(search_workspace_text(" ", vec![]).unwrap_err().message(), "search expects non-empty text");
    let files = vec![
        ("a.md".to_string(), "Q one\nnone\nq two\n".to_string()),
        ("b.txt".to_string(), "zzz".to_string()),
        ("c.snsx".to_string(), "see q".to_string()),
    ];
    assert_eq!(
        search_workspace_text("Q", files).unwrap(),
        vec!["Content matches for 'Q':", "a.md:1 | Q one", "a.md:3 | q two", "c.snsx:1 | see q"]
    );
    let many: Vec<(String, String)> = (0..170).map(|i| (format!("f{i}"), "q".to_string())).collect();
    let lines = search_workspace_text("q", many).unwrap();
    assert_eq!(lines.len(), 161);
    assert_eq!(lines[160], "f159:1 | q");
}
