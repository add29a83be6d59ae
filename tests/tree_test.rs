use claude_explorer::pane::{FocusedPane, InputMode};
use claude_explorer::style::Color;
use claude_explorer::tree::{name_of, sibling_order, FileNode, FileTree, WalkEntry};
use std::cmp::Ordering;

fn entry(path: &str, depth: usize, is_dir: bool) -> WalkEntry {
    WalkEntry { path: path.to_string(), depth, is_dir }
}

#[test]
fn icons_and_prefixes() {
    let dir = FileNode::new("/r/src".to_string(), "src".to_string(), 2, true);
    let file = FileNode::new("/r/a.rs".to_string(), "a.rs".to_string(), 1, false);
    assert_eq!(dir.icon(), "▸ ");
    assert_eq!(file.icon(), "· ");
    assert_eq!(dir.expanded_icon(true), "▾ ");
    assert_eq!(dir.expanded_icon(false), "▸ ");
    assert_eq!(file.expanded_icon(true), "· ");
    assert_eq!(dir.tree_prefix(true), "│   └── ");
    assert_eq!(file.tree_prefix(false), "├── ");
    let root = FileNode::new("/r".to_string(), "r".to_string(), 0, true);
    assert_eq!(root.tree_prefix(true), "");
}

#[test]
fn names_of_paths() {
    assert_eq!(name_of("/home/u/file.txt"), "file.txt");
    assert_eq!(name_of("/home/u/dir/"), "dir");
    assert_eq!(name_of("/"), "/");
    assert_eq!(name_of("plain"), "plain");
    assert_eq!(name_of("/a/.."), "/a/..");
}

#[test]
fn siblings_directories_first_then_name_ignoring_case() {
    assert_eq!(sibling_order(true, "zeta", false, "alpha"), Ordering::Less);
    assert_eq!(sibling_order(false, "alpha", true, "zeta"), Ordering::Greater);
    assert_eq!(sibling_order(false, "B.txt", false, "a.txt"), Ordering::Greater);
    assert_eq!(sibling_order(false, "Readme", false, "readme"), Ordering::Equal);
    assert_eq!(sibling_order(true, "ab", true, "abc"), Ordering::Less);
}

#[test]
fn tree_lists_walk_in_order() {
    let entries = vec![
        entry("/p/proj", 0, true),
        entry("/p/proj/src", 1, true),
        entry("/p/proj/src/main.rs", 2, false),
        entry("/p/proj/Cargo.toml", 1, false),
    ];
    let mut t = FileTree::new("/p/proj".to_string(), false, 10, &entries);
    let names: Vec<(&str, usize, bool)> = t.nodes().iter().map(|n| (n.name.as_str(), n.depth, n.is_dir)).collect();
    assert_eq!(names, vec![("proj", 0, true), ("src", 1, true), ("main.rs", 2, false), ("Cargo.toml", 1, false)]);
    assert_eq!(t.root_path(), "/p/proj");
    assert_eq!(t.offset(), 0);
    t.set_offset(3);
    assert_eq!(t.offset(), 3);
    t.refresh(&vec![entry("/p/proj", 0, true), entry("/p/proj/new_file.txt", 1, false)]);
    assert_eq!(t.nodes().len(), 2);
    assert_eq!(t.nodes()[1].name, "new_file.txt");
    assert_eq!(t.offset(), 3);
}

#[test]
fn pane_enums() {
    assert_ne!(FocusedPane::Tree, FocusedPane::Terminal);
    assert_ne!(InputMode::Normal, InputMode::Search);
}

#[test]
fn colours_by_kind() {
    let node = |p: &str, d: bool| FileNode::new(p.to_string(), String::new(), 1, d);
    assert_eq!(node("/r/src", true).display_color(), Color::Rgb(209, 164, 73));
    assert_eq!(node("/r/main.RS", false).display_color(), Color::Rgb(255, 150, 50));
    assert_eq!(node("/r/a.tar.json", false).display_color(), Color::LightYellow);
    assert_eq!(node("/r/Cargo.lock", false).display_color(), Color::DarkGray);
    assert_eq!(node("/r/x.hpp", false).display_color(), Color::Rgb(100, 150, 255));
    assert_eq!(node("/r/.gitignore", false).display_color(), Color::Rgb(180, 180, 180));
    assert_eq!(node("/r/README", false).display_color(), Color::Rgb(180, 180, 180));
    assert_eq!(node("/r/logo.PNG", false).display_color(), Color::LightMagenta);
}

#[test]
fn search_goes_round() {
    let entries = vec![
        entry("/r/Alpha", 1, true),
        entry("/r/beta.txt", 1, false),
        entry("/r/alphabet.md", 1, false),
    ];
    let t = FileTree::new("/r".to_string(), false, 3, &entries);
    let q = "ALPH".to_string();
    assert_eq!(t.find(&q, 0, true), Some(1));
    assert_eq!(t.find(&q, 1, true), Some(3));
    assert_eq!(t.find(&q, 3, true), Some(1));
    assert_eq!(t.find(&q, 3, false), Some(1));
    assert_eq!(t.find(&q, 1, false), Some(3));
    assert_eq!(t.find(&"zzz".to_string(), 0, true), None);
}
