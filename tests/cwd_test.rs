use claude_explorer::cwd::{deepest_index, path_depth, scrape_candidate, CwdTracker};

#[test]
fn candidates_from_screen_text() {
    assert_eq!(scrape_candidate("  cwd: ~/src/app/ (main)", "/home/u"), Some("/home/u/src/app".to_string()));
    assert_eq!(scrape_candidate("at /usr/lib/x86_64-linux-gnu now", "/home/u"), Some("/usr/lib/x86_64-linux-gnu".to_string()));
    assert_eq!(scrape_candidate("a / b", "/home/u"), None);
    assert_eq!(scrape_candidate("no path here", "/home/u"), None);
    assert_eq!(scrape_candidate("~/ nothing", "/home/u"), None);
    assert_eq!(scrape_candidate("/x ~/docs", "/home/u/"), Some("/home/u/docs".to_string()));
}

#[test]
fn component_counts() {
    assert_eq!(path_depth("/"), 1);
    assert_eq!(path_depth("/a/b"), 3);
    assert_eq!(path_depth("/a//b/./c/"), 4);
    assert_eq!(path_depth("a/b"), 2);
    assert_eq!(path_depth("./a"), 2);
    assert_eq!(path_depth(""), 0);
}

#[test]
fn deepest_is_first_of_the_deepest() {
    let c = vec!["/a".to_string(), "/a/b".to_string(), "/c/d".to_string()];
    assert_eq!(deepest_index(&c), Some(1));
    assert_eq!(deepest_index(&Vec::new()), None);
}

#[test]
fn reported_directory_wins() {
    let mut t = CwdTracker::new("/home".to_string());
    assert!(t.observe(Some("/tmp".to_string()), &vec!["/home/a/b".to_string()]));
    assert_eq!(t.cwd(), "/tmp");
}

#[test]
fn deeper_path_adopted_at_once_shallower_after_debounce() {
    let mut t = CwdTracker::new("/home".to_string());
    assert!(t.observe(None, &vec!["/home/a".to_string()]));
    assert_eq!(t.cwd(), "/home/a");
    for _ in 0..15 {
        assert!(t.observe(Some("/home/a".to_string()), &vec!["/srv".to_string()]));
        assert_eq!(t.cwd(), "/home/a");
    }
    assert!(t.observe(None, &vec!["/srv".to_string()]));
    assert_eq!(t.cwd(), "/srv");
}

#[test]
fn same_path_resets_the_count() {
    let mut t = CwdTracker::new("/a/b".to_string());
    for _ in 0..10 {
        t.observe(None, &vec!["/c".to_string()]);
    }
    t.observe(None, &vec!["/a/b".to_string()]);
    for _ in 0..15 {
        t.observe(None, &vec!["/c".to_string()]);
    }
    assert_eq!(t.cwd(), "/a/b");
}

#[test]
fn process_directory_used_when_nothing_else() {
    let mut t = CwdTracker::new("/a".to_string());
    assert!(!t.observe(None, &Vec::new()));
    t.observe_process("/b/c".to_string());
    assert_eq!(t.cwd(), "/b/c");
}
