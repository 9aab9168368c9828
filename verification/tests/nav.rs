use macsftp_app::nav::{
    breadcrumb_display_indices, breadcrumb_segments, child_of, parent_of, PathHistory,
};

#[test]
fn breadcrumb_segments_root_and_nested() {
    assert_eq!(breadcrumb_segments("/"), vec![("/".to_string(), "/".to_string())]);
    assert_eq!(breadcrumb_segments(""), vec![("/".to_string(), "/".to_string())]);
    let segs = breadcrumb_segments("/Users/alex/Projects");
    assert_eq!(segs[0].0, "/");
    assert_eq!(segs[0].1, "/");
    assert_eq!(segs[1], ("Users".to_string(), "/Users".to_string()));
    assert_eq!(segs[2], ("alex".to_string(), "/Users/alex".to_string()));
    assert_eq!(
        segs.last().map(|s| s.1.as_str()),
        Some("/Users/alex/Projects")
    );
    assert_eq!(segs.len(), 4);
}

#[test]
fn breadcrumb_display_collapses_when_more_than_five() {
    assert_eq!(
        breadcrumb_display_indices(5),
        vec![Some(0), Some(1), Some(2), Some(3), Some(4)]
    );
    assert_eq!(
        breadcrumb_display_indices(6),
        vec![Some(0), None, Some(4), Some(5)]
    );
    assert_eq!(breadcrumb_display_indices(1), vec![Some(0)]);
}

#[test]
fn parents_and_children() {
    assert_eq!(parent_of("/"), None);
    assert_eq!(parent_of("/srv"), Some("/".to_string()));
    assert_eq!(parent_of("/srv/data/"), Some("/srv".to_string()));
    assert_eq!(child_of("/srv", "a.txt"), "/srv/a.txt");
    assert_eq!(child_of("/", "a.txt"), "/a.txt");
}

#[test]
fn back_and_forward_undo_each_other() {
    let mut history = PathHistory::new();
    assert!(!history.can_back());
    history.push_navigating_from(Some("/a"), "/b");
    history.push_navigating_from(Some("/b"), "/c");
    assert_eq!(history.go_back("/c"), Some("/b".to_string()));
    assert!(history.can_forward());
    assert_eq!(history.go_forward("/b"), Some("/c".to_string()));
    assert_eq!(history.go_back("/c"), Some("/b".to_string()));
    assert_eq!(history.go_back("/b"), Some("/a".to_string()));
    assert_eq!(history.go_back("/a"), None);
    // A new place forgets what lay ahead.
    history.push_navigating_from(Some("/a"), "/x");
    assert!(!history.can_forward());
    // Staying in place is no step.
    history.push_navigating_from(Some("/x"), "/x");
    assert_eq!(history.go_back("/x"), Some("/a".to_string()));
    assert!(!history.can_back());
}
