use raw::editor::SearchDirection;
use raw::grapheme::GraphemeString;

#[test]
fn split_concat_round_trip() {
    // Splitting at any boundary and concatenating reconstructs the
    // original, grapheme clusters intact.
    let original = "né好x"; // 'e' + combining acute: one cluster
    for i in 0..4 {
        let mut s = GraphemeString::from_str(original);
        assert_eq!(s.len(), 4);
        let tail = s.split(i);
        assert_eq!(s.len(), i);
        assert_eq!(tail.len(), 4 - i);
        s.concat(&tail);
        assert_eq!(s.len(), 4);
        assert_eq!(s.to_string(), original);
    }
}

#[test]
fn insert_delete_lengths() {
    // Insert grows the cluster count by exactly one; delete at a
    // valid index shrinks it by exactly one.
    let mut s = GraphemeString::from_str("ab");
    s.insert(1, 'x');
    assert_eq!(s.len(), 3);
    assert_eq!(s.to_string(), "axb");
    s.delete(0);
    assert_eq!(s.len(), 2);
    assert_eq!(s.to_string(), "xb");
    // Deleting past the end is a guarded no-op.
    s.delete(5);
    assert_eq!(s.len(), 2);
    assert_eq!(s.to_string(), "xb");
}

#[test]
fn segmentation_counts_clusters_not_chars() {
    // "e" followed by a combining acute accent is one user-perceived
    // character; a char count would say two.
    let s = GraphemeString::from_str("ne\u{301}t");
    assert_eq!(s.len(), 3);
    let mut t = GraphemeString::from_str("ne\u{301}t");
    t.delete(1);
    assert_eq!(t.to_string(), "nt");
}

#[test]
fn render_clamps_and_replaces_tabs() {
    let s = GraphemeString::from_str("a\tb");
    assert_eq!(s.render(0, 3), "a b");
    assert_eq!(s.render(1, 2), " ");
    assert_eq!(s.render(2, 100), "b");
    assert_eq!(s.render(5, 9), "");
    assert_eq!(s.render(2, 1), "");
}

#[test]
fn find_forward_and_backward() {
    let s = GraphemeString::from_str("foo bar foo");
    assert_eq!(s.find("foo", 0, SearchDirection::Forward), Some(0));
    // Search round-trip: restarting one past the first hit lands on
    // the second occurrence.
    assert_eq!(s.find("foo", 1, SearchDirection::Forward), Some(8));
    assert_eq!(s.find("foo", 9, SearchDirection::Forward), None);
    assert_eq!(s.find("foo", 11, SearchDirection::Backward), Some(8));
    assert_eq!(s.find("foo", 8, SearchDirection::Backward), Some(0));
    assert_eq!(s.find("foo", 2, SearchDirection::Backward), None);
    // An empty query never matches.
    assert_eq!(s.find("", 0, SearchDirection::Forward), None);
    // A start past the end finds nothing.
    assert_eq!(s.find("foo", 12, SearchDirection::Forward), None);
}

#[test]
fn find_is_cluster_boundary_correct() {
    // The bytes of "é" (e + combining acute) contain the bytes of
    // "e", but no cluster equals "e", so a cluster-correct search
    // must not match inside it.
    let s = GraphemeString::from_str("e\u{301}e");
    assert_eq!(s.find("e", 0, SearchDirection::Forward), Some(1));
}
