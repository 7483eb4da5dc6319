use raw::editor::SearchDirection;
use raw::filetype::FileType;
use raw::row::Row;

#[test]
fn row_edits_set_stale() {
    let mut row = Row::new(String::from("ab"));
    assert!(row.is_stale_now());
    let rules = FileType::from("t.txt");
    row.highlight(rules.highlighting_options(), &None, false);
    assert!(!row.is_stale_now());

    row.insert(1, 'x');
    assert!(row.is_stale_now());
    assert_eq!(row.len(), 3);
    assert_eq!(row.to_string(), "axb");

    row.highlight(rules.highlighting_options(), &None, false);
    assert!(!row.is_stale_now());
    row.delete(0);
    assert!(row.is_stale_now());
    assert_eq!(row.to_string(), "xb");
}

#[test]
fn row_split_and_concat() {
    let mut row = Row::new(String::from("hello"));
    let tail = row.split(2);
    assert_eq!(row.to_string(), "he");
    assert_eq!(tail.to_string(), "llo");
    row.concat(&tail);
    assert_eq!(row.to_string(), "hello");
    assert_eq!(row.len(), 5);
}

#[test]
fn row_render_and_find() {
    let row = Row::new(String::from("a\tfoo foo"));
    assert_eq!(row.render(0, 9), "a foo foo");
    assert_eq!(row.render(2, 5), "foo");
    assert_eq!(row.find("foo", 0, SearchDirection::Forward), Some(2));
    assert_eq!(row.find("foo", 3, SearchDirection::Forward), Some(6));
    assert_eq!(row.find("foo", 9, SearchDirection::Backward), Some(6));
}

#[test]
fn row_highlight_returns_threaded_state() {
    let rules = FileType::from("t.rs");
    let mut row = Row::new(String::from("x /* y"));
    let ends = row.highlight(rules.highlighting_options(), &None, false);
    assert!(ends);
    let mut closing = Row::new(String::from("z */ w"));
    let ends = closing.highlight(rules.highlighting_options(), &None, true);
    assert!(!ends);
    // The spans cache is parallel to the content.
    assert_eq!(closing.spans_ref().len(), closing.len());
}
