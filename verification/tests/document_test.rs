use raw::document::Document;
use raw::editor::SearchDirection;
use raw::position::Position;

#[test]
fn insert_into_empty_document() {
    // Inserting 'x' at the origin of an empty document yields a
    // one-line, one-cluster, dirty document.
    let mut doc = Document::default();
    assert_eq!(doc.len(), 0);
    assert!(doc.is_empty());
    assert!(!doc.is_dirty());

    doc.insert(&Position { x: 0, y: 0 }, 'x');

    assert_eq!(doc.len(), 1);
    assert!(doc.is_dirty());
    assert_eq!(doc.line_len(0), 1);
    assert_eq!(doc.row(0).unwrap().to_string(), "x");
}

#[test]
fn insert_newline_splits_lines() {
    let mut doc = Document::open_text("t.txt", "abcd\n");
    doc.insert(&Position { x: 2, y: 0 }, '\n');
    assert_eq!(doc.len(), 2);
    assert_eq!(doc.row(0).unwrap().to_string(), "ab");
    assert_eq!(doc.row(1).unwrap().to_string(), "cd");
    // A row index past the end is a guarded no-op.
    doc.insert(&Position { x: 0, y: 9 }, 'z');
    assert_eq!(doc.len(), 2);
}

#[test]
fn delete_merges_at_line_end() {
    let mut doc = Document::open_text("t.txt", "ab\ncd\n");
    // Deleting at the end of a line pulls the next line up.
    doc.delete(&Position { x: 2, y: 0 });
    assert_eq!(doc.len(), 1);
    assert_eq!(doc.row(0).unwrap().to_string(), "abcd");
    // Deleting inside a line removes one cluster.
    doc.delete(&Position { x: 1, y: 0 });
    assert_eq!(doc.row(0).unwrap().to_string(), "acd");
    // A row past the end is a guarded no-op.
    doc.delete(&Position { x: 0, y: 5 });
    assert_eq!(doc.len(), 1);
}

#[test]
fn edits_invalidate_forward_only() {
    // Editing line 0 of a three-line document marks lines 0, 1 and 2
    // stale; editing the last line never marks earlier lines stale.
    let mut doc = Document::open_text("t.rs", "a\nb\nc\n");
    doc.highlight(&None, None);
    for i in 0..3 {
        assert!(!doc.row(i).unwrap().is_stale_now());
    }

    doc.insert(&Position { x: 0, y: 0 }, 'x');
    for i in 0..3 {
        assert!(doc.row(i).unwrap().is_stale_now());
    }

    doc.highlight(&None, None);
    doc.insert(&Position { x: 0, y: 2 }, 'y');
    assert!(!doc.row(0).unwrap().is_stale_now());
    assert!(!doc.row(1).unwrap().is_stale_now());
    assert!(doc.row(2).unwrap().is_stale_now());
}

#[test]
fn whole_document_search() {
    let mut doc = Document::open_text("t.txt", "foo bar\nbaz\nfoo foo\n");
    let fwd = SearchDirection::Forward;
    let bwd = SearchDirection::Backward;

    assert_eq!(doc.find("foo", &Position { x: 0, y: 0 }, fwd), Some(Position { x: 0, y: 0 }));
    assert_eq!(doc.find("foo", &Position { x: 1, y: 0 }, fwd), Some(Position { x: 0, y: 2 }));
    assert_eq!(doc.find("foo", &Position { x: 1, y: 2 }, fwd), Some(Position { x: 4, y: 2 }));
    assert_eq!(doc.find("missing", &Position { x: 0, y: 0 }, fwd), None);
    assert_eq!(doc.find("foo", &Position { x: 0, y: 9 }, fwd), None);

    // Backward: the last match wholly before the position.
    assert_eq!(doc.find("foo", &Position { x: 7, y: 2 }, bwd), Some(Position { x: 4, y: 2 }));
    assert_eq!(doc.find("foo", &Position { x: 3, y: 2 }, bwd), Some(Position { x: 0, y: 2 }));
    // With nothing left on the starting line, earlier lines are
    // scanned in full.
    assert_eq!(doc.find("foo", &Position { x: 2, y: 2 }, bwd), Some(Position { x: 0, y: 0 }));
    assert_eq!(doc.find("bar", &Position { x: 0, y: 2 }, bwd), Some(Position { x: 4, y: 0 }));
    assert_eq!(doc.find("missing", &Position { x: 7, y: 2 }, bwd), None);
    assert_eq!(doc.find("baz", &Position { x: 7, y: 2 }, bwd), Some(Position { x: 0, y: 1 }));

    // The search session scans, it does not edit.
    assert!(!doc.is_dirty());
}

#[test]
fn line_splitting_and_text_round_trip() {
    let doc = Document::open_text("t.txt", "one\r\ntwo\nlast");
    assert_eq!(doc.len(), 3);
    assert_eq!(doc.row(0).unwrap().to_string(), "one");
    assert_eq!(doc.row(1).unwrap().to_string(), "two");
    assert_eq!(doc.row(2).unwrap().to_string(), "last");
    // A save writes every line with a newline after it.
    assert_eq!(doc.contents_string(), "one\ntwo\nlast\n");

    let empty = Document::with_string("");
    assert_eq!(empty.len(), 0);
    assert_eq!(empty.contents_string(), "");
}

#[test]
fn names_and_types() {
    let doc = Document::open_text("lib.rs", "mod a;\n");
    assert_eq!(doc.file_type(), "Rust");
    assert_eq!(doc.name(), "lib.rs");
    let unnamed = Document::with_string("x\n");
    assert_eq!(unnamed.name(), "");
    assert_eq!(unnamed.file_type(), "normal");
    let mut named = Document::with_file_name("notes.txt");
    assert_eq!(named.name(), "notes.txt");
    named.set_filename(Some(String::from("other.txt")));
    assert_eq!(named.name(), "other.txt");
}

#[test]
fn test_line_len() {
    let doc = Document::open_text("./src/render/document.rs", "use ropey::Rope;\nmod rect;\n");
    println!("{}", doc.row(0).unwrap().to_string());
    println!("{}", doc.line_len(0));
    assert_eq!(doc.line_len(0), 16);
    assert_eq!(doc.line_len(9), 0);
}

#[test]
fn saving_clears_dirty() {
    let mut doc = Document::open_text("t.txt", "a\n");
    doc.insert(&Position { x: 0, y: 0 }, 'b');
    assert!(doc.is_dirty());
    doc.mark_saved();
    assert!(!doc.is_dirty());
    assert_eq!(doc.contents_string(), "ba\n");
    // Saving under a new name re-derives the file type.
    doc.set_filename(Some(String::from("t.rs")));
    doc.mark_saved();
    assert_eq!(doc.file_type(), "Rust");
}
