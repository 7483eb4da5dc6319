use raw::document::Document;
use raw::filetype::FileType;
use raw::grapheme::GraphemeString;
use raw::highlighting::{highlight_line, Type};
use raw::position::Position;

fn rust_line_spans(line: &str, starts_inside: bool) -> (Vec<Type>, bool) {
    let filetype = FileType::from("test.rs");
    let content = GraphemeString::from_str(line);
    highlight_line(&content, filetype.highlighting_options(), &None, starts_inside)
}

#[test]
fn classifier_categories() {
    let (spans, ends) = rust_line_spans("let x = 42;", false);
    // "let" is a primary keyword, "42" a number.
    assert_eq!(spans[0], Type::PrimaryKeyword);
    assert_eq!(spans[1], Type::PrimaryKeyword);
    assert_eq!(spans[2], Type::PrimaryKeyword);
    assert_eq!(spans[3], Type::Plain);
    assert_eq!(spans[4], Type::Plain);
    assert_eq!(spans[8], Type::Number);
    assert_eq!(spans[9], Type::Number);
    assert_eq!(spans[10], Type::Plain);
    assert!(!ends);

    let (spans, _) = rust_line_spans("x = \"hi\" + 'c';", false);
    assert_eq!(spans[4], Type::Str);
    assert_eq!(spans[7], Type::Str);
    assert_eq!(spans[11], Type::Character);
    assert_eq!(spans[13], Type::Character);

    let (spans, _) = rust_line_spans("a // rest", false);
    assert_eq!(spans[0], Type::Plain);
    assert_eq!(spans[2], Type::LineComment);
    assert_eq!(spans[8], Type::LineComment);

    let (spans, _) = rust_line_spans("u32 wide", false);
    assert_eq!(spans[0], Type::SecondaryKeyword);
    assert_eq!(spans[2], Type::SecondaryKeyword);
    assert_eq!(spans[4], Type::Plain);

    // A keyword must stand between separators: "letx" is no keyword,
    // and a digit inside a word is no number.
    let (spans, _) = rust_line_spans("letx a42", false);
    for i in 0..4 {
        assert_eq!(spans[i], Type::Plain);
    }
    assert_eq!(spans[6], Type::Plain);
    assert_eq!(spans[7], Type::Plain);
}

#[test]
fn classifier_block_comments() {
    // An opener without a closer runs to the end of the line and
    // reports that the next line starts inside the comment.
    let (spans, ends) = rust_line_spans("a /* b", false);
    assert_eq!(spans[0], Type::Plain);
    assert_eq!(spans[2], Type::BlockComment);
    assert_eq!(spans[5], Type::BlockComment);
    assert!(ends);

    // Carried-over state consumes up to the closer, then scanning
    // resumes.
    let (spans, ends) = rust_line_spans("b */ let", true);
    assert_eq!(spans[0], Type::BlockComment);
    assert_eq!(spans[3], Type::BlockComment);
    assert_eq!(spans[4], Type::Plain);
    assert_eq!(spans[5], Type::PrimaryKeyword);
    assert!(!ends);
}

#[test]
fn classifier_unterminated_literals_run_to_line_end() {
    let (spans, _) = rust_line_spans("\"open", false);
    for i in 0..5 {
        assert_eq!(spans[i], Type::Str);
    }
    let (spans, _) = rust_line_spans("'x", false);
    assert_eq!(spans[0], Type::Character);
    assert_eq!(spans[1], Type::Character);
}

#[test]
fn search_overlay_is_dominant() {
    let filetype = FileType::from("test.rs");
    let content = GraphemeString::from_str("let let");
    let word = Some(String::from("et"));
    let (spans, _) = highlight_line(&content, filetype.highlighting_options(), &word, false);
    // The match overlays the keyword colouring underneath.
    assert_eq!(spans[0], Type::PrimaryKeyword);
    assert_eq!(spans[1], Type::SearchMatch);
    assert_eq!(spans[2], Type::SearchMatch);
    assert_eq!(spans[3], Type::Plain);
    assert_eq!(spans[4], Type::PrimaryKeyword);
    assert_eq!(spans[5], Type::SearchMatch);
    assert_eq!(spans[6], Type::SearchMatch);
}

#[test]
fn highlight_idempotent_when_not_stale() {
    // Calling highlight twice with no search term produces identical
    // spans and does not rescan: the scan counter stands still.
    let mut doc = Document::open_text("t.rs", "let a = 1;\n");
    doc.highlight(&None, None);
    let first_scans = doc.row(0).unwrap().scans();
    let first_spans = doc.row(0).unwrap().spans_ref().clone();
    assert_eq!(first_scans, 1);

    doc.highlight(&None, None);
    assert_eq!(doc.row(0).unwrap().scans(), first_scans);
    assert_eq!(doc.row(0).unwrap().spans_ref(), &first_spans);

    // An edit makes the line stale again, so the next highlight
    // really rescans.
    doc.insert(&Position { x: 0, y: 0 }, 'x');
    doc.highlight(&None, None);
    assert_eq!(doc.row(0).unwrap().scans(), first_scans + 1);
}

#[test]
fn block_comment_state_threads_across_lines() {
    // A document ["/* a", "b", "c */ d"] highlighted top to bottom
    // tags everything up to "*/" as block comment, and " d" as plain.
    let mut doc = Document::open_text("t.rs", "/* a\nb\nc */ d\n");
    doc.highlight(&None, None);

    let line0 = doc.row(0).unwrap().spans_ref().clone();
    assert_eq!(line0, vec![Type::BlockComment; 4]);

    let line1 = doc.row(1).unwrap().spans_ref().clone();
    assert_eq!(line1, vec![Type::BlockComment; 1]);

    let line2 = doc.row(2).unwrap().spans_ref().clone();
    assert_eq!(
        line2,
        vec![
            Type::BlockComment,
            Type::BlockComment,
            Type::BlockComment,
            Type::BlockComment,
            Type::Plain,
            Type::Plain,
        ]
    );
}
