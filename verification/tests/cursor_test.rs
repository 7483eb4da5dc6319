use raw::document::Document;
use raw::screen::{NavIntent, Position, ViewportCursor};

fn doc_with_widths_10_0_5() -> Document {
    // Three ASCII lines with display widths 10, 0 and 5.
    Document::open_text("t.txt", "aaaaaaaaaa\n\nbbbbb\n")
}

#[test]
fn down_clamps_at_every_step() {
    // Cursor at {row 0, col 10}; Down must transiently clamp to
    // {row 1, col 0}, and a second Down yields {row 2, col 0}: the
    // clamping happens per step, not deferred.
    let doc = doc_with_widths_10_0_5();
    let mut vp = ViewportCursor::new(80, 24, 0);
    vp.move_cursor(&doc, NavIntent::End);
    assert_eq!(vp.cursor, Position { x: 10, y: 0 });

    vp.move_cursor(&doc, NavIntent::Down);
    assert_eq!(vp.cursor, Position { x: 0, y: 1 });

    vp.move_cursor(&doc, NavIntent::Down);
    assert_eq!(vp.cursor, Position { x: 0, y: 2 });
}

#[test]
fn horizontal_moves_wrap_lines() {
    let doc = Document::open_text("t.txt", "ab\ncd\n");
    let mut vp = ViewportCursor::new(80, 24, 0);
    // Right past the end of a line moves to the start of the next.
    vp.move_cursor(&doc, NavIntent::Right);
    vp.move_cursor(&doc, NavIntent::Right);
    assert_eq!(vp.cursor, Position { x: 2, y: 0 });
    vp.move_cursor(&doc, NavIntent::Right);
    assert_eq!(vp.cursor, Position { x: 0, y: 1 });
    // Left at the start of a line moves to the end of the previous.
    vp.move_cursor(&doc, NavIntent::Left);
    assert_eq!(vp.cursor, Position { x: 2, y: 0 });
    // Home and End.
    vp.move_cursor(&doc, NavIntent::Home);
    assert_eq!(vp.cursor, Position { x: 0, y: 0 });
    vp.move_cursor(&doc, NavIntent::End);
    assert_eq!(vp.cursor, Position { x: 2, y: 0 });
}

#[test]
fn wide_clusters_move_in_display_columns() {
    // "你b" spans columns 0..3; End lands on column 3, and moving
    // down onto a narrower line clamps to its display width.
    let doc = Document::open_text("t.txt", "你b\na\n");
    let mut vp = ViewportCursor::new(80, 24, 0);
    vp.move_cursor(&doc, NavIntent::End);
    assert_eq!(vp.cursor, Position { x: 3, y: 0 });
    vp.move_cursor(&doc, NavIntent::Down);
    assert_eq!(vp.cursor, Position { x: 1, y: 1 });
}

#[test]
fn paging_and_bounds() {
    let doc = Document::open_text("t.txt", "a\nb\nc\nd\ne\nf\n");
    let mut vp = ViewportCursor::new(80, 3, 0);
    vp.move_cursor(&doc, NavIntent::PageDown);
    assert_eq!(vp.cursor.y, 3);
    vp.move_cursor(&doc, NavIntent::PageDown);
    assert_eq!(vp.cursor.y, 5);
    vp.move_cursor(&doc, NavIntent::Down);
    assert_eq!(vp.cursor.y, 5);
    vp.move_cursor(&doc, NavIntent::PageUp);
    assert_eq!(vp.cursor.y, 2);
    vp.move_cursor(&doc, NavIntent::PageUp);
    assert_eq!(vp.cursor.y, 0);
    vp.move_cursor(&doc, NavIntent::Up);
    assert_eq!(vp.cursor.y, 0);

    // An empty document pins the cursor to the origin.
    let empty = Document::default();
    let mut vp2 = ViewportCursor::new(80, 24, 0);
    vp2.move_cursor(&empty, NavIntent::Down);
    vp2.move_cursor(&empty, NavIntent::Right);
    assert_eq!(vp2.cursor, Position { x: 0, y: 0 });
}

#[test]
fn scroll_follows_cursor() {
    let doc = Document::open_text("t.txt", "a\nb\nc\nd\ne\nf\ng\nh\n");
    // Two screen rows are reserved below the text area.
    let mut vp = ViewportCursor::new(4, 5, 2);
    for _ in 0..4 {
        vp.move_cursor(&doc, NavIntent::Down);
    }
    vp.scroll_to_follow();
    // Cursor row 4 with three visible rows: scroll to row 2.
    assert_eq!(vp.scroll, Position { x: 0, y: 2 });

    vp.move_cursor(&doc, NavIntent::Up);
    vp.move_cursor(&doc, NavIntent::Up);
    vp.move_cursor(&doc, NavIntent::Up);
    vp.scroll_to_follow();
    assert_eq!(vp.scroll, Position { x: 0, y: 1 });

    // The standalone offset mirrors the vertical rule.
    let mut offset = Position { x: 0, y: 0 };
    offset.scroll(Position { x: 0, y: 7 }, 5, 2);
    assert_eq!(offset.y, 5);
    offset.scroll(Position { x: 0, y: 1 }, 5, 2);
    assert_eq!(offset.y, 1);
}

#[test]
fn horizontal_scroll_in_display_columns() {
    let doc = Document::open_text("t.txt", "你你你你\n");
    let mut vp = ViewportCursor::new(4, 24, 0);
    vp.move_cursor(&doc, NavIntent::End);
    assert_eq!(vp.cursor.x, 8);
    vp.scroll_to_follow();
    // Column 8 with a four-column screen: scroll to column 5.
    assert_eq!(vp.scroll.x, 5);
}
