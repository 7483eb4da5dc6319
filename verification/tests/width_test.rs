use raw::app::AppCtx;
use raw::screen::Position;
use raw::width::Line;

#[test]
fn wide_cluster_offsets() {
    // One wide cluster (two columns) followed by one normal cluster:
    // offsets 0, 2, and one past the end is 3.
    let line = Line::from_str("你a");
    assert_eq!(line.offset_of(0), 0);
    assert_eq!(line.offset_of(1), 2);
    assert_eq!(line.offset_of(2), 3);
    assert_eq!(line.total_width(), 3);
    assert_eq!(line.get_offset(1), 2);
    // Far past the end still extrapolates to the total width.
    assert_eq!(line.offset_of(9), 3);
}

#[test]
fn width_differs_from_cluster_count() {
    let line = Line::from_str("你好");
    assert_eq!(line.str_list.len(), 2);
    assert_eq!(line.total_width(), 4);
    assert_eq!(line.offset_mapping[1], 2);

    let plain = Line::from_str("ab");
    assert_eq!(plain.total_width(), 2);
}

#[test]
fn inverse_lookup() {
    // "你a你" has cluster start columns 0, 2, 3 and total width 5.
    let line = Line::from_str("你a你");
    assert_eq!(line.grapheme_at_or_before(0), 0);
    assert_eq!(line.grapheme_at_or_before(1), 0);
    assert_eq!(line.grapheme_at_or_before(2), 1);
    assert_eq!(line.grapheme_at_or_before(3), 2);
    assert_eq!(line.grapheme_at_or_before(4), 2);
    assert_eq!(line.grapheme_at_or_before(5), 3);
    assert_eq!(line.grapheme_at_or_before(99), 3);
}

#[test]
fn line_render() {
    let line = Line::from_str("你好x");
    assert_eq!(line.render(0), "你好x");
    assert_eq!(line.render(1), "好x");
    assert_eq!(line.render(3), "");
    assert_eq!(line.to_string(), "你好x");
}

#[test]
fn app_ctx_cursor_math() {
    // The on-screen column is where the cursor's grapheme begins,
    // not the grapheme index.
    let ctx = AppCtx {
        current_line: Line::from_str("你你a"),
        offset: Position { x: 1, y: 3 },
        cursor: Position { x: 3, y: 10 },
        screen_size: (80, 24),
        doc_size: (5, 12),
        bottom_height: 2,
    };
    let on_screen = ctx.get_cursor();
    // Cursor grapheme 3 - offset 1 = grapheme 2, which begins at
    // column 4.
    assert_eq!(on_screen.x, 4);
    assert_eq!(on_screen.y, 7);
    assert_eq!(ctx.cal_offset_y(), 3);
    assert_eq!(ctx.get_screen_height(), 24);
}
