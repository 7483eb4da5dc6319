//! The screen-facing cursor model: a scroll offset that follows the
//! cursor, and the viewport cursor state machine that moves the
//! cursor over the document in display columns, never in grapheme
//! counts.

use crate::document::Document;
use crate::width::line_width_of;
use vstd::prelude::*;

verus! {

/// A relative screen position: the part of the document scrolled out
/// of view, or a cursor inside the visible window.
#[derive(PartialEq, Eq, Copy, Clone, Structural, Debug, Default)]
pub struct Position {
    pub x: usize,
    pub y: usize,
}

impl Position {
    /// Follows the cursor vertically: scrolls up to the cursor's row,
    /// or down just far enough to keep it on the last visible row,
    /// where `bottom_height` rows of the screen are reserved.
    pub fn scroll(&mut self, cursor: Position, screen_height: usize, bottom_height: usize)
        ensures
            final(self).x == old(self).x,
            final(self).y == ({
                let vh = screen_height.saturating_sub(bottom_height);
                if cursor.y < old(self).y {
                    cursor.y
                } else if cursor.y >= old(self).y.saturating_add(vh) {
                    cursor.y.saturating_sub(vh).saturating_add(1)
                } else {
                    old(self).y
                }
            }),
    {
        let vh = screen_height.saturating_sub(bottom_height);
        if cursor.y < self.y {
            self.y = cursor.y;
        } else if cursor.y >= self.y.saturating_add(vh) {
            self.y = cursor.y.saturating_sub(vh).saturating_add(1);
        }
    }
}

/// A navigation intent from the host event loop.
#[derive(PartialEq, Eq, Copy, Clone, Structural, Debug)]
pub enum NavIntent {
    Up,
    Down,
    Left,
    Right,
    Home,
    End,
    PageUp,
    PageDown,
}

/// The display width of line `row`, or zero outside the document.
pub open spec fn width_of_line(cont: Seq<Seq<Seq<char>>>, row: int) -> nat {
    if 0 <= row < cont.len() {
        line_width_of(cont[row])
    } else {
        0
    }
}

/// Where one navigation intent takes the cursor: the raw move of
/// the intent, the row clamped to the document, then the column
/// clamped to the resulting line's display width — per-step clamping,
/// never deferred.
pub open spec fn move_cursor_spec(
    cont: Seq<Seq<Seq<char>>>,
    screen_height: int,
    key: NavIntent,
    row: int,
    col: int,
) -> (int, int) {
    let h = cont.len() as int;
    let last = if h == 0 {
        0
    } else {
        h - 1
    };
    let moved = match key {
        NavIntent::Left => if col > 0 {
            (row, col - 1)
        } else if row > 0 {
            (row - 1, width_of_line(cont, row - 1) as int)
        } else {
            (row, col)
        },
        NavIntent::Right => if col < width_of_line(cont, row) {
            (row, col + 1)
        } else if row < last {
            (row + 1, 0int)
        } else {
            (row, col)
        },
        NavIntent::Up => ((if row > 0 {
            row - 1
        } else {
            0int
        }), col),
        NavIntent::Down => ((if row < last {
            row + 1
        } else {
            row
        }), col),
        NavIntent::Home => (row, 0int),
        NavIntent::End => (row, width_of_line(cont, row) as int),
        NavIntent::PageUp => ((if row >= screen_height {
            row - screen_height
        } else {
            0int
        }), col),
        NavIntent::PageDown => ((if row + screen_height < last {
            row + screen_height
        } else {
            last
        }), col),
    };
    let row2 = if moved.0 > last {
        last
    } else {
        moved.0
    };
    let w2 = width_of_line(cont, row2) as int;
    let col2 = if moved.1 > w2 {
        w2
    } else {
        moved.1
    };
    (row2, col2)
}

/// The logical cursor, the scroll offset, and the screen geometry:
/// everything needed to keep an on-screen cursor correctly positioned
/// over text of variable display width. `cursor` and `scroll` columns
/// are display columns, never grapheme counts.
pub struct ViewportCursor {
    pub cursor: Position,
    pub scroll: Position,
    pub screen_width: usize,
    pub screen_height: usize,
    pub reserved_bottom_rows: usize,
}

impl ViewportCursor {
    pub fn new(screen_width: usize, screen_height: usize, reserved_bottom_rows: usize) -> (r:
        ViewportCursor)
        ensures
            r.cursor == (Position { x: 0, y: 0 }),
            r.scroll == (Position { x: 0, y: 0 }),
            r.screen_width == screen_width,
            r.screen_height == screen_height,
            r.reserved_bottom_rows == reserved_bottom_rows,
    {
        ViewportCursor {
            cursor: Position { x: 0, y: 0 },
            scroll: Position { x: 0, y: 0 },
            screen_width,
            screen_height,
            reserved_bottom_rows,
        }
    }

    /// Moves the cursor by one navigation intent, exactly as
    /// [`move_cursor_spec`] describes: the row is clamped to the
    /// document, then the column to the resulting line's display
    /// width.
    pub fn move_cursor(&mut self, doc: &Document, key: NavIntent)
        requires
            doc.inv(),
        ensures
            ({
                let (r, c) = move_cursor_spec(
                    doc.contents(),
                    old(self).screen_height as int,
                    key,
                    old(self).cursor.y as int,
                    old(self).cursor.x as int,
                );
                final(self).cursor.y == r && final(self).cursor.x == c
            }),
            final(self).scroll == old(self).scroll,
            final(self).screen_width == old(self).screen_width,
            final(self).screen_height == old(self).screen_height,
            final(self).reserved_bottom_rows == old(self).reserved_bottom_rows,
    {
        let h = doc.len();
        let last = if h == 0 {
            0
        } else {
            h - 1
        };
        let mut x = self.cursor.x;
        let mut y = self.cursor.y;
        proof {
            if y < h {
                crate::width::lemma_offset_le_max(doc.contents()[y as int], doc.contents()[
                y as int].len() as int);
            }
        }
        match key {
            NavIntent::Left => {
                if x > 0 {
                    x = x - 1;
                } else if y > 0 {
                    y = y - 1;
                    x = doc.line_width(y);
                }
            },
            NavIntent::Right => {
                let w = doc.line_width(y);
                if x < w {
                    x = x + 1;
                } else if y < last {
                    y = y + 1;
                    x = 0;
                }
            },
            NavIntent::Up => {
                y = y.saturating_sub(1);
            },
            NavIntent::Down => {
                if y < last {
                    y = y + 1;
                }
            },
            NavIntent::Home => {
                x = 0;
            },
            NavIntent::End => {
                x = doc.line_width(y);
            },
            NavIntent::PageUp => {
                y = y.saturating_sub(self.screen_height);
            },
            NavIntent::PageDown => {
                let jump = y.saturating_add(self.screen_height);
                y = if jump < last {
                    jump
                } else {
                    last
                };
            },
        }
        if y > last {
            y = last;
        }
        let w = doc.line_width(y);
        if x > w {
            x = w;
        }
        self.cursor = Position { x, y };
    }

    /// Scrolls just far enough to keep the cursor visible: rows
    /// against the visible height, display columns against the screen
    /// width.
    pub fn scroll_to_follow(&mut self)
        ensures
            final(self).cursor == old(self).cursor,
            final(self).screen_width == old(self).screen_width,
            final(self).screen_height == old(self).screen_height,
            final(self).reserved_bottom_rows == old(self).reserved_bottom_rows,
            final(self).scroll.y == ({
                let vh = old(self).screen_height.saturating_sub(old(self).reserved_bottom_rows);
                if old(self).cursor.y < old(self).scroll.y {
                    old(self).cursor.y
                } else if old(self).cursor.y >= old(self).scroll.y.saturating_add(vh) {
                    old(self).cursor.y.saturating_sub(vh).saturating_add(1)
                } else {
                    old(self).scroll.y
                }
            }),
            final(self).scroll.x == ({
                let w = old(self).screen_width;
                if old(self).cursor.x < old(self).scroll.x {
                    old(self).cursor.x
                } else if old(self).cursor.x >= old(self).scroll.x.saturating_add(w) {
                    old(self).cursor.x.saturating_sub(w).saturating_add(1)
                } else {
                    old(self).scroll.x
                }
            }),
    {
        let vh = self.screen_height.saturating_sub(self.reserved_bottom_rows);
        let cursor = self.cursor;
        if cursor.y < self.scroll.y {
            self.scroll.y = cursor.y;
        } else if cursor.y >= self.scroll.y.saturating_add(vh) {
            self.scroll.y = cursor.y.saturating_sub(vh).saturating_add(1);
        }
        let w = self.screen_width;
        if cursor.x < self.scroll.x {
            self.scroll.x = cursor.x;
        } else if cursor.x >= self.scroll.x.saturating_add(w) {
            self.scroll.x = cursor.x.saturating_sub(w).saturating_add(1);
        }
    }
}

} // verus!
