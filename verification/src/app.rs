//! The per-frame context the host assembles before drawing: the
//! current line's width index, the scroll offset, the cursor, and the
//! screen geometry — and the cursor math over them.

use crate::screen::Position;
use crate::width::{offset_spec, Line};
use vstd::prelude::*;

verus! {

/// Everything the renderer needs for one frame.
pub struct AppCtx {
    /// The display-width index of the line the cursor is on.
    pub current_line: Line,
    /// How far the view is scrolled, in rows and grapheme columns.
    pub offset: Position,
    /// The cursor, in rows and grapheme columns.
    pub cursor: Position,
    /// The terminal size, columns by rows.
    pub screen_size: (u16, u16),
    /// The current line's width and the document's line count.
    pub doc_size: (usize, usize),
    /// Screen rows reserved below the text area.
    pub bottom_height: usize,
}

impl AppCtx {
    /// Where the cursor sits on screen: the row relative to the
    /// scroll offset, and the display column at which the cursor's
    /// grapheme begins — never the grapheme index itself.
    pub fn get_cursor(&self) -> (r: Position)
        requires
            self.current_line.wf(),
        ensures
            r.x as nat == offset_spec(
                self.current_line.clusters(),
                self.cursor.x.saturating_sub(self.offset.x) as int,
            ),
            r.y == self.cursor.y.saturating_sub(self.offset.y),
    {
        Position {
            x: self.current_line.get_offset(self.cursor.x.saturating_sub(self.offset.x)),
            y: self.cursor.y.saturating_sub(self.offset.y),
        }
    }

    /// The vertical scroll offset.
    pub fn cal_offset_y(&self) -> (r: usize)
        ensures
            r == self.offset.y,
    {
        self.offset.y
    }

    /// The screen height in rows.
    pub fn get_screen_height(&self) -> (r: usize)
        ensures
            r == self.screen_size.1 as usize,
    {
        self.screen_size.1 as usize
    }
}

} // verus!
