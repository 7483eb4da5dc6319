//! A two-dimensional text position: column `x` and row `y`.

use crate::buffer::text::Text;
use vstd::prelude::*;

verus! {

/// One axis of [`Position::adapter`]: a non-zero coordinate wraps
/// into a non-zero frame extent.
pub open spec fn adapt_axis(v: int, bound: int) -> int {
    if v != 0 && bound != 0 {
        v % bound
    } else {
        v
    }
}

/// A position in the document or on the screen, in columns and rows.
#[derive(PartialEq, Eq, Copy, Clone, Structural, Debug)]
pub struct Position {
    pub x: usize,
    pub y: usize,
}

impl Position {
    pub fn origin() -> (r: Position)
        ensures
            r.x == 0 && r.y == 0,
    {
        Position { x: 0, y: 0 }
    }

    pub fn set(&mut self, x: usize, y: usize)
        ensures
            final(self).x == x,
            final(self).y == y,
    {
        self.x = x;
        self.y = y;
    }

    /// Moves right by `amount`, saturating at the numeric limit.
    pub fn add_x(&mut self, amount: usize)
        ensures
            final(self).x == old(self).x.saturating_add(amount),
            final(self).y == old(self).y,
    {
        self.x = self.x.saturating_add(amount);
    }

    /// Moves down by `amount`, saturating at the numeric limit.
    pub fn add_y(&mut self, amount: usize)
        ensures
            final(self).y == old(self).y.saturating_add(amount),
            final(self).x == old(self).x,
    {
        self.y = self.y.saturating_add(amount);
    }

    /// Moves left by `amount`, stopping at column zero.
    pub fn sub_x(&mut self, amount: usize)
        ensures
            final(self).x == old(self).x.saturating_sub(amount),
            final(self).y == old(self).y,
    {
        self.x = self.x.saturating_sub(amount);
    }

    /// Moves up by `amount`, stopping at row zero.
    pub fn sub_y(&mut self, amount: usize)
        ensures
            final(self).y == old(self).y.saturating_sub(amount),
            final(self).x == old(self).x,
    {
        self.y = self.y.saturating_sub(amount);
    }

    /// Fits the position into a frame before the host sets the
    /// terminal cursor: each coordinate wraps into the frame extent,
    /// the row is clamped to the text's line count, the column to
    /// that row's cluster count, and the result is narrowed to the
    /// terminal's cell type.
    pub fn adapter(&self, frame_width: u16, frame_height: u16, text: Option<&Text>) -> (r: (
        u16,
        u16,
    ))
        ensures
            ({
                let x0 = adapt_axis(self.x as int, frame_width as int);
                let y0 = adapt_axis(self.y as int, frame_height as int);
                let y1 = match text {
                    Some(t) => if y0 > t.contents().len() {
                        t.contents().len() as int
                    } else {
                        y0
                    },
                    None => y0,
                };
                let x1 = match text {
                    Some(t) => {
                        let row_len = if y1 < t.contents().len() {
                            t.contents()[y1].len() as int
                        } else {
                            0
                        };
                        if x0 > row_len {
                            row_len
                        } else {
                            x0
                        }
                    },
                    None => x0,
                };
                r.0 as int == x1 % 0x10000 && r.1 as int == y1 % 0x10000
            }),
    {
        let mut x = if self.x != 0 && frame_width != 0 {
            self.x % (frame_width as usize)
        } else {
            self.x
        };
        let mut y = if self.y != 0 && frame_height != 0 {
            self.y % (frame_height as usize)
        } else {
            self.y
        };
        match text {
            Option::None => {},
            Option::Some(text) => {
                let text_len = text.len();
                if y > text_len {
                    y = text_len;
                }
                let row_len = match text.row(y) {
                    Option::Some(row) => row.len(),
                    Option::None => 0,
                };
                if x > row_len {
                    x = row_len;
                }
            },
        }
        proof {
            let x0 = adapt_axis(self.x as int, frame_width as int);
            let y0 = adapt_axis(self.y as int, frame_height as int);
            let y1 = match text {
                Some(t) => if y0 > t.contents().len() {
                    t.contents().len() as int
                } else {
                    y0
                },
                None => y0,
            };
            let x1 = match text {
                Some(t) => {
                    let row_len = if y1 < t.contents().len() {
                        t.contents()[y1].len() as int
                    } else {
                        0
                    };
                    if x0 > row_len {
                        row_len
                    } else {
                        x0
                    }
                },
                None => x0,
            };
            assert(y as int == y1);
            assert(x as int == x1);
        }
        ((x % 0x10000) as u16, (y % 0x10000) as u16)
    }
}

impl Default for Position {
    /// The origin.
    fn default() -> (r: Position)
        ensures
            r.x == 0 && r.y == 0,
    {
        Position { x: 0, y: 0 }
    }
}

} // verus!
