use crate::chip::Chip;
use crate::state::{DISPLAY_LENGTH, SCALE, WIDTH};
use vstd::prelude::*;

verus! {

/// The square of pixels that stands for one display cell on the screen.
#[derive(Clone, Copy, Debug, PartialEq, Eq, Structural)]
pub struct CellRect {
    /// The left edge, in pixels.
    pub x: i32,
    /// The upper edge, in pixels.
    pub y: i32,
    /// The width, in pixels.
    pub width: u32,
    /// The height, in pixels.
    pub height: u32,
    /// Whether the cell is lit.
    pub lit: bool,
}

/// The square for cell `idx` of `display`: cells lie row by row, `WIDTH` to a
/// row, and each is `SCALE` pixels wide and high. There is none for an index
/// beyond the display.
pub open spec fn cell_rect_spec(display: Seq<bool>, idx: int) -> Option<CellRect> {
    if 0 <= idx < DISPLAY_LENGTH {
        Some(
            CellRect {
                x: ((idx % WIDTH as int) * SCALE) as i32,
                y: ((idx / WIDTH as int) * SCALE) as i32,
                width: SCALE,
                height: SCALE,
                lit: display[idx],
            },
        )
    } else {
        None
    }
}

impl Chip {
    /// The square that a renderer paints for display cell `idx`, and whether
    /// to paint it lit.
    pub fn cell_rect(&self, idx: usize) -> (rect: Option<CellRect>)
        ensures
            rect == cell_rect_spec(self@.display, idx as int),
    {
        if idx >= DISPLAY_LENGTH {
            return None;
        }
        let cells = self.display();
        let column = (idx % WIDTH as usize) as i32;
        let row = (idx / WIDTH as usize) as i32;
        Some(
            CellRect {
                x: column * SCALE as i32,
                y: row * SCALE as i32,
                width: SCALE,
                height: SCALE,
                lit: cells[idx] != 0,
            },
        )
    }
}

} // verus!
