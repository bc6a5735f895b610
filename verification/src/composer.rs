//! The composer's sizing: one top padding row, the textarea rows, one
//! bottom padding row and one footer hints row, clamped between the minimum
//! and the configured maximum.

use vstd::prelude::*;
use crate::textarea::TextArea;

verus! {

/// Columns reserved for the quote prefix left of the textarea.
pub const PREFIX_COLS: u16 = 2;

pub struct Composer {
    pub max_input_rows: u16,
}

impl Composer {
    pub fn new(max_input_rows: u16) -> (r: Composer)
        ensures
            r.max_input_rows == max_input_rows,
    {
        Composer { max_input_rows }
    }

    pub fn max_input_rows(&self) -> (r: u16)
        ensures
            r == self.max_input_rows,
    {
        self.max_input_rows
    }

    /// The composer's total height for this textarea at this width: one top
    /// padding row, the wrapped textarea rows, one bottom padding row and
    /// the footer row, at least four rows and at most three more than the
    /// row limit.
    pub fn calculate_input_height(&self, textarea: &TextArea, width: u16) -> (r: u16)
        requires
            self.max_input_rows >= 1,
        ensures
            4 <= r,
            self.max_input_rows <= u16::MAX - 3 ==> r <= self.max_input_rows + 3,
            ({
                let tw = (if width >= PREFIX_COLS + 1 {
                    (width - PREFIX_COLS - 1) as int
                } else {
                    0
                });
                let lines = (if tw == 0 {
                    1int
                } else {
                    (if crate::wrap::wrap_of(textarea.text@, tw).len() >= 1 {
                        crate::wrap::wrap_of(textarea.text@, tw).len() as int
                    } else {
                        1int
                    }) as u16 as int
                });
                let total = lines + 3;
                let cap = (if self.max_input_rows <= u16::MAX - 3 {
                    self.max_input_rows + 3
                } else {
                    u16::MAX as int
                });
                r as int == (if total < 4 {
                    4int
                } else if total > cap {
                    cap
                } else {
                    total
                })
            }),
    {
        let textarea_width = if width >= PREFIX_COLS + 1 {
            width - PREFIX_COLS - 1
        } else {
            0
        };
        let lines = textarea.desired_height(textarea_width);
        let total: u32 = (lines as u32) + 3;
        let cap: u32 = if self.max_input_rows <= u16::MAX - 3 {
            (self.max_input_rows as u32) + 3
        } else {
            u16::MAX as u32
        };
        let clamped: u32 = if total < 4 {
            4
        } else if total > cap {
            cap
        } else {
            total
        };
        clamped as u16
    }
}

} // verus!
