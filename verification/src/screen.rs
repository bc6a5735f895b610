//! The double-buffered cell screen and its diff engine: compare the
//! previous and the next frame cell by cell and emit the minimal update
//! commands, with per-row clear-to-end collapsing of trailing blanks and an
//! attribute diff that turns modifier-bit changes into explicit terminal
//! attributes. The host program turns the commands into terminal writes.

use vstd::prelude::*;
use crate::style::{
    TextStyle,
    color_eq,
    MOD_BOLD,
    MOD_DIM,
    MOD_ITALIC,
    MOD_UNDERLINED,
    MOD_REVERSED,
    MOD_CROSSED_OUT,
    MOD_SLOW_BLINK,
    MOD_RAPID_BLINK,
};
use crate::width::char_display_width;

verus! {

/// One screen cell: a character, its colors and modifier bits, and a skip
/// flag for the continuation cell of a wide glyph.
pub struct ScreenCell {
    pub symbol: char,
    pub fg: ratatui::style::Color,
    pub bg: ratatui::style::Color,
    pub mods: u16,
    pub skip: bool,
}

impl ScreenCell {
    /// The blank cell rows reset to.
    pub fn blank() -> (r: ScreenCell)
        ensures
            r.symbol == ' ',
            r.fg == ratatui::style::Color::Reset,
            r.bg == ratatui::style::Color::Reset,
            r.mods == 0,
            !r.skip,
    {
        ScreenCell {
            symbol: ' ',
            fg: ratatui::style::Color::Reset,
            bg: ratatui::style::Color::Reset,
            mods: 0,
            skip: false,
        }
    }
}

/// Structural equality of two cells.
pub fn cell_eq(a: &ScreenCell, b: &ScreenCell) -> (r: bool)
    ensures
        r == (*a == *b),
{
    let e = a.symbol == b.symbol && color_eq(a.fg, b.fg) && color_eq(a.bg, b.bg) && a.mods
        == b.mods && a.skip == b.skip;
    proof {
        if a.symbol == b.symbol && a.fg == b.fg && a.bg == b.bg && a.mods == b.mods && a.skip
            == b.skip {
            assert(*a == *b);
        }
    }
    e
}

/// A rectangular cell grid in row-major order.
pub struct ScreenBuffer {
    pub width: u16,
    pub height: u16,
    pub cells: Vec<ScreenCell>,
}

impl ScreenBuffer {
    pub open spec fn spec_wf(self) -> bool {
        self.cells@.len() == self.width as int * self.height as int
    }

    /// An all-blank buffer of the given size.
    pub fn empty(width: u16, height: u16) -> (r: ScreenBuffer)
        ensures
            r.spec_wf(),
            r.width == width,
            r.height == height,
    {
        proof {
            lemma_grid_fits(width as int, height as int);
        }
        let mut cells: Vec<ScreenCell> = Vec::new();
        let total = (width as usize) * (height as usize);
        let mut i: usize = 0;
        while i < total
            invariant
                i <= total,
                cells@.len() == i,
            decreases total - i,
        {
            cells.push(ScreenCell::blank());
            i += 1;
        }
        proof {
            assert(total == width as int * height as int);
        }
        ScreenBuffer { width, height, cells }
    }

    /// The cell index of `(x, y)`.
    pub open spec fn spec_index(self, x: int, y: int) -> int {
        y * self.width as int + x
    }

    /// Reads the cell at `(x, y)`.
    pub fn cell_at(&self, x: u16, y: u16) -> (r: &ScreenCell)
        requires
            self.spec_wf(),
            x < self.width,
            y < self.height,
        ensures
            *r == self.cells@[self.spec_index(x as int, y as int)],
    {
        proof {
            lemma_grid_fits(self.width as int, self.height as int);
            lemma_index_in_bounds(self.width as int, self.height as int, x as int, y as int);
        }
        let idx = (y as usize) * (self.width as usize) + (x as usize);
        &self.cells[idx]
    }

    /// Writes the cell at `(x, y)`.
    pub fn set_cell(&mut self, x: u16, y: u16, cell: ScreenCell)
        requires
            old(self).spec_wf(),
            x < old(self).width,
            y < old(self).height,
        ensures
            final(self).spec_wf(),
            final(self).width == old(self).width,
            final(self).height == old(self).height,
            final(self).cells@ == old(self).cells@.update(
                old(self).spec_index(x as int, y as int),
                cell,
            ),
    {
        proof {
            lemma_grid_fits(self.width as int, self.height as int);
            lemma_index_in_bounds(self.width as int, self.height as int, x as int, y as int);
        }
        let idx = (y as usize) * (self.width as usize) + (x as usize);
        self.cells.set(idx, cell);
    }

    /// Writes a string starting at `(x, y)` with a style: zero-width
    /// characters are dropped, a glyph wider than one column marks its
    /// continuation cells as skipped, and writing stops at the right edge.
    /// Only row `y`'s cells from column `x` on change (the cell indexes
    /// `[y*width + x, y*width + width)`), and every changed cell carries the
    /// requested style.
    pub fn set_string(&mut self, x: u16, y: u16, text: &Vec<char>, style: TextStyle)
        requires
            old(self).spec_wf(),
            y < old(self).height,
        ensures
            final(self).spec_wf(),
            final(self).width == old(self).width,
            final(self).height == old(self).height,
            forall|idx: int|
                0 <= idx < old(self).cells@.len() && (idx < old(self).spec_index(
                    x as int,
                    y as int,
                ) || idx >= old(self).spec_index(0, y as int) + old(self).width) ==> #[trigger]
                final(self).cells@[idx] == old(self).cells@[idx],
            forall|idx: int|
                0 <= idx < old(self).cells@.len() && #[trigger] final(self).cells@[idx] != old(
                    self,
                ).cells@[idx] ==> {
                    let cell = final(self).cells@[idx];
                    &&& cell.mods == style.mods
                    &&& cell.fg == (if style.fg is Some {
                        style.fg->0
                    } else {
                        ratatui::style::Color::Reset
                    })
                    &&& cell.bg == (if style.bg is Some {
                        style.bg->0
                    } else {
                        ratatui::style::Color::Reset
                    })
                },
    {
        proof {
            lemma_grid_fits(self.width as int, self.height as int);
        }
        let mut cx = x;
        let mut i: usize = 0;
        let fg = match style.fg {
            Some(c) => c,
            None => ratatui::style::Color::Reset,
        };
        let bg = match style.bg {
            Some(c) => c,
            None => ratatui::style::Color::Reset,
        };
        while i < text.len()
            invariant
                old(self).spec_wf(),
                self.spec_wf(),
                self.width == old(self).width,
                self.height == old(self).height,
                y < self.height,
                x <= cx,
                i <= text@.len(),
                fg == (if style.fg is Some {
                    style.fg->0
                } else {
                    ratatui::style::Color::Reset
                }),
                bg == (if style.bg is Some {
                    style.bg->0
                } else {
                    ratatui::style::Color::Reset
                }),
                forall|idx: int|
                    0 <= idx < old(self).cells@.len() && (idx < old(self).spec_index(
                        x as int,
                        y as int,
                    ) || idx >= old(self).spec_index(0, y as int) + old(self).width)
                        ==> #[trigger] self.cells@[idx] == old(self).cells@[idx],
                forall|idx: int|
                    0 <= idx < old(self).cells@.len() && #[trigger] self.cells@[idx] != old(
                        self,
                    ).cells@[idx] ==> {
                        let cell = self.cells@[idx];
                        cell.mods == style.mods && cell.fg == fg && cell.bg == bg
                    },
            decreases text@.len() - i,
        {
            let c = text[i];
            let w = char_display_width(c);
            if w == 0 {
                i += 1;
                continue ;
            }
            if cx >= self.width || self.width - cx < w as u16 {
                return ;
            }
            proof {
                lemma_index_in_bounds(
                    self.width as int,
                    self.height as int,
                    cx as int,
                    y as int,
                );
            }
            let ghost mid = self.cells@;
            let cell0 = ScreenCell { symbol: c, fg, bg, mods: style.mods, skip: false };
            let ghost gcell = cell0;
            self.set_cell(cx, y, cell0);
            proof {
                broadcast use vstd::seq::axiom_seq_update_different;

                let j0 = y as int * self.width as int + cx as int;
                assert(j0 == old(self).spec_index(cx as int, y as int));
                assert(self.cells@ == mid.update(j0, gcell));
                assert(mid.len() == old(self).cells@.len());
                assert(old(self).spec_index(x as int, y as int) <= j0);
                assert(j0 < old(self).spec_index(0, y as int) + old(self).width);
                assert forall|idx: int|
                    0 <= idx < old(self).cells@.len() && (idx < old(self).spec_index(
                        x as int,
                        y as int,
                    ) || idx >= old(self).spec_index(0, y as int) + old(self).width) implies
                    #[trigger] self.cells@[idx] == old(self).cells@[idx] by {
                    assert(idx != j0);
                    assert(0 <= idx < mid.len());
                    assert(0 <= j0 < mid.len());
                    assert(self.cells@ == mid.update(j0, gcell));
                    assert(self.cells@[idx] == mid.update(j0, gcell)[idx]);
                    vstd::seq::lemma_seq_update_different_alt::<ScreenCell>(mid, idx, j0, gcell);
                    assert(mid.update(j0, gcell)[idx] == mid[idx]);
                }
                assert forall|idx: int|
                    0 <= idx < old(self).cells@.len() && #[trigger] self.cells@[idx] != old(
                        self,
                    ).cells@[idx] implies {
                    let cell = self.cells@[idx];
                    cell.mods == style.mods && cell.fg == fg && cell.bg == bg
                } by {
                    if idx != j0 {
                        assert(0 <= idx < mid.len());
                        assert(0 <= j0 < mid.len());
                        assert(self.cells@[idx] == mid.update(j0, gcell)[idx]);
                        vstd::seq::lemma_seq_update_different_alt::<ScreenCell>(
                            mid,
                            idx,
                            j0,
                            gcell,
                        );
                        assert(self.cells@[idx] == mid[idx]);
                        assert(mid[idx] != old(self).cells@[idx]);
                    } else {
                        vstd::seq::lemma_seq_update_same_alt::<ScreenCell>(mid, j0, gcell);
                        assert(self.cells@[idx] == gcell);
                    }
                }
            }
            let mut k: u16 = 1;
            while k < w as u16
                invariant
                    old(self).spec_wf(),
                    self.spec_wf(),
                    self.width == old(self).width,
                    self.height == old(self).height,
                    y < self.height,
                    x <= cx,
                    1 <= k,
                    k <= w,
                    w <= 3,
                    cx < self.width,
                    self.width - cx >= w as u16,
                    fg == (if style.fg is Some {
                        style.fg->0
                    } else {
                        ratatui::style::Color::Reset
                    }),
                    bg == (if style.bg is Some {
                        style.bg->0
                    } else {
                        ratatui::style::Color::Reset
                    }),
                    forall|idx: int|
                        0 <= idx < old(self).cells@.len() && (idx < old(self).spec_index(
                            x as int,
                            y as int,
                        ) || idx >= old(self).spec_index(0, y as int) + old(self).width)
                            ==> #[trigger] self.cells@[idx] == old(self).cells@[idx],
                    forall|idx: int|
                        0 <= idx < old(self).cells@.len() && #[trigger] self.cells@[idx] != old(
                            self,
                        ).cells@[idx] ==> {
                            let cell = self.cells@[idx];
                            cell.mods == style.mods && cell.fg == fg && cell.bg == bg
                        },
                decreases w - k,
            {
                proof {
                    lemma_index_in_bounds(
                        self.width as int,
                        self.height as int,
                        cx as int + k,
                        y as int,
                    );
                }
                let ghost mid2 = self.cells@;
                let cellk = ScreenCell { symbol: ' ', fg, bg, mods: style.mods, skip: true };
                let ghost gcellk = cellk;
                self.set_cell(cx + k, y, cellk);
                proof {
                    broadcast use vstd::seq::axiom_seq_update_different;

                    let j0 = y as int * self.width as int + cx as int + k;
                    assert(j0 == old(self).spec_index(cx as int + k, y as int));
                    assert(self.cells@ == mid2.update(j0, gcellk));
                    assert(mid2.len() == old(self).cells@.len());
                    assert(old(self).spec_index(x as int, y as int) <= j0);
                    assert(j0 < old(self).spec_index(0, y as int) + old(self).width);
                    assert forall|idx: int|
                        0 <= idx < old(self).cells@.len() && (idx < old(self).spec_index(
                            x as int,
                            y as int,
                        ) || idx >= old(self).spec_index(0, y as int) + old(self).width) implies
                        #[trigger] self.cells@[idx] == old(self).cells@[idx] by {
                        assert(idx != j0);
                        vstd::seq::lemma_seq_update_different_alt::<ScreenCell>(
                            mid2,
                            idx,
                            j0,
                            gcellk,
                        );
                        assert(mid2.update(j0, gcellk)[idx] == mid2[idx]);
                    }
                    assert forall|idx: int|
                        0 <= idx < old(self).cells@.len() && #[trigger] self.cells@[idx] != old(
                            self,
                        ).cells@[idx] implies {
                        let cell = self.cells@[idx];
                        cell.mods == style.mods && cell.fg == fg && cell.bg == bg
                    } by {
                        if idx != j0 {
                            vstd::seq::lemma_seq_update_different_alt::<ScreenCell>(
                                mid2,
                                idx,
                                j0,
                                gcellk,
                            );
                            assert(self.cells@[idx] == mid2[idx]);
                            assert(mid2[idx] != old(self).cells@[idx]);
                        } else {
                            vstd::seq::lemma_seq_update_same_alt::<ScreenCell>(mid2, j0, gcellk);
                            assert(self.cells@[idx] == gcellk);
                        }
                    }
                }
                k += 1;
            }
            cx = cx + (w as u16);
            i += 1;
        }
    }
}

/// A cell grid of terminal dimensions fits comfortably in memory indexes.
pub proof fn lemma_grid_fits(w: int, h: int)
    requires
        0 <= w <= 65535,
        0 <= h <= 65535,
    ensures
        w * h <= 0xfffe0001,
{
    assert(w * h <= 0xfffe0001) by (nonlinear_arith)
        requires
            0 <= w <= 65535,
            0 <= h <= 65535,
    ;
}

/// Indexing stays inside a well-formed buffer.
pub proof fn lemma_index_in_bounds(w: int, h: int, x: int, y: int)
    requires
        0 <= x < w,
        0 <= y < h,
    ensures
        0 <= y * w + x < w * h,
{
    assert(y * w + x < w * h) by (nonlinear_arith)
        requires
            0 <= x < w,
            0 <= y < h,
    ;
    assert(y * w + x >= 0) by (nonlinear_arith)
        requires
            0 <= x < w,
            0 <= y < h,
    ;
}

/// One minimal update against the previous frame.
pub enum DrawCommand {
    /// Paint one cell.
    Put { x: u16, y: u16, cell: ScreenCell },
    /// Clear from `(x, y)` to the row's end in the given background.
    ClearToEnd { x: u16, y: u16, bg: ratatui::style::Color },
}

/// The diff between the previous and the next frame: walk both buffers in
/// row-major order and emit a `Put` wherever the next frame differs from
/// the previous one (skip-marked continuation cells are never painted).
/// Every emitted `Put` paints exactly the next frame's cell at its
/// coordinates.
pub fn diff_buffers(prev: &ScreenBuffer, next: &ScreenBuffer) -> (r: Vec<DrawCommand>)
    requires
        prev.spec_wf(),
        next.spec_wf(),
        prev.width == next.width,
        prev.height == next.height,
    ensures
        forall|k: int|
            0 <= k < r@.len() ==> ((#[trigger] r@[k]) matches DrawCommand::Put { x, y, cell }
                ==> (x < next.width && y < next.height && cell == next.cells@[next.spec_index(
                x as int,
                y as int,
            )] && cell != prev.cells@[prev.spec_index(x as int, y as int)])),
    {
        let mut r: Vec<DrawCommand> = Vec::new();
        let mut y: u16 = 0;
        while y < next.height
            invariant
                prev.spec_wf(),
                next.spec_wf(),
                prev.width == next.width,
                prev.height == next.height,
                y <= next.height,
                forall|k: int|
                    0 <= k < r@.len() ==> ((#[trigger] r@[k]) matches DrawCommand::Put {
                        x,
                        y,
                        cell,
                    } ==> (x < next.width && y < next.height && cell
                        == next.cells@[next.spec_index(x as int, y as int)] && cell
                        != prev.cells@[prev.spec_index(x as int, y as int)])),
            decreases next.height - y,
        {
            let mut x: u16 = 0;
            while x < next.width
                invariant
                    prev.spec_wf(),
                    next.spec_wf(),
                    prev.width == next.width,
                    prev.height == next.height,
                    y < next.height,
                    x <= next.width,
                    forall|k: int|
                        0 <= k < r@.len() ==> ((#[trigger] r@[k]) matches DrawCommand::Put {
                            x,
                            y,
                            cell,
                        } ==> (x < next.width && y < next.height && cell
                            == next.cells@[next.spec_index(x as int, y as int)] && cell
                            != prev.cells@[prev.spec_index(x as int, y as int)])),
                decreases next.width - x,
            {
                let cur = next.cell_at(x, y);
                let old_cell = prev.cell_at(x, y);
                if !cur.skip && !cell_eq(cur, old_cell) {
                    let put = DrawCommand::Put {
                        x,
                        y,
                        cell: ScreenCell {
                            symbol: cur.symbol,
                            fg: cur.fg,
                            bg: cur.bg,
                            mods: cur.mods,
                            skip: cur.skip,
                        },
                    };
                    r.push(put);
                }
                x += 1;
            }
            y += 1;
        }
        r
    }

/// A terminal attribute the modifier diff emits.
#[derive(Clone, Copy, Debug, PartialEq, Eq, Structural)]
pub enum AttrOp {
    NoReverse,
    NormalIntensity,
    Dim,
    NoItalic,
    NoUnderline,
    NotCrossedOut,
    NoBlink,
    Reverse,
    Bold,
    Italic,
    Underlined,
    CrossedOut,
    SlowBlink,
    RapidBlink,
}

/// The "off" attributes for the removed modifier bits, in emission order
/// (bold-off emits normal intensity and restores dim when it stays set).
pub open spec fn spec_removal_ops(removed: u16, to: u16) -> Seq<AttrOp> {
    (if removed & MOD_REVERSED != 0 {
        seq![AttrOp::NoReverse]
    } else {
        Seq::<AttrOp>::empty()
    }) + (if removed & MOD_BOLD != 0 {
        if to & MOD_DIM != 0 {
            seq![AttrOp::NormalIntensity, AttrOp::Dim]
        } else {
            seq![AttrOp::NormalIntensity]
        }
    } else {
        Seq::<AttrOp>::empty()
    }) + (if removed & MOD_ITALIC != 0 {
        seq![AttrOp::NoItalic]
    } else {
        Seq::<AttrOp>::empty()
    }) + (if removed & MOD_UNDERLINED != 0 {
        seq![AttrOp::NoUnderline]
    } else {
        Seq::<AttrOp>::empty()
    }) + (if removed & MOD_DIM != 0 {
        seq![AttrOp::NormalIntensity]
    } else {
        Seq::<AttrOp>::empty()
    }) + (if removed & MOD_CROSSED_OUT != 0 {
        seq![AttrOp::NotCrossedOut]
    } else {
        Seq::<AttrOp>::empty()
    }) + (if removed & (MOD_SLOW_BLINK | MOD_RAPID_BLINK) != 0 {
        seq![AttrOp::NoBlink]
    } else {
        Seq::<AttrOp>::empty()
    })
}

/// The setters for the added modifier bits, in emission order.
pub open spec fn spec_addition_ops(added: u16) -> Seq<AttrOp> {
    (if added & MOD_REVERSED != 0 {
        seq![AttrOp::Reverse]
    } else {
        Seq::<AttrOp>::empty()
    }) + (if added & MOD_BOLD != 0 {
        seq![AttrOp::Bold]
    } else {
        Seq::<AttrOp>::empty()
    }) + (if added & MOD_ITALIC != 0 {
        seq![AttrOp::Italic]
    } else {
        Seq::<AttrOp>::empty()
    }) + (if added & MOD_UNDERLINED != 0 {
        seq![AttrOp::Underlined]
    } else {
        Seq::<AttrOp>::empty()
    }) + (if added & MOD_DIM != 0 {
        seq![AttrOp::Dim]
    } else {
        Seq::<AttrOp>::empty()
    }) + (if added & MOD_CROSSED_OUT != 0 {
        seq![AttrOp::CrossedOut]
    } else {
        Seq::<AttrOp>::empty()
    }) + (if added & MOD_SLOW_BLINK != 0 {
        seq![AttrOp::SlowBlink]
    } else {
        Seq::<AttrOp>::empty()
    }) + (if added & MOD_RAPID_BLINK != 0 {
        seq![AttrOp::RapidBlink]
    } else {
        Seq::<AttrOp>::empty()
    })
}

/// The attribute sequence that changes modifier bits `from` into `to`:
/// removed bits emit their explicit "off" attributes first, then added bits
/// emit their setters.
pub open spec fn spec_modifier_diff(from: u16, to: u16) -> Seq<AttrOp> {
    spec_removal_ops(from & !to, to) + spec_addition_ops(to & !from)
}

#[verifier::rlimit(100)]
fn removal_ops(removed: u16, to: u16) -> (r: Vec<AttrOp>)
    ensures
        r@ == spec_removal_ops(removed, to),
{
    let mut r: Vec<AttrOp> = Vec::new();
    if removed & MOD_REVERSED != 0 {
        r.push(AttrOp::NoReverse);
    }
    if removed & MOD_BOLD != 0 {
        r.push(AttrOp::NormalIntensity);
        if to & MOD_DIM != 0 {
            r.push(AttrOp::Dim);
        }
    }
    if removed & MOD_ITALIC != 0 {
        r.push(AttrOp::NoItalic);
    }
    if removed & MOD_UNDERLINED != 0 {
        r.push(AttrOp::NoUnderline);
    }
    if removed & MOD_DIM != 0 {
        r.push(AttrOp::NormalIntensity);
    }
    if removed & MOD_CROSSED_OUT != 0 {
        r.push(AttrOp::NotCrossedOut);
    }
    if removed & (MOD_SLOW_BLINK | MOD_RAPID_BLINK) != 0 {
        r.push(AttrOp::NoBlink);
    }
    proof {
        assert(r@ =~= spec_removal_ops(removed, to));
    }
    r
}

#[verifier::rlimit(100)]
fn addition_ops(added: u16) -> (r: Vec<AttrOp>)
    ensures
        r@ == spec_addition_ops(added),
{
    let mut r: Vec<AttrOp> = Vec::new();
    if added & MOD_REVERSED != 0 {
        r.push(AttrOp::Reverse);
    }
    if added & MOD_BOLD != 0 {
        r.push(AttrOp::Bold);
    }
    if added & MOD_ITALIC != 0 {
        r.push(AttrOp::Italic);
    }
    if added & MOD_UNDERLINED != 0 {
        r.push(AttrOp::Underlined);
    }
    if added & MOD_DIM != 0 {
        r.push(AttrOp::Dim);
    }
    if added & MOD_CROSSED_OUT != 0 {
        r.push(AttrOp::CrossedOut);
    }
    if added & MOD_SLOW_BLINK != 0 {
        r.push(AttrOp::SlowBlink);
    }
    if added & MOD_RAPID_BLINK != 0 {
        r.push(AttrOp::RapidBlink);
    }
    proof {
        assert(r@ =~= spec_addition_ops(added));
    }
    r
}

/// Emits the attribute changes from one modifier set to another.
pub fn modifier_diff_ops(from: u16, to: u16) -> (r: Vec<AttrOp>)
    ensures
        r@ == spec_modifier_diff(from, to),
{
    let mut r = removal_ops(from & !to, to);
    let mut more = addition_ops(to & !from);
    r.append(&mut more);
    r
}

/// Law (paint determinism): the diff is a function of the two frames alone;
/// equal frame pairs yield equal command lists, so repainting unchanged
/// content emits identical output.
pub proof fn lemma_modifier_diff_deterministic(f1: u16, t1: u16, f2: u16, t2: u16)
    requires
        f1 == f2,
        t1 == t2,
    ensures
        spec_modifier_diff(f1, t1) == spec_modifier_diff(f2, t2),
{
}

} // verus!
