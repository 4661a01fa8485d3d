//! The render target: a grid of styled cells addressable by (x, y).

use vstd::prelude::*;

use crate::bitmap::Rgba;
use crate::geometry::Rect;

verus! {

/// One cell of the render target: its text, colors, and whether its own
/// redraw is suppressed because a graphics payload covers it.
#[derive(Debug)]
pub struct Cell {
    pub symbol: String,
    pub fg: Option<Rgba>,
    pub bg: Option<Rgba>,
    pub skip: bool,
}

impl Cell {
    /// An untouched cell: empty text, no colors, not skipped.
    pub open spec fn is_untouched(self) -> bool {
        &&& self.symbol@ == Seq::<char>::empty()
        &&& self.fg is None
        &&& self.bg is None
        &&& !self.skip
    }
}

/// A rectangular grid of cells covering `area`, row-major.
pub struct Buffer {
    pub area: Rect,
    pub cells: Vec<Cell>,
}

impl Buffer {
    /// The grid holds one cell per coordinate of `area`, and every coordinate
    /// of `area` fits in cell coordinates.
    pub open spec fn wf(self) -> bool {
        &&& self.cells@.len() == self.area.width * self.area.height
        &&& self.area.x + self.area.width <= 65536
        &&& self.area.y + self.area.height <= 65536
    }

    /// The coordinate lies within the buffer's area.
    pub open spec fn contains(self, x: int, y: int) -> bool {
        &&& self.area.x <= x < self.area.x + self.area.width
        &&& self.area.y <= y < self.area.y + self.area.height
    }

    /// Index of the cell at (x, y) in the row-major grid.
    pub open spec fn spec_index(self, x: int, y: int) -> int {
        (y - self.area.y) * self.area.width + (x - self.area.x)
    }

    /// The cell at (x, y); meaningful when `contains(x, y)`.
    pub open spec fn cell(self, x: int, y: int) -> Cell {
        self.cells@[self.spec_index(x, y)]
    }

    /// Distinct coordinates within the area use distinct grid slots.
    proof fn lemma_index_injective(self, x1: int, y1: int, x2: int, y2: int)
        requires
            self.contains(x1, y1),
            self.contains(x2, y2),
            !(x1 == x2 && y1 == y2),
        ensures
            self.spec_index(x1, y1) != self.spec_index(x2, y2),
    {
        let w = self.area.width as int;
        assert((y1 - self.area.y) * w + (x1 - self.area.x) != (y2 - self.area.y) * w + (x2
            - self.area.x)) by (nonlinear_arith)
            requires
                0 <= x1 - self.area.x < w,
                0 <= x2 - self.area.x < w,
                0 <= y1 - self.area.y,
                0 <= y2 - self.area.y,
                !(x1 == x2 && y1 == y2),
        ;
    }

    /// The grid slot of a contained coordinate is in bounds.
    proof fn lemma_index_in_bounds(self, x: int, y: int)
        requires
            self.wf(),
            self.contains(x, y),
        ensures
            0 <= self.spec_index(x, y) < self.cells@.len(),
            self.cells@.len() <= 65535 * 65535,
    {
        let w = self.area.width as int;
        let h = self.area.height as int;
        assert(0 <= (y - self.area.y) * w + (x - self.area.x) < w * h && w * h <= 65535 * 65535)
            by (nonlinear_arith)
            requires
                0 <= x - self.area.x < w,
                0 <= y - self.area.y < h,
                w <= 65535,
                h <= 65535,
        ;
    }

    /// An empty buffer covering `area`: every cell untouched.
    pub fn empty(area: Rect) -> (b: Buffer)
        requires
            area.x + area.width <= 65536,
            area.y + area.height <= 65536,
        ensures
            b.wf(),
            b.area == area,
            forall|x: int, y: int| b.contains(x, y) ==> (#[trigger] b.cell(x, y)).is_untouched(),
    {
        proof {
            assert(area.width * area.height <= 65535 * 65535) by (nonlinear_arith)
                requires
                    area.width <= 65535,
                    area.height <= 65535,
            ;
        }
        let n: usize = (area.width as usize) * (area.height as usize);
        let mut cells: Vec<Cell> = Vec::new();
        let mut i: usize = 0;
        while i < n
            invariant
                i == cells@.len() <= n,
                forall|k: int| 0 <= k < i ==> (#[trigger] cells@[k]).is_untouched(),
            decreases n - i,
        {
            let c = Cell { symbol: String::new(), fg: Option::None, bg: Option::None, skip: false };
            cells.push(c);
            i = i + 1;
        }
        let b = Buffer { area, cells };
        proof {
            assert forall|x: int, y: int| b.contains(x, y) implies (#[trigger] b.cell(
                x,
                y,
            )).is_untouched() by {
                b.lemma_index_in_bounds(x, y);
            }
        }
        b
    }

    /// Set the text of the cell at (x, y); a coordinate outside the area is
    /// ignored.  Colors and the skip flag of the cell are kept.
    pub fn set_symbol_at(&mut self, x: u16, y: u16, symbol: &String) -> (nothing: ())
        requires
            old(self).wf(),
        ensures
            final(self).wf(),
            final(self).area == old(self).area,
            old(self).contains(x as int, y as int) ==> {
                &&& final(self).cell(x as int, y as int).symbol@ == symbol@
                &&& final(self).cell(x as int, y as int).fg == old(self).cell(x as int, y as int).fg
                &&& final(self).cell(x as int, y as int).bg == old(self).cell(x as int, y as int).bg
                &&& final(self).cell(x as int, y as int).skip == old(self).cell(
                    x as int,
                    y as int,
                ).skip
            },
            forall|a: int, b: int|
                old(self).contains(a, b) && !(a == x as int && b == y as int)
                    ==> #[trigger] final(self).cell(a, b) == old(self).cell(a, b),
            !old(self).contains(x as int, y as int) ==> *final(self) == *old(self),
    {
        if x >= self.area.x && (x as u32) < self.area.x as u32 + self.area.width as u32 && y
            >= self.area.y && (y as u32) < self.area.y as u32 + self.area.height as u32 {
            proof {
                self.lemma_index_in_bounds(x as int, y as int);
                assert(((y - self.area.y) as int) * (self.area.width as int) <= self.spec_index(
                    x as int,
                    y as int,
                ));
            }
            let idx: usize = ((y - self.area.y) as usize) * (self.area.width as usize) + ((x
                - self.area.x) as usize);
            let fg = self.cells[idx].fg;
            let bg = self.cells[idx].bg;
            let skip = self.cells[idx].skip;
            self.cells[idx] = Cell { symbol: symbol.clone(), fg, bg, skip };
            proof {
                assert forall|a: int, b: int|
                    old(self).contains(a, b) && !(a == x as int && b == y as int)
                        implies #[trigger] final(self).cell(a, b) == old(self).cell(a, b) by {
                    old(self).lemma_index_injective(a, b, x as int, y as int);
                    old(self).lemma_index_in_bounds(a, b);
                }
            }
        }
    }

    /// Set the text and both colors of the cell at (x, y); a coordinate
    /// outside the area is ignored.  The skip flag of the cell is kept.
    pub fn set_cell_at(&mut self, x: u16, y: u16, symbol: &String, fg: Rgba, bg: Rgba) -> (nothing: ())
        requires
            old(self).wf(),
        ensures
            final(self).wf(),
            final(self).area == old(self).area,
            old(self).contains(x as int, y as int) ==> {
                &&& final(self).cell(x as int, y as int).symbol@ == symbol@
                &&& final(self).cell(x as int, y as int).fg == Option::Some(fg)
                &&& final(self).cell(x as int, y as int).bg == Option::Some(bg)
                &&& final(self).cell(x as int, y as int).skip == old(self).cell(
                    x as int,
                    y as int,
                ).skip
            },
            forall|a: int, b: int|
                old(self).contains(a, b) && !(a == x as int && b == y as int)
                    ==> #[trigger] final(self).cell(a, b) == old(self).cell(a, b),
            !old(self).contains(x as int, y as int) ==> *final(self) == *old(self),
    {
        if x >= self.area.x && (x as u32) < self.area.x as u32 + self.area.width as u32 && y
            >= self.area.y && (y as u32) < self.area.y as u32 + self.area.height as u32 {
            proof {
                self.lemma_index_in_bounds(x as int, y as int);
                assert(((y - self.area.y) as int) * (self.area.width as int) <= self.spec_index(
                    x as int,
                    y as int,
                ));
            }
            let idx: usize = ((y - self.area.y) as usize) * (self.area.width as usize) + ((x
                - self.area.x) as usize);
            let skip = self.cells[idx].skip;
            self.cells[idx] = Cell {
                symbol: symbol.clone(),
                fg: Option::Some(fg),
                bg: Option::Some(bg),
                skip,
            };
            proof {
                assert forall|a: int, b: int|
                    old(self).contains(a, b) && !(a == x as int && b == y as int)
                        implies #[trigger] final(self).cell(a, b) == old(self).cell(a, b) by {
                    old(self).lemma_index_injective(a, b, x as int, y as int);
                    old(self).lemma_index_in_bounds(a, b);
                }
            }
        }
    }

    /// Set the skip flag of the cell at (x, y); a coordinate outside the area
    /// is ignored.  Text and colors of the cell are kept.
    pub fn set_skip_at(&mut self, x: u16, y: u16, skip: bool) -> (nothing: ())
        requires
            old(self).wf(),
        ensures
            final(self).wf(),
            final(self).area == old(self).area,
            old(self).contains(x as int, y as int) ==> {
                &&& final(self).cell(x as int, y as int).symbol == old(self).cell(
                    x as int,
                    y as int,
                ).symbol
                &&& final(self).cell(x as int, y as int).fg == old(self).cell(x as int, y as int).fg
                &&& final(self).cell(x as int, y as int).bg == old(self).cell(x as int, y as int).bg
                &&& final(self).cell(x as int, y as int).skip == skip
            },
            forall|a: int, b: int|
                old(self).contains(a, b) && !(a == x as int && b == y as int)
                    ==> #[trigger] final(self).cell(a, b) == old(self).cell(a, b),
            !old(self).contains(x as int, y as int) ==> *final(self) == *old(self),
    {
        if x >= self.area.x && (x as u32) < self.area.x as u32 + self.area.width as u32 && y
            >= self.area.y && (y as u32) < self.area.y as u32 + self.area.height as u32 {
            proof {
                self.lemma_index_in_bounds(x as int, y as int);
                assert(((y - self.area.y) as int) * (self.area.width as int) <= self.spec_index(
                    x as int,
                    y as int,
                ));
            }
            let idx: usize = ((y - self.area.y) as usize) * (self.area.width as usize) + ((x
                - self.area.x) as usize);
            self.cells[idx].skip = skip;
            proof {
                assert forall|a: int, b: int|
                    old(self).contains(a, b) && !(a == x as int && b == y as int)
                        implies #[trigger] final(self).cell(a, b) == old(self).cell(a, b) by {
                    old(self).lemma_index_injective(a, b, x as int, y as int);
                    old(self).lemma_index_in_bounds(a, b);
                }
            }
        }
    }

    /// Read the cell at (x, y), if the coordinate lies within the area.
    pub fn cell_at(&self, x: u16, y: u16) -> (r: Option<&Cell>)
        requires
            self.wf(),
        ensures
            match r {
                Option::Some(c) => self.contains(x as int, y as int) && *c == self.cell(
                    x as int,
                    y as int,
                ),
                Option::None => !self.contains(x as int, y as int),
            },
    {
        if x >= self.area.x && (x as u32) < self.area.x as u32 + self.area.width as u32 && y
            >= self.area.y && (y as u32) < self.area.y as u32 + self.area.height as u32 {
            proof {
                self.lemma_index_in_bounds(x as int, y as int);
                assert(((y - self.area.y) as int) * (self.area.width as int) <= self.spec_index(
                    x as int,
                    y as int,
                ));
            }
            let idx: usize = ((y - self.area.y) as usize) * (self.area.width as usize) + ((x
                - self.area.x) as usize);
            Option::Some(&self.cells[idx])
        } else {
            Option::None
        }
    }
}

} // verus!
