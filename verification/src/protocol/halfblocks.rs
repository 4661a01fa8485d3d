//! The mosaic encoder: the universal fallback.  An image becomes colored
//! half-height block glyphs, one cell per column and pair of pixel rows of
//! a bitmap scaled to two pixels per cell row.

use vstd::prelude::*;
use vstd::string::StringExecFns;

use crate::Error;
use crate::FontSize;
use crate::bitmap::{pixel_byte, scale_to, scaled_of, Bitmap, Rgba};
use crate::buffer::Buffer;
use crate::geometry::Rect;
use crate::protocol::{in_rect, spec_render_area, ImageSource};
use crate::resize::{spec_needs_resize, Resize};

verus! {

/// The color of the pixel at (x, y) in a row-major RGBA buffer.
pub open spec fn rgba_at(pixels: Seq<u8>, width: int, x: int, y: int) -> Rgba {
    Rgba {
        r: pixel_byte(pixels, width, x, y, 0),
        g: pixel_byte(pixels, width, x, y, 1),
        b: pixel_byte(pixels, width, x, y, 2),
        a: pixel_byte(pixels, width, x, y, 3),
    }
}

/// The pair of colors of cell (x, y): the upper and lower pixel of its
/// column pair in a bitmap with two pixel rows per cell row.
pub open spec fn hb_cell(pixels: Seq<u8>, width: int, x: int, y: int) -> (Rgba, Rgba) {
    (rgba_at(pixels, width, x, 2 * y), rgba_at(pixels, width, x, 2 * y + 1))
}

/// `h` samples bitmap `b`: one cell per column and pixel-row pair, row-major.
pub open spec fn spec_hb_encoded(h: Halfblocks, b: Bitmap) -> bool {
    &&& b.width == h.area.width
    &&& b.height as int == 2 * h.area.height
    &&& h.cells@.len() == h.area.width * h.area.height
    &&& forall|k: int|
        0 <= k < h.cells@.len() ==> #[trigger] h.cells@[k] == hb_cell(
            b.pixels@,
            b.width as int,
            k % (h.area.width as int),
            k / (h.area.width as int),
        )
}

/// `h` is the mosaic of `source`: it samples some bitmap scaled from the
/// source's pixels.
pub open spec fn spec_hb_from(h: Halfblocks, source: ImageSource) -> bool {
    exists|b: Bitmap|
        (#[trigger] spec_hb_encoded(h, b)) && b.pixels@ == scaled_of(
            source.image.pixels@,
            source.image.width,
            source.image.height,
            b.width,
            b.height,
        )
}

/// When sampling for a rectangle succeeds: the rectangle is empty (nothing
/// to sample), or the source is non-empty and the scaled buffer of two
/// pixel rows per cell row fits in memory — the encode's only failures.
pub open spec fn spec_hb_accepts(source: ImageSource, rect: Rect) -> bool {
    ||| rect.spec_is_empty()
    ||| (source.image.width > 0 && source.image.height > 0 && 4 * (rect.width as int) * (2 * (
    rect.height as int)) <= usize::MAX)
}

/// The rectangle a one-shot encode samples for: the policy's, or the
/// natural footprint when the policy declines.
pub open spec fn spec_target_rect(source: ImageSource, resize: Resize, area: Rect) -> Rect {
    match spec_needs_resize(resize, source, Rect::spec_zero(), area, false) {
        Option::None => source.area,
        Option::Some(desired) => desired,
    }
}

/// What a one-shot encode for a target area guarantees: the policy's
/// rectangle (or the natural footprint when the policy declines) covered by
/// sampled cells of a bitmap scaled from the source.
pub open spec fn spec_from_source_ok(
    h: Halfblocks,
    source: ImageSource,
    resize: Resize,
    area: Rect,
) -> bool {
    &&& h.cells@.len() == h.area.width * h.area.height
    &&& h.area == spec_target_rect(source, resize, area)
    &&& (!h.area.spec_is_empty() ==> spec_hb_from(h, source))
}

/// How a drawn mosaic relates the new buffer to the old: every cell of `r`
/// holds the upper-half block glyph with the colors sampled for its
/// position in the grid of width `grid_width`, and everything else is
/// unchanged.
pub open spec fn spec_hb_rendered(
    cells: Seq<(Rgba, Rgba)>,
    grid_width: int,
    b0: Buffer,
    b1: Buffer,
    r: Rect,
) -> bool {
    &&& forall|a: int, b: int|
        b0.contains(a, b) && !in_rect(r, a, b) ==> #[trigger] b1.cell(a, b) == b0.cell(a, b)
    &&& forall|a: int, b: int|
        b0.contains(a, b) && in_rect(r, a, b) ==> {
            &&& (#[trigger] b1.cell(a, b)).symbol@ == "\u{2580}"@
            &&& b1.cell(a, b).fg == Option::Some(cells[(b - r.y) * grid_width + (a - r.x)].0)
            &&& b1.cell(a, b).bg == Option::Some(cells[(b - r.y) * grid_width + (a - r.x)].1)
        }
}

/// A fixed mosaic instance: the sampled cell colors and the rectangle they
/// cover.
pub struct Halfblocks {
    pub cells: Vec<(Rgba, Rgba)>,
    pub area: Rect,
}

/// Sample one cell color pair per column and pixel-row pair.
fn encode_cells(img: &Bitmap, cols: u16, rows: u16) -> (r: Vec<(Rgba, Rgba)>)
    requires
        img.wf(),
        img.width == cols,
        img.height as int == 2 * rows,
    ensures
        r@.len() == cols * rows,
        forall|k: int|
            0 <= k < r@.len() ==> #[trigger] r@[k] == hb_cell(
                img.pixels@,
                cols as int,
                k % (cols as int),
                k / (cols as int),
            ),
{
    let mut cells: Vec<(Rgba, Rgba)> = Vec::new();
    let mut y: u16 = 0;
    proof {
        assert(cols * rows <= 65535 * 65535) by (nonlinear_arith)
            requires
                0 <= cols as int <= 65535,
                0 <= rows as int <= 65535,
        ;
    }
    while y < rows
        invariant
            img.wf(),
            img.width == cols,
            img.height as int == 2 * rows,
            y <= rows,
            cells@.len() == y * cols,
            cols * rows <= 65535 * 65535,
            forall|k: int|
                0 <= k < cells@.len() ==> #[trigger] cells@[k] == hb_cell(
                    img.pixels@,
                    cols as int,
                    k % (cols as int),
                    k / (cols as int),
                ),
        decreases rows - y,
    {
        let mut x: u16 = 0;
        proof {
            assert(y as int * cols as int + 0 <= cols as int * rows as int && (y as int + 1)
                * cols as int <= cols as int * rows as int) by (nonlinear_arith)
                requires
                    0 <= (y as int) && (y as int) < (rows as int),
                    0 <= (cols as int),
            ;
        }
        while x < cols
            invariant
                img.wf(),
                img.width == cols,
                img.height as int == 2 * rows,
                y < rows,
                x <= cols,
                cells@.len() == y * cols + x,
                cols * rows <= 65535 * 65535,
                y * cols + x <= cols * rows,
                (y + 1) * cols <= cols * rows,
                forall|k: int|
                    0 <= k < cells@.len() ==> #[trigger] cells@[k] == hb_cell(
                        img.pixels@,
                        cols as int,
                        k % (cols as int),
                        k / (cols as int),
                    ),
            decreases cols - x,
        {
            let fg = Rgba {
                r: img.pixel(x as u32, 2 * (y as u32), 0),
                g: img.pixel(x as u32, 2 * (y as u32), 1),
                b: img.pixel(x as u32, 2 * (y as u32), 2),
                a: img.pixel(x as u32, 2 * (y as u32), 3),
            };
            let bg = Rgba {
                r: img.pixel(x as u32, 2 * (y as u32) + 1, 0),
                g: img.pixel(x as u32, 2 * (y as u32) + 1, 1),
                b: img.pixel(x as u32, 2 * (y as u32) + 1, 2),
                a: img.pixel(x as u32, 2 * (y as u32) + 1, 3),
            };
            proof {
                let k0 = y as int * cols as int + x as int;
                vstd::arithmetic::div_mod::lemma_fundamental_div_mod_converse(
                    k0,
                    cols as int,
                    y as int,
                    x as int,
                );
                assert(y as int * cols as int + (x as int + 1) <= (y as int + 1) * (
                cols as int)) by (nonlinear_arith)
                    requires
                        (x as int) + 1 <= (cols as int),
                ;
            }
            cells.push((fg, bg));
            x = x + 1;
        }
        proof {
            assert(y as int * cols as int + cols as int == (y as int + 1) * (cols as int))
                by (nonlinear_arith);
        }
        y = y + 1;
    }
    proof {
        assert(rows as int * cols as int == cols as int * rows as int) by (nonlinear_arith);
    }
    cells
}

/// Scale the source to two pixel rows per cell row of `rect` and sample it.
/// Succeeds exactly when there is something to sample and the scaled buffer
/// fits in memory.
#[verifier::rlimit(30)]
fn encode_for_rect(source: &ImageSource, rect: Rect) -> (r: Result<Halfblocks, Error>)
    requires
        source.wf(),
    ensures
        r is Ok <==> spec_hb_accepts(*source, rect),
        r is Ok ==> r->Ok_0.area == rect,
        r is Ok ==> r->Ok_0.cells@.len() == r->Ok_0.area.width * r->Ok_0.area.height,
        r is Ok && !rect.spec_is_empty() ==> spec_hb_from(r->Ok_0, *source),
        r is Ok && rect.spec_is_empty() ==> r->Ok_0.cells@.len() == 0,
        r is Err ==> r->Err_0 == Error::Encode,
    {
        if rect.width == 0 || rect.height == 0 {
            return Result::Ok(Halfblocks { cells: Vec::new(), area: rect });
        }
        if source.image.width == 0 || source.image.height == 0 {
            return Result::Err(Error::Encode);
        }
        let nw: u32 = rect.width as u32;
        let nh: u32 = 2 * (rect.height as u32);
        proof {
            assert(4 * (nw as int) * (nh as int) <= 4 * 65536 * 140000) by (nonlinear_arith)
                requires
                    0 <= (nw as int) && (nw as int) <= 65536,
                    0 <= (nh as int) && (nh as int) <= 140000,
            ;
        }
        let need: u64 = 4 * (nw as u64) * (nh as u64);
        proof {
            assert(4 * (nw as int) * (nh as int) == need) by (nonlinear_arith)
                requires
                    need == 4 * (nw as int) * (nh as int),
            ;
            assert(4 * (rect.width as int) * (2 * (rect.height as int)) == need)
                by (nonlinear_arith)
                requires
                    need == 4 * (nw as int) * (nh as int),
                    nw as int == rect.width as int,
                    nh as int == 2 * (rect.height as int),
            ;
        }
        if need > usize::MAX as u64 {
            return Result::Err(Error::Encode);
        }
        let scaled = scale_to(&source.image, nw, nh);
        let cells = encode_cells(&scaled, rect.width, rect.height);
        let h = Halfblocks { cells, area: rect };
        proof {
            assert(scaled.pixels@ == scaled_of(
                source.image.pixels@,
                source.image.width,
                source.image.height,
                scaled.width,
                scaled.height,
            ));
            assert(spec_hb_encoded(h, scaled));
            assert(spec_hb_from(h, *source));
        }
        Result::Ok(h)
    }

impl Halfblocks {
    /// Encode a source once for the target area, falling back to the
    /// natural footprint when the policy declines.
    pub fn from_source(
        source: &ImageSource,
        font_size: FontSize,
        resize: Resize,
        _background_color: Rgba,
        area: Rect,
    ) -> (r: Result<Halfblocks, Error>)
        requires
            source.wf(),
            font_size.0 > 0,
            font_size.1 > 0,
        ensures
            r is Ok <==> spec_hb_accepts(*source, spec_target_rect(*source, resize, area)),
            r is Ok ==> spec_from_source_ok(r->Ok_0, *source, resize, area),
            r is Err ==> r->Err_0 == Error::Encode,
    {
        let rect = match resize.needs_resize(source, font_size, Rect::zero(), area, false) {
            Option::Some(d) => d,
            Option::None => source.area,
        };
        encode_for_rect(source, rect)
    }

    /// Write the mosaic into the buffer, refusing when it does not fit the
    /// target area: each covered cell gets the upper-half block glyph with
    /// its sampled colors; everything else is untouched.
    pub fn render(&self, area: Rect, buf: &mut Buffer) -> (nothing: ())
        requires
            old(buf).wf(),
            self.cells@.len() == self.area.width * self.area.height,
        ensures
            final(buf).wf(),
            final(buf).area == old(buf).area,
            match spec_render_area(self.area, area, false) {
                Option::None => *final(buf) == *old(buf),
                Option::Some(r) => spec_hb_rendered(
                    self.cells@,
                    self.area.width as int,
                    *old(buf),
                    *final(buf),
                    r,
                ),
            },
    {
        self.render_clipped(area, buf, false)
    }

    /// The shared draw loop: compute where the mosaic lands, optionally
    /// clipped to the target area, and paint each covered cell.
    fn render_clipped(&self, area: Rect, buf: &mut Buffer, overdraw: bool) -> (nothing: ())
        requires
            old(buf).wf(),
            self.cells@.len() == self.area.width * self.area.height,
        ensures
            final(buf).wf(),
            final(buf).area == old(buf).area,
            match spec_render_area(self.area, area, overdraw) {
                Option::None => *final(buf) == *old(buf),
                Option::Some(r) => spec_hb_rendered(
                    self.cells@,
                    self.area.width as int,
                    *old(buf),
                    *final(buf),
                    r,
                ),
            },
    {
        let render_area = match crate::protocol::render_area_of(self.area, area, overdraw) {
            Option::None => {
                return ;
            },
            Option::Some(r) => r,
        };
        let glyph = String::from_str("\u{2580}");
        let n = self.cells.len();
        let ghost b1 = *buf;
        let x0: u32 = render_area.x as u32;
        let y0: u32 = render_area.y as u32;
        let x_end: u32 = x0 + render_area.width as u32;
        let y_end: u32 = y0 + render_area.height as u32;
        let mut y: u32 = y0;
        while y < y_end
            invariant
                buf.wf(),
                buf.area == b1.area,
                glyph@ == "\u{2580}"@,
                n == self.cells@.len() == self.area.width * self.area.height,
                render_area.width <= self.area.width,
                render_area.height <= self.area.height,
                x0 == render_area.x as u32,
                y0 == render_area.y as u32,
                x_end == x0 + render_area.width,
                y_end == y0 + render_area.height,
                y0 <= y <= y_end,
                forall|a: int, b: int|
                    b1.contains(a, b) && !(in_rect(render_area, a, b) && b < y)
                        ==> #[trigger] buf.cell(a, b) == b1.cell(a, b),
                forall|a: int, b: int|
                    b1.contains(a, b) && in_rect(render_area, a, b) && b < y ==> {
                        &&& (#[trigger] buf.cell(a, b)).symbol@ == "\u{2580}"@
                        &&& buf.cell(a, b).fg == Option::Some(
                            self.cells@[(b - y0) * self.area.width + (a - x0)].0,
                        )
                        &&& buf.cell(a, b).bg == Option::Some(
                            self.cells@[(b - y0) * self.area.width + (a - x0)].1,
                        )
                    },
            decreases y_end - y,
        {
            let mut x: u32 = x0;
            while x < x_end
                invariant
                    buf.wf(),
                    buf.area == b1.area,
                    glyph@ == "\u{2580}"@,
                    n == self.cells@.len() == self.area.width * self.area.height,
                    render_area.width <= self.area.width,
                    render_area.height <= self.area.height,
                    x0 == render_area.x as u32,
                    y0 == render_area.y as u32,
                    x_end == x0 + render_area.width,
                    y_end == y0 + render_area.height,
                    y0 <= y < y_end,
                    x0 <= x <= x_end,
                    forall|a: int, b: int|
                        b1.contains(a, b) && !(in_rect(render_area, a, b) && (b < y || (b == y
                            && a < x))) ==> #[trigger] buf.cell(a, b) == b1.cell(a, b),
                    forall|a: int, b: int|
                        b1.contains(a, b) && in_rect(render_area, a, b) && (b < y || (b == y && a
                            < x)) ==> {
                            &&& (#[trigger] buf.cell(a, b)).symbol@ == "\u{2580}"@
                            &&& buf.cell(a, b).fg == Option::Some(
                                self.cells@[(b - y0) * self.area.width + (a - x0)].0,
                            )
                            &&& buf.cell(a, b).bg == Option::Some(
                                self.cells@[(b - y0) * self.area.width + (a - x0)].1,
                            )
                        },
                decreases x_end - x,
            {
                if x <= 65535 && y <= 65535 {
                    proof {
                        assert(0 <= (y as int - y0 as int) * (self.area.width as int) + (x as int
                            - x0 as int) && (y as int - y0 as int) * (self.area.width as int) + (
                        x as int - x0 as int) < self.area.width as int * self.area.height as int)
                            by (nonlinear_arith)
                            requires
                                0 <= (x as int - x0 as int) && (x as int - x0 as int) < (
                                self.area.width as int),
                                0 <= (y as int - y0 as int) && (y as int - y0 as int) < (
                                self.area.height as int),
                        ;
                        assert(((y as int - y0 as int)) * (self.area.width as int) <= ((y as int
                            - y0 as int)) * (self.area.width as int) + ((x as int - x0 as int)));
                    }
                    let idx: usize = ((y - y0) as usize) * (self.area.width as usize) + ((x
                        - x0) as usize);
                    let fg = self.cells[idx].0;
                    let bg = self.cells[idx].1;
                    buf.set_cell_at(x as u16, y as u16, &glyph, fg, bg);
                }
                x = x + 1;
            }
            y = y + 1;
        }
    }
}

/// The stateful mosaic protocol: the source, the font it was built with,
/// the last encoded instance, and the fingerprint that was encoded.
pub struct StatefulHalfblocks {
    pub source: ImageSource,
    pub font_size: FontSize,
    pub current: Halfblocks,
    pub hash: u64,
}

impl StatefulHalfblocks {
    /// The source is well formed, the font has no zero dimension, and the
    /// cached cells cover the cached rectangle.
    pub open spec fn wf(self) -> bool {
        &&& self.source.wf()
        &&& self.font_size.0 > 0
        &&& self.font_size.1 > 0
        &&& self.current.cells@.len() == self.current.area.width * self.current.area.height
    }

    /// Wrap a source for deferred encoding.
    pub fn new(source: ImageSource, font_size: FontSize) -> (s: StatefulHalfblocks)
        requires
            source.wf(),
            font_size.0 > 0,
            font_size.1 > 0,
        ensures
            s.wf(),
            s.source == source,
            s.font_size == font_size,
            s.current.area == Rect::spec_zero(),
            s.current.cells@.len() == 0,
            s.hash == 0,
    {
        StatefulHalfblocks {
            source,
            font_size,
            current: Halfblocks { cells: Vec::new(), area: Rect::zero() },
            hash: 0,
        }
    }

    /// The force flag: the source fingerprint differs from the one encoded.
    pub open spec fn spec_stale(self) -> bool {
        self.source.hash != self.hash
    }

    /// The rectangle a re-encode would produce for `area`, or nothing when
    /// the cached encoding already satisfies it.
    pub fn needs_resize(&self, resize: &Resize, area: Rect) -> (r: Option<Rect>)
        ensures
            r == spec_needs_resize(*resize, self.source, self.current.area, area, self.spec_stale()),
    {
        resize.needs_resize(&self.source, self.font_size, self.current.area, area, self.source.hash
            != self.hash)
    }

    /// Re-sample for the area, recording the fingerprint that was encoded; a
    /// no-op for an empty area, and where the scaled buffer would not fit in
    /// memory the previous cells stay in place.
    pub fn resize_encode(&mut self, resize: &Resize, _background_color: Rgba, area: Rect) -> (nothing: ())
        requires
            old(self).wf(),
        ensures
            final(self).wf(),
            final(self).source == old(self).source,
            final(self).font_size == old(self).font_size,
            area.spec_is_empty() ==> *final(self) == *old(self),
            !area.spec_is_empty() ==> match spec_needs_resize(
                *resize,
                old(self).source,
                old(self).current.area,
                area,
                old(self).spec_stale(),
            ) {
                Option::None => *final(self) == *old(self),
                Option::Some(desired) => {
                    if spec_hb_accepts(old(self).source, desired) {
                        &&& final(self).current.area == desired
                        &&& final(self).hash == old(self).source.hash
                        &&& (!desired.spec_is_empty() ==> spec_hb_from(
                            final(self).current,
                            old(self).source,
                        ))
                    } else {
                        *final(self) == *old(self)
                    }
                },
            },
    {
        if area.width == 0 || area.height == 0 {
            return ;
        }
        let force = self.source.hash != self.hash;
        match resize.needs_resize(&self.source, self.font_size, self.current.area, area, force) {
            Option::Some(rect) => {
                match encode_for_rect(&self.source, rect) {
                    Result::Ok(h) => {
                        proof {
                            assert(h.cells@.len() == h.area.width * h.area.height || (
                            h.area.spec_is_empty() && h.cells@.len() == 0));
                            if h.area.spec_is_empty() {
                                assert(h.area.width * h.area.height == 0) by (nonlinear_arith)
                                    requires
                                        h.area.width == 0 || h.area.height == 0,
                                ;
                            }
                        }
                        self.current = h;
                        self.hash = self.source.hash;
                    },
                    Result::Err(_) => {
                        // A failure must never panic the render loop: keep
                        // the previous cells and show stale content.
                    },
                }
            },
            Option::None => {},
        }
    }

    /// Write the cached mosaic into the buffer, clipped to the target area
    /// rather than refusing: a stateful user is expected to call
    /// `resize_encode` first, and a stale cache still renders something.
    pub fn render(&mut self, area: Rect, buf: &mut Buffer) -> (nothing: ())
        requires
            old(buf).wf(),
            old(self).wf(),
        ensures
            *final(self) == *old(self),
            final(buf).wf(),
            final(buf).area == old(buf).area,
            match spec_render_area(old(self).current.area, area, true) {
                Option::None => *final(buf) == *old(buf),
                Option::Some(r) => spec_hb_rendered(
                    old(self).current.cells@,
                    old(self).current.area.width as int,
                    *old(buf),
                    *final(buf),
                    r,
                ),
            },
    {
        let h = &self.current;
        h.render_clipped(area, buf, true)
    }
}

} // verus!
