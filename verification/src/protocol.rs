//! Protocol backends: the image source they share, the shared render rules,
//! and the closed capability surface over the four encoders.

use vstd::prelude::*;

use crate::FontSize;
use crate::bitmap::{
    cells_for, cells_for_px, composite_over, composited_of, fingerprint, fingerprint_bytes,
    lemma_footprint_minimal, Bitmap, Rgba,
};
use crate::buffer::Buffer;
use crate::geometry::Rect;

pub mod halfblocks;
pub mod iterm2;
pub mod kitty;
pub mod sixel;

verus! {

/// The normalized source of one logical image: its bitmap (background
/// pre-composited when opaque), its cell-grid footprint, a content
/// fingerprint, and the background color used for compositing.
pub struct ImageSource {
    /// The normalized bitmap.
    pub image: Bitmap,
    /// The cell area the bitmap covers, at the origin.
    pub area: Rect,
    /// Fingerprint of the raw pixel bytes the source was built from.
    pub hash: u64,
    /// The color composited beneath partially transparent content.
    pub background_color: Rgba,
}

impl ImageSource {
    /// The bitmap is well formed, the footprint sits at the origin, and the
    /// footprint is empty exactly when the bitmap is.
    pub open spec fn wf(self) -> bool {
        &&& self.image.wf()
        &&& self.area.x == 0 && self.area.y == 0
        &&& (self.area.width == 0 <==> self.image.width == 0)
        &&& (self.area.height == 0 <==> self.image.height == 0)
    }

    /// Build an image source: compute the cell footprint by ceiling division,
    /// fingerprint the raw bytes, and composite the background beneath the
    /// image unless it is fully transparent.
    ///
    /// The fingerprint is taken over the bytes as given, before compositing:
    /// bit-identical pixel content gives equal fingerprints whatever
    /// background color is passed.
    pub fn new(image: Bitmap, font_size: FontSize, background_color: Rgba) -> (s: ImageSource)
        requires
            image.wf(),
            font_size.0 > 0,
            font_size.1 > 0,
            cells_for(image.width as int, font_size.0 as int) <= 65535,
            cells_for(image.height as int, font_size.1 as int) <= 65535,
        ensures
            s.wf(),
            s.area == (Rect {
                x: 0,
                y: 0,
                width: cells_for(image.width as int, font_size.0 as int) as u16,
                height: cells_for(image.height as int, font_size.1 as int) as u16,
            }),
            s.hash == fingerprint(image.pixels@),
            s.background_color == background_color,
            background_color.a == 0 ==> s.image == image,
            background_color.a != 0 ==> {
                &&& s.image.width == image.width
                &&& s.image.height == image.height
                &&& s.image.pixels@ == composited_of(
                    image.pixels@,
                    image.width,
                    image.height,
                    background_color.r,
                    background_color.g,
                    background_color.b,
                    background_color.a,
                )
            },
    {
        let area = round_pixel_size_to_cells(image.width, image.height, font_size);
        let hash = fingerprint_bytes(&image.pixels);
        let image = if background_color.a != 0 {
            composite_over(&image, background_color)
        } else {
            image
        };
        proof {
            if image.width > 0 {
                lemma_footprint_minimal(image.width as int, font_size.0 as int);
            } else {
                vstd::arithmetic::div_mod::lemma_basic_div(
                    font_size.0 as int - 1,
                    font_size.0 as int,
                );
            }
            if image.height > 0 {
                lemma_footprint_minimal(image.height as int, font_size.1 as int);
            } else {
                vstd::arithmetic::div_mod::lemma_basic_div(
                    font_size.1 as int - 1,
                    font_size.1 as int,
                );
            }
        }
        ImageSource { image, area, hash, background_color }
    }
}

/// `s` is the image source that normalizing `image` with this font and
/// background produces: footprint by ceiling division, fingerprint over the
/// raw bytes, and the background composited beneath unless fully
/// transparent.
pub open spec fn is_source_of(s: ImageSource, image: Bitmap, font_size: FontSize, bg: Rgba) -> bool {
    &&& s.wf()
    &&& s.area == (Rect {
        x: 0,
        y: 0,
        width: cells_for(image.width as int, font_size.0 as int) as u16,
        height: cells_for(image.height as int, font_size.1 as int) as u16,
    })
    &&& s.hash == fingerprint(image.pixels@)
    &&& s.background_color == bg
    &&& (bg.a == 0 ==> s.image == image)
    &&& (bg.a != 0 ==> {
        &&& s.image.width == image.width
        &&& s.image.height == image.height
        &&& s.image.pixels@ == composited_of(
            image.pixels@,
            image.width,
            image.height,
            bg.r,
            bg.g,
            bg.b,
            bg.a,
        )
    })
}


/// The cell footprint of a non-empty image covers its pixel size in both
/// axes and is the least footprint that does: one cell fewer in either axis
/// would no longer cover it.
pub proof fn lemma_footprint_covers(s: ImageSource, image: Bitmap, font_size: FontSize, bg: Rgba)
    requires
        is_source_of(s, image, font_size, bg),
        font_size.0 > 0,
        font_size.1 > 0,
        image.width > 0,
        image.height > 0,
        cells_for(image.width as int, font_size.0 as int) <= 65535,
        cells_for(image.height as int, font_size.1 as int) <= 65535,
    ensures
        s.area.width * font_size.0 >= image.width,
        (s.area.width - 1) * font_size.0 < image.width,
        s.area.height * font_size.1 >= image.height,
        (s.area.height - 1) * font_size.1 < image.height,
{
    lemma_footprint_minimal(image.width as int, font_size.0 as int);
    lemma_footprint_minimal(image.height as int, font_size.1 as int);
}

/// Round a pixel size up to the cell grid covering it.
fn round_pixel_size_to_cells(img_width: u32, img_height: u32, font_size: FontSize) -> (r: Rect)
    requires
        font_size.0 > 0,
        font_size.1 > 0,
        cells_for(img_width as int, font_size.0 as int) <= 65535,
        cells_for(img_height as int, font_size.1 as int) <= 65535,
    ensures
        r == (Rect {
            x: 0,
            y: 0,
            width: cells_for(img_width as int, font_size.0 as int) as u16,
            height: cells_for(img_height as int, font_size.1 as int) as u16,
        }),
{
    let width = cells_for_px(img_width, font_size.0) as u16;
    let height = cells_for_px(img_height, font_size.1) as u16;
    Rect { x: 0, y: 0, width, height }
}

/// Where a payload of rectangle `rect` lands in `area`: at the area's corner,
/// clipped to the lesser extent when overdraw is allowed; nothing when
/// overdraw is refused and the payload does not fit.
pub open spec fn spec_render_area(rect: Rect, area: Rect, overdraw: bool) -> Option<Rect> {
    let clipped = Rect {
        x: area.x,
        y: area.y,
        width: if rect.width <= area.width {
            rect.width
        } else {
            area.width
        },
        height: if rect.height <= area.height {
            rect.height
        } else {
            area.height
        },
    };
    if overdraw {
        Option::Some(clipped)
    } else if rect.width > area.width || rect.height > area.height {
        Option::None
    } else {
        Option::Some(Rect { x: area.x, y: area.y, width: rect.width, height: rect.height })
    }
}

/// The coordinate lies within the rectangle.
pub open spec fn in_rect(r: Rect, x: int, y: int) -> bool {
    &&& r.x <= x < r.x + r.width
    &&& r.y <= y < r.y + r.height
}

/// Write an encoded payload into the buffer: the payload text goes into the
/// cell at the render area's corner, every other cell of the render area is
/// marked skip, and nothing else changes.  When overdraw is refused and the
/// payload rectangle does not fit the target area, the buffer is untouched.
pub fn render_payload(rect: Rect, data: &String, area: Rect, buf: &mut Buffer, overdraw: bool) -> (nothing: ())
    requires
        old(buf).wf(),
    ensures
        final(buf).wf(),
        final(buf).area == old(buf).area,
        match spec_render_area(rect, area, overdraw) {
            Option::None => *final(buf) == *old(buf),
            Option::Some(r) => {
                &&& forall|a: int, b: int|
                    old(buf).contains(a, b) && !in_rect(r, a, b) ==> #[trigger] final(buf).cell(
                        a,
                        b,
                    ) == old(buf).cell(a, b)
                &&& (old(buf).contains(r.x as int, r.y as int) && !r.spec_is_empty() ==> {
                    &&& final(buf).cell(r.x as int, r.y as int).symbol@ == data@
                    &&& final(buf).cell(r.x as int, r.y as int).skip == old(buf).cell(
                        r.x as int,
                        r.y as int,
                    ).skip
                })
                &&& forall|a: int, b: int|
                    old(buf).contains(a, b) && in_rect(r, a, b) && !(a == r.x as int && b
                        == r.y as int) ==> {
                        &&& (#[trigger] final(buf).cell(a, b)).symbol == old(buf).cell(a, b).symbol
                        &&& final(buf).cell(a, b).skip
                    }
            },
        },
    {
        let render_area = match render_area_of(rect, area, overdraw) {
            Option::None => {
                return ;
            },
            Option::Some(r) => r,
        };
        if render_area.width == 0 || render_area.height == 0 {
            proof {
                assert(forall|a: int, b: int| !in_rect(render_area, a, b));
            }
            return ;
        }
        buf.set_symbol_at(render_area.x, render_area.y, data);
        let ghost b1 = *buf;
        let x0: u32 = render_area.x as u32;
        let y0: u32 = render_area.y as u32;
        let x_end: u32 = x0 + render_area.width as u32;
        let y_end: u32 = y0 + render_area.height as u32;
        let mut y: u32 = y0;
        while y < y_end
            invariant
                buf.wf(),
                buf.area == b1.area,
                x0 == render_area.x as u32,
                y0 == render_area.y as u32,
                x_end == x0 + render_area.width,
                y_end == y0 + render_area.height,
                y0 <= y <= y_end,
                b1.contains(x0 as int, y0 as int) ==> buf.cell(x0 as int, y0 as int) == b1.cell(
                    x0 as int,
                    y0 as int,
                ),
                forall|a: int, b: int|
                    b1.contains(a, b) && !(in_rect(render_area, a, b) && b < y)
                        ==> #[trigger] buf.cell(a, b) == b1.cell(a, b),
                forall|a: int, b: int|
                    b1.contains(a, b) && in_rect(render_area, a, b) && b < y && !(a == x0 as int
                        && b == y0 as int) ==> {
                        &&& (#[trigger] buf.cell(a, b)).symbol == b1.cell(a, b).symbol
                        &&& buf.cell(a, b).skip
                    },
            decreases y_end - y,
        {
            let mut x: u32 = x0;
            while x < x_end
                invariant
                    buf.wf(),
                    buf.area == b1.area,
                    x0 == render_area.x as u32,
                    y0 == render_area.y as u32,
                    x_end == x0 + render_area.width,
                    y_end == y0 + render_area.height,
                    y0 <= y < y_end,
                    x0 <= x <= x_end,
                    b1.contains(x0 as int, y0 as int) ==> buf.cell(x0 as int, y0 as int)
                        == b1.cell(x0 as int, y0 as int),
                    forall|a: int, b: int|
                        b1.contains(a, b) && !(in_rect(render_area, a, b) && (b < y || (b == y
                            && a < x))) ==> #[trigger] buf.cell(a, b) == b1.cell(a, b),
                    forall|a: int, b: int|
                        b1.contains(a, b) && in_rect(render_area, a, b) && (b < y || (b == y && a
                            < x)) && !(a == x0 as int && b == y0 as int) ==> {
                            &&& (#[trigger] buf.cell(a, b)).symbol == b1.cell(a, b).symbol
                            &&& buf.cell(a, b).skip
                        },
                decreases x_end - x,
            {
                if !(x == x0 && y == y0) && x <= 65535 && y <= 65535 {
                    buf.set_skip_at(x as u16, y as u16, true);
                }
                x = x + 1;
            }
            y = y + 1;
        }
    }

/// Compute where the payload lands, as `spec_render_area` says.
pub(crate) fn render_area_of(rect: Rect, area: Rect, overdraw: bool) -> (r: Option<Rect>)
    ensures
        r == spec_render_area(rect, area, overdraw),
{
    if overdraw {
        return Option::Some(
            Rect {
                x: area.x,
                y: area.y,
                width: if rect.width <= area.width {
                    rect.width
                } else {
                    area.width
                },
                height: if rect.height <= area.height {
                    rect.height
                } else {
                    area.height
                },
            },
        );
    }
    if rect.width > area.width || rect.height > area.height {
        return Option::None;
    }
    Option::Some(Rect { x: area.x, y: area.y, width: rect.width, height: rect.height })
}

/// A fixed-size protocol instance: one per protocol kind, encoded once and
/// never re-encoded.
pub enum Protocol {
    Halfblocks(crate::protocol::halfblocks::Halfblocks),
    Sixel(crate::protocol::sixel::Sixel),
    Kitty(crate::protocol::kitty::Kitty),
    ITerm2(crate::protocol::iterm2::FixedIterm2),
}

impl Protocol {
    /// The cached cell grid of a mosaic instance covers its rectangle; the
    /// other kinds carry no grid.
    pub open spec fn wf(self) -> bool {
        match self {
            Protocol::Halfblocks(h) => h.cells@.len() == h.area.width * h.area.height,
            _ => true,
        }
    }

    /// The rectangle the encoded content occupies.
    pub open spec fn spec_rect(self) -> Rect {
        match self {
            Protocol::Halfblocks(h) => h.area,
            Protocol::Sixel(s) => s.area,
            Protocol::Kitty(k) => k.area,
            Protocol::ITerm2(f) => f.area,
        }
    }

    /// Write the encoded content into the buffer, dispatching by kind; every
    /// kind refuses to draw when its rectangle does not fit the target area,
    /// leaving the buffer untouched.
    pub fn render(&self, area: Rect, buf: &mut Buffer) -> (nothing: ())
        requires
            old(buf).wf(),
            self.wf(),
        ensures
            final(buf).wf(),
            final(buf).area == old(buf).area,
            match spec_render_area(self.spec_rect(), area, false) {
                Option::None => *final(buf) == *old(buf),
                Option::Some(r) => match self {
                    Protocol::Sixel(s) => crate::protocol::iterm2::spec_rendered(
                        *old(buf),
                        *final(buf),
                        r,
                        s.data@,
                    ),
                    Protocol::Kitty(k) => crate::protocol::iterm2::spec_rendered(
                        *old(buf),
                        *final(buf),
                        r,
                        k.data@,
                    ),
                    Protocol::ITerm2(f) => crate::protocol::iterm2::spec_rendered(
                        *old(buf),
                        *final(buf),
                        r,
                        f.data@,
                    ),
                    Protocol::Halfblocks(h) => crate::protocol::halfblocks::spec_hb_rendered(
                        h.cells@,
                        h.area.width as int,
                        *old(buf),
                        *final(buf),
                        r,
                    ),
                },
            },
    {
        match self {
            Protocol::Halfblocks(h) => h.render(area, buf),
            Protocol::Sixel(s) => s.render(area, buf),
            Protocol::Kitty(k) => k.render(area, buf),
            Protocol::ITerm2(f) => f.render(area, buf),
        }
    }
}

/// A stateful, resizable protocol instance: one per protocol kind, driven
/// by the render loop through `needs_resize`, `resize_encode` and `render`.
pub enum StatefulProtocol {
    Halfblocks(crate::protocol::halfblocks::StatefulHalfblocks),
    Sixel(crate::protocol::sixel::StatefulSixel),
    Kitty(crate::protocol::kitty::StatefulKitty),
    ITerm2(crate::protocol::iterm2::Iterm2State),
}

impl StatefulProtocol {
    /// Each kind's own well-formedness.
    pub open spec fn wf(self) -> bool {
        match self {
            StatefulProtocol::Halfblocks(p) => p.wf(),
            StatefulProtocol::Sixel(p) => p.wf(),
            StatefulProtocol::Kitty(p) => p.wf(),
            StatefulProtocol::ITerm2(p) => p.wf(),
        }
    }

    /// The image source being displayed.
    pub open spec fn spec_source(self) -> ImageSource {
        match self {
            StatefulProtocol::Halfblocks(p) => p.source,
            StatefulProtocol::Sixel(p) => p.source,
            StatefulProtocol::Kitty(p) => p.source,
            StatefulProtocol::ITerm2(p) => p.source,
        }
    }

    /// The rectangle of the last encoded content.
    pub open spec fn spec_rect(self) -> Rect {
        match self {
            StatefulProtocol::Halfblocks(p) => p.current.area,
            StatefulProtocol::Sixel(p) => p.current.area,
            StatefulProtocol::Kitty(p) => p.current.area,
            StatefulProtocol::ITerm2(p) => p.current.area,
        }
    }

    /// The fingerprint that was last encoded.
    pub open spec fn spec_hash(self) -> u64 {
        match self {
            StatefulProtocol::Halfblocks(p) => p.hash,
            StatefulProtocol::Sixel(p) => p.hash,
            StatefulProtocol::Kitty(p) => p.hash,
            StatefulProtocol::ITerm2(p) => p.hash,
        }
    }

    /// A re-encode is owed because the source fingerprint changed.
    pub open spec fn spec_stale(self) -> bool {
        self.spec_source().hash != self.spec_hash()
    }

    /// The color the encoder composites against.
    pub fn background_color(&self) -> (r: Rgba)
        ensures
            r == self.spec_source().background_color,
    {
        match self {
            StatefulProtocol::Halfblocks(p) => p.source.background_color,
            StatefulProtocol::Sixel(p) => p.source.background_color,
            StatefulProtocol::Kitty(p) => p.source.background_color,
            StatefulProtocol::ITerm2(p) => p.source.background_color,
        }
    }

    /// The rectangle that applying the resize policy to `area` would
    /// produce, or nothing when the cached encoding already satisfies it:
    /// same target rectangle and unchanged source fingerprint.
    pub fn needs_resize(&mut self, resize: &crate::resize::Resize, area: Rect) -> (r: Option<
        Rect,
    >)
        ensures
            *final(self) == *old(self),
            r == crate::resize::spec_needs_resize(
                *resize,
                old(self).spec_source(),
                old(self).spec_rect(),
                area,
                old(self).spec_stale(),
            ),
    {
        match self {
            StatefulProtocol::Halfblocks(p) => p.needs_resize(resize, area),
            StatefulProtocol::Sixel(p) => p.needs_resize(resize, area),
            StatefulProtocol::Kitty(p) => p.needs_resize(resize, area),
            StatefulProtocol::ITerm2(p) => p.needs_resize(resize, area),
        }
    }

    /// Apply the resize policy and re-encode, replacing the cached encoding
    /// and recording the fingerprint that was encoded; a no-op for an empty
    /// area or when no re-encode is owed; a codec failure keeps the previous
    /// encoding.
    #[verifier::rlimit(60)]
    pub fn resize_encode(
        &mut self,
        resize: &crate::resize::Resize,
        background_color: Rgba,
        area: Rect,
    ) -> (nothing: ())
        requires
            old(self).wf(),
        ensures
            final(self).wf(),
            final(self).spec_source() == old(self).spec_source(),
            StatefulProtocol::spec_resize_encode_post(*old(self), *final(self), *resize, area),
    {
        match self {
            StatefulProtocol::Halfblocks(p) => p.resize_encode(resize, background_color, area),
            StatefulProtocol::Sixel(p) => p.resize_encode(resize, background_color, area),
            StatefulProtocol::Kitty(p) => p.resize_encode(resize, background_color, area),
            StatefulProtocol::ITerm2(p) => p.resize_encode(resize, background_color, area),
        }
    }

    /// Whether this kind's encoder accepts the policy's output for the
    /// desired rectangle: its pixel buffer fits in memory and, per kind, the
    /// codec accepts it (PNG plus the base64 guard for the inline-image
    /// kind, the base64 guard for the transmit kind, nothing further for the
    /// sixel kind, and the two-rows-per-cell buffer for the mosaic kind).
    pub open spec fn spec_accepts(
        self,
        policy: crate::resize::Resize,
        desired: Rect,
    ) -> bool {
        match self {
            StatefulProtocol::Halfblocks(p) => crate::protocol::halfblocks::spec_hb_accepts(
                p.source,
                desired,
            ),
            StatefulProtocol::Sixel(p) => crate::resize::px_ok(desired, p.font_size),
            StatefulProtocol::Kitty(p) => crate::resize::px_ok(desired, p.font_size)
                && crate::protocol::kitty::spec_encode_ok_output(
                p.source,
                p.font_size,
                policy,
                desired,
            ),
            StatefulProtocol::ITerm2(p) => crate::resize::px_ok(desired, p.font_size)
                && crate::protocol::iterm2::spec_encode_ok_output(
                p.source,
                p.font_size,
                policy,
                desired,
            ),
        }
    }

    /// How a re-encode call evolves the state: untouched for an empty area
    /// or when no re-encode is owed; when one is owed, the cache is replaced
    /// and the fingerprint recorded exactly when the encoder accepts the
    /// policy's output, and untouched otherwise.
    pub open spec fn spec_resize_encode_post(
        s0: StatefulProtocol,
        s1: StatefulProtocol,
        policy: crate::resize::Resize,
        area: Rect,
    ) -> bool {
        if area.spec_is_empty() {
            s1 == s0
        } else {
            match crate::resize::spec_needs_resize(
                policy,
                s0.spec_source(),
                s0.spec_rect(),
                area,
                s0.spec_stale(),
            ) {
                Option::None => s1 == s0,
                Option::Some(desired) => {
                    if s0.spec_accepts(policy, desired) {
                        &&& s1.spec_rect() == desired
                        &&& s1.spec_hash() == s0.spec_source().hash
                        &&& s1.spec_encodes_for(policy, s0.spec_source(), desired)
                    } else {
                        s1 == s0
                    }
                },
            }
        }
    }

    /// The cached encoding is what applying `policy` to `source` for
    /// `desired` produces, in this kind's wire form: an escape-sequence kind
    /// holds the payload of the policy's output bitmap, and the mosaic kind
    /// holds its sampled cells.
    pub open spec fn spec_encodes_for(
        self,
        policy: crate::resize::Resize,
        source: ImageSource,
        desired: Rect,
    ) -> bool {
        match self {
            StatefulProtocol::Halfblocks(p) => !desired.spec_is_empty()
                ==> crate::protocol::halfblocks::spec_hb_from(p.current, source),
            StatefulProtocol::Sixel(p) => crate::protocol::sixel::sixel_framed(
                p.current.data@,
                p.current.is_tmux,
            ),
            StatefulProtocol::Kitty(p) => crate::protocol::kitty::spec_kitty_reencoded(
                p.current,
                source,
                p.font_size,
                policy,
                desired,
            ),
            StatefulProtocol::ITerm2(p) => crate::protocol::iterm2::spec_reencoded(
                p.current,
                source,
                p.font_size,
                policy,
                desired,
            ),
        }
    }

    /// How a stateful render relates the new buffer to the old: the cached
    /// payload is written clipped to the target area, in this kind's form —
    /// the escape-sequence kinds place it in the corner cell and mark the
    /// rest skip, the mosaic kind paints every covered cell.
    pub open spec fn spec_renders(self, b0: Buffer, b1: Buffer, area: Rect) -> bool {
        match self {
            StatefulProtocol::Sixel(p) => match spec_render_area(p.current.area, area, true) {
                Option::None => b1 == b0,
                Option::Some(r) => crate::protocol::iterm2::spec_rendered(
                    b0,
                    b1,
                    r,
                    p.current.data@,
                ),
            },
            StatefulProtocol::Kitty(p) => match spec_render_area(p.current.area, area, true) {
                Option::None => b1 == b0,
                Option::Some(r) => crate::protocol::iterm2::spec_rendered(
                    b0,
                    b1,
                    r,
                    p.current.data@,
                ),
            },
            StatefulProtocol::ITerm2(p) => match spec_render_area(p.current.area, area, true) {
                Option::None => b1 == b0,
                Option::Some(r) => crate::protocol::iterm2::spec_rendered(
                    b0,
                    b1,
                    r,
                    p.current.data@,
                ),
            },
            StatefulProtocol::Halfblocks(p) => match spec_render_area(
                p.current.area,
                area,
                true,
            ) {
                Option::None => b1 == b0,
                Option::Some(r) => crate::protocol::halfblocks::spec_hb_rendered(
                    p.current.cells@,
                    p.current.area.width as int,
                    b0,
                    b1,
                    r,
                ),
            },
        }
    }

    /// Write the cached encoding into the buffer, dispatching by kind: the
    /// escape-sequence kinds clip to the target area rather than refusing.
    pub fn render(&mut self, area: Rect, buf: &mut Buffer) -> (nothing: ())
        requires
            old(buf).wf(),
            old(self).wf(),
        ensures
            *final(self) == *old(self),
            final(buf).wf(),
            final(buf).area == old(buf).area,
            old(self).spec_renders(*old(buf), *final(buf), area),
    {
        match self {
            StatefulProtocol::Halfblocks(p) => p.render(area, buf),
            StatefulProtocol::Sixel(p) => p.render(area, buf),
            StatefulProtocol::Kitty(p) => p.render(area, buf),
            StatefulProtocol::ITerm2(p) => p.render(area, buf),
        }
    }

    /// Resize and encode if owed, then render immediately: the synchronous
    /// path that needs neither threads nor a background task.  The state
    /// evolves as one `resize_encode` for the rectangle `needs_resize`
    /// reports (nothing when none is owed), and the buffer then holds the
    /// final state's render for the target area.
    pub fn resize_encode_render(
        &mut self,
        resize: &crate::resize::Resize,
        background_color: Rgba,
        area: Rect,
        buf: &mut Buffer,
    ) -> (nothing: ())
        requires
            old(self).wf(),
            old(buf).wf(),
        ensures
            final(self).wf(),
            final(buf).wf(),
            final(buf).area == old(buf).area,
            final(self).spec_source() == old(self).spec_source(),
            match crate::resize::spec_needs_resize(
                *resize,
                old(self).spec_source(),
                old(self).spec_rect(),
                area,
                old(self).spec_stale(),
            ) {
                Option::None => *final(self) == *old(self),
                Option::Some(rect) => StatefulProtocol::spec_resize_encode_post(
                    *old(self),
                    *final(self),
                    *resize,
                    rect,
                ),
            },
            final(self).spec_renders(*old(buf), *final(buf), area),
    {
        let rect = self.needs_resize(resize, area);
        match rect {
            Option::Some(rect) => {
                self.resize_encode(resize, background_color, rect);
            },
            Option::None => {},
        }
        self.render(area, buf);
    }
}

/// After a successful re-encode for an area, with the encoded fingerprint
/// recorded, no further resize is owed for that same area: the cached
/// rectangle equals what the policy would produce and the fingerprint is
/// unchanged.
pub proof fn lemma_no_resize_after_encode(
    s: StatefulProtocol,
    resize: crate::resize::Resize,
    area: Rect,
)
    requires
        s.spec_rect() == crate::resize::spec_desired_rect(resize, s.spec_source().area, area),
        s.spec_hash() == s.spec_source().hash,
    ensures
        crate::resize::spec_needs_resize(
            resize,
            s.spec_source(),
            s.spec_rect(),
            area,
            s.spec_stale(),
        ) is None,
{
}

/// A changed source fingerprint, or a cached rectangle that differs from
/// what the policy would produce for the area, makes a re-encode owed, as
/// long as neither the source nor the desired rectangle is empty.
pub proof fn lemma_resize_owed_when_stale(
    s: StatefulProtocol,
    resize: crate::resize::Resize,
    area: Rect,
)
    requires
        s.spec_source().area.width > 0,
        s.spec_source().area.height > 0,
        !crate::resize::spec_desired_rect(resize, s.spec_source().area, area).spec_is_empty(),
        s.spec_stale() || s.spec_rect() != crate::resize::spec_desired_rect(
            resize,
            s.spec_source().area,
            area,
        ),
    ensures
        crate::resize::spec_needs_resize(
            resize,
            s.spec_source(),
            s.spec_rect(),
            area,
            s.spec_stale(),
        ) == Option::Some(crate::resize::spec_desired_rect(resize, s.spec_source().area, area)),
{
}

} // verus!
