//! The sixel encoder: images as six-pixel-tall color runs inside a DCS
//! escape sequence.  This implementation quantizes to a fixed 6x6x6 color
//! cube and emits one colored sixel bit-row per pass.

use vstd::prelude::*;
use vstd::string::StringExecFns;

use crate::Error;
use crate::FontSize;
use crate::bitmap::{Bitmap, Rgba};
use crate::buffer::Buffer;
use crate::digits::append_dec;
use crate::geometry::Rect;
use crate::protocol::{render_payload, spec_render_area, ImageSource};
use crate::protocol::iterm2::spec_rendered;
use crate::resize::{px_ok, spec_needs_resize, Resize};

verus! {

/// The sequence is a device-control string: it starts with the DCS sixel
/// introducer and ends with the string terminator; inside tmux both are
/// wrapped in the passthrough envelope with inner escapes doubled.
pub open spec fn sixel_framed(s: Seq<char>, is_tmux: bool) -> bool {
    if is_tmux {
        let pre = "\x1bPtmux;\x1b\x1bPq"@;
        let post = "\x1b\x1b\\\x1b\\"@;
        &&& s.len() >= pre.len() + post.len()
        &&& s.take(pre.len() as int) == pre
        &&& s.skip(s.len() - post.len()) == post
    } else {
        let pre = "\x1bPq"@;
        let post = "\x1b\\"@;
        &&& s.len() >= pre.len() + post.len()
        &&& s.take(pre.len() as int) == pre
        &&& s.skip(s.len() - post.len()) == post
    }
}

/// What a one-shot encode for a target area guarantees: the policy's
/// rectangle and a framed device-control string.
pub open spec fn spec_from_source_ok(
    s: Sixel,
    source: ImageSource,
    font_size: FontSize,
    resize: Resize,
    is_tmux: bool,
    area: Rect,
) -> bool {
    &&& s.is_tmux == is_tmux
    &&& sixel_framed(s.data@, is_tmux)
    &&& match spec_needs_resize(resize, source, Rect::spec_zero(), area, false) {
        Option::None => s.area == source.area,
        Option::Some(desired) => {
            if px_ok(desired, font_size) {
                s.area == desired
            } else {
                s.area == source.area
            }
        },
    }
}

/// The sixel character setting bit `k` alone.
fn sixel_char(k: u64) -> &'static str {
    if k == 0 {
        "@"
    } else if k == 1 {
        "A"
    } else if k == 2 {
        "C"
    } else if k == 3 {
        "G"
    } else if k == 4 {
        "O"
    } else {
        "_"
    }
}

/// Build the sixel stream for a bitmap: raster attributes, the fixed color
/// cube, then one pass per bit row of each six-pixel band, each pixel
/// emitted under its quantized color register.  This encode cannot fail.
fn encode(img: &Bitmap, is_tmux: bool) -> (r: String)
    requires
        img.wf(),
    ensures
        sixel_framed(r@, is_tmux),
{
    let mut body = String::new();
    body.append("\"1;1;");
    append_dec(&mut body, img.width as u64);
    body.append(";");
    append_dec(&mut body, img.height as u64);
    let mut i: u64 = 0;
    while i < 216
        decreases 216 - i,
    {
        body.append("#");
        append_dec(&mut body, i);
        body.append(";2;");
        append_dec(&mut body, (i / 36) * 20);
        body.append(";");
        append_dec(&mut body, ((i / 6) % 6) * 20);
        body.append(";");
        append_dec(&mut body, (i % 6) * 20);
        i = i + 1;
    }
    let mut y: u64 = 0;
    while y < img.height as u64
        invariant
            img.wf(),
        decreases img.height as int + 6 - y,
    {
        let mut k: u64 = 0;
        while k < 6 && y + k < img.height as u64
            invariant
                img.wf(),
                y < img.height as u64,
                k <= 6,
            decreases 6 - k,
        {
            let row: u32 = (y + k) as u32;
            let mut x: u32 = 0;
            while x < img.width
                invariant
                    img.wf(),
                    row < img.height,
                decreases img.width - x,
            {
                let red = img.pixel(x, row, 0);
                let green = img.pixel(x, row, 1);
                let blue = img.pixel(x, row, 2);
                let reg: u64 = (red / 51) as u64 * 36 + (green / 51) as u64 * 6 + (blue
                    / 51) as u64;
                body.append("#");
                append_dec(&mut body, reg);
                body.append(sixel_char(k));
                x = x + 1;
            }
            body.append("$");
            k = k + 1;
        }
        body.append("-");
        y = y + 6;
    }
    let mut s = String::new();
    if is_tmux {
        s.append("\x1bPtmux;\x1b\x1bPq");
    } else {
        s.append("\x1bPq");
    }
    s.append(body.as_str());
    if is_tmux {
        s.append("\x1b\x1b\\\x1b\\");
    } else {
        s.append("\x1b\\");
    }
    proof {
        reveal_strlit("\x1bPtmux;\x1b\x1bPq");
        reveal_strlit("\x1bPq");
        reveal_strlit("\x1b\x1b\\\x1b\\");
        reveal_strlit("\x1b\\");
        if is_tmux {
            let pre = "\x1bPtmux;\x1b\x1bPq"@;
            let post = "\x1b\x1b\\\x1b\\"@;
            assert(s@.take(pre.len() as int) =~= pre);
            assert(s@.skip(s@.len() - post.len()) =~= post);
        } else {
            let pre = "\x1bPq"@;
            let post = "\x1b\\"@;
            assert(s@.take(pre.len() as int) =~= pre);
            assert(s@.skip(s@.len() - post.len()) =~= post);
        }
    }
    s
}

/// A fixed sixel protocol instance: the encoded sequence and the rectangle
/// it occupies.
pub struct Sixel {
    pub data: String,
    pub area: Rect,
    pub is_tmux: bool,
}

impl Sixel {
    /// Encode a source once for the target area, falling back to the
    /// unresized source bitmap when the policy declines.  Always succeeds:
    /// the sixel encode has no failure.
    pub fn from_source(
        source: &ImageSource,
        font_size: FontSize,
        resize: Resize,
        background_color: Rgba,
        is_tmux: bool,
        area: Rect,
    ) -> (r: Result<Sixel, Error>)
        requires
            source.wf(),
            font_size.0 > 0,
            font_size.1 > 0,
        ensures
            r is Ok,
            r is Ok ==> spec_from_source_ok(r->Ok_0, *source, font_size, resize, is_tmux, area),
    {
        let resized = resize.resize(source, font_size, Rect::zero(), area, background_color, false);
        match resized {
            Option::Some((image, desired)) => {
                let data = encode(&image, is_tmux);
                Result::Ok(Sixel { data, area: desired, is_tmux })
            },
            Option::None => {
                let data = encode(&source.image, is_tmux);
                Result::Ok(Sixel { data, area: source.area, is_tmux })
            },
        }
    }

    /// Write the encoded sequence into the buffer, refusing when it does not
    /// fit the target area.
    pub fn render(&self, area: Rect, buf: &mut Buffer) -> (nothing: ())
        requires
            old(buf).wf(),
        ensures
            final(buf).wf(),
            final(buf).area == old(buf).area,
            match spec_render_area(self.area, area, false) {
                Option::None => *final(buf) == *old(buf),
                Option::Some(r) => spec_rendered(*old(buf), *final(buf), r, self.data@),
            },
    {
        render_payload(self.area, &self.data, area, buf, false)
    }
}

/// The stateful sixel protocol: the source, the font it was built with, the
/// last encoded instance, and the fingerprint that was encoded.
pub struct StatefulSixel {
    pub source: ImageSource,
    pub font_size: FontSize,
    pub current: Sixel,
    pub hash: u64,
}

impl StatefulSixel {
    /// The source is well formed and the font has no zero dimension.
    pub open spec fn wf(self) -> bool {
        &&& self.source.wf()
        &&& self.font_size.0 > 0
        &&& self.font_size.1 > 0
    }

    /// Wrap a source for deferred encoding.
    pub fn new(source: ImageSource, font_size: FontSize, is_tmux: bool) -> (s: StatefulSixel)
        requires
            source.wf(),
            font_size.0 > 0,
            font_size.1 > 0,
        ensures
            s.wf(),
            s.source == source,
            s.font_size == font_size,
            s.current.area == Rect::spec_zero(),
            s.current.data@ == Seq::<char>::empty(),
            s.current.is_tmux == is_tmux,
            s.hash == 0,
    {
        StatefulSixel {
            source,
            font_size,
            current: Sixel { data: String::new(), area: Rect::zero(), is_tmux },
            hash: 0,
        }
    }

    /// The force flag: the source fingerprint differs from the one encoded.
    pub open spec fn spec_stale(self) -> bool {
        self.source.hash != self.hash
    }

    /// The rectangle a re-encode would produce for `area`, or nothing when
    /// the cached encoding already satisfies it.
    pub fn needs_resize(&self, resize: &Resize, area: Rect) -> (r: Option<Rect>)
        ensures
            r == spec_needs_resize(*resize, self.source, self.current.area, area, self.spec_stale()),
    {
        resize.needs_resize(&self.source, self.font_size, self.current.area, area, self.source.hash
            != self.hash)
    }

    /// Re-apply the resize policy and re-encode, recording the fingerprint
    /// that was encoded; a no-op for an empty area or where the policy's
    /// output would not fit in memory.
    pub fn resize_encode(&mut self, resize: &Resize, background_color: Rgba, area: Rect) -> (nothing: ())
        requires
            old(self).wf(),
        ensures
            final(self).wf(),
            final(self).source == old(self).source,
            final(self).font_size == old(self).font_size,
            final(self).current.is_tmux == old(self).current.is_tmux,
            area.spec_is_empty() ==> *final(self) == *old(self),
            !area.spec_is_empty() ==> match spec_needs_resize(
                *resize,
                old(self).source,
                old(self).current.area,
                area,
                old(self).spec_stale(),
            ) {
                Option::None => *final(self) == *old(self),
                Option::Some(desired) => {
                    if px_ok(desired, old(self).font_size) {
                        &&& final(self).current.area == desired
                        &&& final(self).hash == old(self).source.hash
                        &&& sixel_framed(final(self).current.data@, old(self).current.is_tmux)
                    } else {
                        *final(self) == *old(self)
                    }
                },
            },
    {
        if area.width == 0 || area.height == 0 {
            return ;
        }
        let force = self.source.hash != self.hash;
        match resize.resize(&self.source, self.font_size, self.current.area, area, background_color, force) {
            Option::Some((img, rect)) => {
                let is_tmux = self.current.is_tmux;
                let data = encode(&img, is_tmux);
                self.current = Sixel { data, area: rect, is_tmux };
                self.hash = self.source.hash;
            },
            Option::None => {},
        }
    }

    /// Write the cached sequence into the buffer, clipping to the target
    /// area rather than refusing.
    pub fn render(&mut self, area: Rect, buf: &mut Buffer) -> (nothing: ())
        requires
            old(buf).wf(),
        ensures
            *final(self) == *old(self),
            final(buf).wf(),
            final(buf).area == old(buf).area,
            match spec_render_area(old(self).current.area, area, true) {
                Option::None => *final(buf) == *old(buf),
                Option::Some(r) => spec_rendered(*old(buf), *final(buf), r, old(self).current.data@),
            },
    {
        render_payload(self.current.area, &self.current.data, area, buf, true)
    }
}

} // verus!
