//! The worked encoder: iTerm2 inline images.
//!
//! A bitmap is serialized to PNG, base64-encoded, and wrapped in the
//! iTerm2 inline-image control sequence; inside tmux the whole sequence is
//! wrapped in the passthrough envelope with inner escapes doubled.

use vstd::prelude::*;
use vstd::string::StringExecFns;

use crate::Error;
use crate::FontSize;
use crate::bitmap::{is_crop_of, scaled_of, Bitmap, Rgba};
use crate::buffer::Buffer;
use crate::codec::{base64_encode, base64_of, png_encode, png_of, png_ok};
use crate::digits::{append_dec, dec_digits};
use crate::geometry::Rect;
use crate::protocol::{render_payload, spec_render_area, in_rect, ImageSource};
use crate::resize::{
    px_ok, spec_needs_resize, spec_policy_out_h, spec_policy_out_w, spec_policy_pixels, Resize,
};

verus! {

/// The exact inline-image control sequence for a PNG payload of the given
/// pixel dimensions: byte length, pixel width and height, a flag that keeps
/// the cursor in place, then the base64 payload, terminated by BEL.  Inside
/// tmux the sequence is wrapped in the passthrough envelope and the leading
/// escape is doubled.
pub open spec fn iterm2_payload(png: Seq<u8>, width: u32, height: u32, is_tmux: bool) -> Seq<
    char,
> {
    let body = "]1337;File=inline=1;size="@ + dec_digits(png.len() as int) + ";width="@
        + dec_digits(width as int) + "px;height="@ + dec_digits(height as int)
        + "px;doNotMoveCursor=1:"@ + base64_of(png) + seq!['\x07'];
    if is_tmux {
        "\x1bPtmux;\x1b\x1b"@ + body + "\x1b\\"@
    } else {
        seq!['\x1b'] + body
    }
}

/// `f` holds the inline-image sequence of bitmap `img` for this tmux mode.
pub open spec fn spec_encoded(f: FixedIterm2, img: Bitmap, is_tmux: bool) -> bool {
    &&& f.is_tmux == is_tmux
    &&& f.data@ == iterm2_payload(
        png_of(img.pixels@, img.width, img.height),
        img.width,
        img.height,
        is_tmux,
    )
}

/// `b` is what applying `policy` to `source` for the desired rectangle
/// produces.
pub open spec fn spec_policy_output(
    policy: Resize,
    b: Bitmap,
    source: ImageSource,
    desired: Rect,
    font_size: FontSize,
) -> bool {
    &&& b.wf()
    &&& (policy == Resize::Fit ==> {
        &&& b.width as int == desired.width as int * font_size.0 as int
        &&& b.height as int == desired.height as int * font_size.1 as int
        &&& b.pixels@ == scaled_of(
            source.image.pixels@,
            source.image.width,
            source.image.height,
            b.width,
            b.height,
        )
    })
    &&& (policy == Resize::Crop ==> is_crop_of(
        b,
        source.image,
        desired.width as int * font_size.0 as int,
        desired.height as int * font_size.1 as int,
    ))
}

/// The inline-image encode accepts a bitmap: the PNG codec accepts it and
/// the PNG stream fits the base64 length guard.
pub open spec fn spec_encode_ok(pixels: Seq<u8>, width: u32, height: u32) -> bool {
    &&& png_ok(pixels, width, height)
    &&& png_of(pixels, width, height).len() <= usize::MAX / 4
}

/// The encode accepts the source's own bitmap.
pub open spec fn spec_encode_ok_src(source: ImageSource) -> bool {
    spec_encode_ok(source.image.pixels@, source.image.width, source.image.height)
}

/// The encode accepts the policy's output bitmap for a desired rectangle.
pub open spec fn spec_encode_ok_output(
    source: ImageSource,
    font_size: FontSize,
    policy: Resize,
    desired: Rect,
) -> bool {
    spec_encode_ok(
        spec_policy_pixels(
            policy,
            source.image.pixels@,
            source.image.width,
            source.image.height,
            desired,
            font_size,
        ),
        spec_policy_out_w(policy, source.image.width, desired, font_size) as u32,
        spec_policy_out_h(policy, source.image.height, desired, font_size) as u32,
    )
}

/// When a one-shot encode for a target area succeeds: the codec accepts the
/// bitmap it would encode — the policy's output, or the source itself where
/// the policy declines or its output would not fit in memory.
pub open spec fn spec_accepts(
    source: ImageSource,
    font_size: FontSize,
    policy: Resize,
    area: Rect,
) -> bool {
    match spec_needs_resize(policy, source, Rect::spec_zero(), area, false) {
        Option::None => spec_encode_ok_src(source),
        Option::Some(desired) => {
            if px_ok(desired, font_size) {
                spec_encode_ok_output(source, font_size, policy, desired)
            } else {
                spec_encode_ok_src(source)
            }
        },
    }
}

/// What a one-shot encode for a target area guarantees: the policy's
/// rectangle (or the natural footprint when the policy declines or the
/// pixel buffer would not fit), and a payload that encodes the bitmap the
/// policy produced.
pub open spec fn spec_from_source_ok(
    f: FixedIterm2,
    source: ImageSource,
    font_size: FontSize,
    resize: Resize,
    is_tmux: bool,
    area: Rect,
) -> bool {
    match spec_needs_resize(resize, source, Rect::spec_zero(), area, false) {
        Option::None => spec_encoded(f, source.image, is_tmux) && f.area == source.area,
        Option::Some(desired) => {
            if px_ok(desired, font_size) {
                &&& f.area == desired
                &&& exists|b: Bitmap|
                    #[trigger] spec_policy_output(resize, b, source, desired, font_size)
                        && spec_encoded(f, b, is_tmux)
            } else {
                spec_encoded(f, source.image, is_tmux) && f.area == source.area
            }
        },
    }
}

/// Serialize a bitmap as PNG, base64-encode it, and wrap it in the control
/// sequence, as `iterm2_payload` says.  Succeeds exactly when the PNG codec
/// accepts the bitmap and its stream fits the base64 length guard.
fn encode(img: &Bitmap, is_tmux: bool) -> (r: Result<String, Error>)
    requires
        img.wf(),
    ensures
        r is Ok <==> spec_encode_ok(img.pixels@, img.width, img.height),
        r is Ok ==> r->Ok_0@ == iterm2_payload(
            png_of(img.pixels@, img.width, img.height),
            img.width,
            img.height,
            is_tmux,
        ),
        r is Err ==> r->Err_0 == Error::Encode,
{
    let png = match png_encode(img) {
        Result::Ok(p) => p,
        Result::Err(_) => {
            return Result::Err(Error::Encode);
        },
    };
    if png.len() > usize::MAX / 4 {
        return Result::Err(Error::Encode);
    }
    let b64 = base64_encode(&png);
    let mut s = String::new();
    if is_tmux {
        s.append("\x1bPtmux;\x1b\x1b");
    } else {
        s.append("\x1b");
    }
    s.append("]1337;File=inline=1;size=");
    append_dec(&mut s, png.len() as u64);
    s.append(";width=");
    append_dec(&mut s, img.width as u64);
    s.append("px;height=");
    append_dec(&mut s, img.height as u64);
    s.append("px;doNotMoveCursor=1:");
    s.append(b64.as_str());
    s.append("\x07");
    if is_tmux {
        s.append("\x1b\\");
    }
    proof {
        reveal_strlit("\x1bPtmux;\x1b\x1b");
        reveal_strlit("\x1b");
        reveal_strlit("\x1b\\");
        reveal_strlit("\x07");
        assert("\x07"@ =~= seq!['\x07']);
        assert("\x1b"@ =~= seq!['\x1b']);
        assert(s@ =~= iterm2_payload(png@, img.width, img.height, is_tmux));
    }
    Result::Ok(s)
}

/// A fixed iTerm2 protocol instance: the encoded control sequence and the
/// rectangle it occupies, encoded once and never re-encoded.
pub struct FixedIterm2 {
    pub data: String,
    pub area: Rect,
    pub is_tmux: bool,
}

impl FixedIterm2 {
    /// Encode a source once for the target area: apply the resize policy, or
    /// fall back to the unresized source bitmap and its natural footprint
    /// when the policy declines, then encode.
    pub fn from_source(
        source: &ImageSource,
        font_size: FontSize,
        resize: Resize,
        background_color: Rgba,
        is_tmux: bool,
        area: Rect,
    ) -> (r: Result<FixedIterm2, Error>)
        requires
            source.wf(),
            font_size.0 > 0,
            font_size.1 > 0,
        ensures
            r is Ok <==> spec_accepts(*source, font_size, resize, area),
            r is Ok ==> spec_from_source_ok(r->Ok_0, *source, font_size, resize, is_tmux, area),
            r is Err ==> r->Err_0 == Error::Encode,
    {
        let resized = resize.resize(source, font_size, Rect::zero(), area, background_color, false);
        match resized {
            Option::Some((image, desired)) => {
                let data = match encode(&image, is_tmux) {
                    Result::Ok(d) => d,
                    Result::Err(e) => {
                        return Result::Err(e);
                    },
                };
                let f = FixedIterm2 { data, area: desired, is_tmux };
                proof {
                    let d2 = spec_needs_resize(resize, *source, Rect::spec_zero(), area, false);
                    assert(d2 == Option::Some(desired));
                    assert(px_ok(desired, font_size));
                    assert(spec_policy_output(resize, image, *source, desired, font_size));
                    assert(spec_encoded(f, image, is_tmux));
                }
                Result::Ok(f)
            },
            Option::None => {
                let data = match encode(&source.image, is_tmux) {
                    Result::Ok(d) => d,
                    Result::Err(e) => {
                        return Result::Err(e);
                    },
                };
                let f = FixedIterm2 { data, area: source.area, is_tmux };
                proof {
                    let d2 = spec_needs_resize(resize, *source, Rect::spec_zero(), area, false);
                    assert(d2 is None || !px_ok(d2->0, font_size));
                    assert(spec_encoded(f, source.image, is_tmux));
                }
                Result::Ok(f)
            },
        }
    }

    /// Write the encoded sequence into the buffer, refusing when it does not
    /// fit the target area.
    pub fn render(&self, area: Rect, buf: &mut Buffer) -> (nothing: ())
        requires
            old(buf).wf(),
        ensures
            final(buf).wf(),
            final(buf).area == old(buf).area,
            match spec_render_area(self.area, area, false) {
                Option::None => *final(buf) == *old(buf),
                Option::Some(r) => spec_rendered(*old(buf), *final(buf), r, self.data@),
            },
    {
        render_payload(self.area, &self.data, area, buf, false)
    }

    /// The rectangle the encoded sequence occupies.
    pub fn rect(&self) -> (r: Rect)
        ensures
            r == self.area,
    {
        self.area
    }
}

/// How a rendered payload relates the new buffer to the old: the payload
/// text stands in the corner cell of `r`, every other cell of `r` is marked
/// skip with its text kept, and everything else is unchanged.
pub open spec fn spec_rendered(b0: Buffer, b1: Buffer, r: Rect, data: Seq<char>) -> bool {
    &&& forall|a: int, b: int|
        b0.contains(a, b) && !in_rect(r, a, b) ==> #[trigger] b1.cell(a, b) == b0.cell(a, b)
    &&& (b0.contains(r.x as int, r.y as int) && !r.spec_is_empty() ==> {
        &&& b1.cell(r.x as int, r.y as int).symbol@ == data
        &&& b1.cell(r.x as int, r.y as int).skip == b0.cell(r.x as int, r.y as int).skip
    })
    &&& forall|a: int, b: int|
        b0.contains(a, b) && in_rect(r, a, b) && !(a == r.x as int && b == r.y as int) ==> {
            &&& (#[trigger] b1.cell(a, b)).symbol == b0.cell(a, b).symbol
            &&& b1.cell(a, b).skip
        }
}

/// `cur` is the re-encoded instance for the policy's output on `source` at
/// rectangle `desired`.
pub open spec fn spec_reencoded(
    cur: FixedIterm2,
    source: ImageSource,
    font_size: FontSize,
    policy: Resize,
    desired: Rect,
) -> bool {
    exists|b: Bitmap|
        #[trigger] spec_policy_output(policy, b, source, desired, font_size) && spec_encoded(
            cur,
            b,
            cur.is_tmux,
        )
}

/// The stateful iTerm2 protocol: the source, the font it was built with,
/// the last encoded instance, and the fingerprint that was encoded.
pub struct Iterm2State {
    pub source: ImageSource,
    pub font_size: FontSize,
    pub current: FixedIterm2,
    pub hash: u64,
}

impl Iterm2State {
    /// The source is well formed and the font has no zero dimension.
    pub open spec fn wf(self) -> bool {
        &&& self.source.wf()
        &&& self.font_size.0 > 0
        &&& self.font_size.1 > 0
    }

    /// Wrap a source for deferred encoding: nothing is encoded yet.
    pub fn new(source: ImageSource, font_size: FontSize, is_tmux: bool) -> (s: Iterm2State)
        requires
            source.wf(),
            font_size.0 > 0,
            font_size.1 > 0,
        ensures
            s.wf(),
            s.source == source,
            s.font_size == font_size,
            s.current.area == Rect::spec_zero(),
            s.current.data@ == Seq::<char>::empty(),
            s.current.is_tmux == is_tmux,
            s.hash == 0,
    {
        let s = Iterm2State {
            source,
            font_size,
            current: FixedIterm2 { data: String::new(), area: Rect::zero(), is_tmux },
            hash: 0,
        };
        s
    }

    /// The force flag: the source fingerprint differs from the one encoded.
    pub open spec fn spec_stale(self) -> bool {
        self.source.hash != self.hash
    }

    /// The rectangle a re-encode would produce for `area`, or nothing when
    /// the cached encoding already satisfies it: same rectangle, unchanged
    /// fingerprint.
    pub fn needs_resize(&self, resize: &Resize, area: Rect) -> (r: Option<Rect>)
        ensures
            r == spec_needs_resize(*resize, self.source, self.current.area, area, self.spec_stale()),
    {
        resize.needs_resize(&self.source, self.font_size, self.current.area, area, self.source.hash
            != self.hash)
    }

    /// Re-apply the resize policy and re-encode, replacing the cached
    /// instance and recording the fingerprint that was encoded.  A no-op for
    /// an empty area or when no re-encode is owed; where the policy's output
    /// would not fit in memory or the codec rejects it, the previous cached
    /// encoding stays in place.
    pub fn resize_encode(&mut self, resize: &Resize, background_color: Rgba, area: Rect) -> (nothing: ())
        requires
            old(self).wf(),
        ensures
            final(self).wf(),
            final(self).source == old(self).source,
            final(self).font_size == old(self).font_size,
            final(self).current.is_tmux == old(self).current.is_tmux,
            area.spec_is_empty() ==> *final(self) == *old(self),
            !area.spec_is_empty() ==> match spec_needs_resize(
                *resize,
                old(self).source,
                old(self).current.area,
                area,
                old(self).spec_stale(),
            ) {
                Option::None => *final(self) == *old(self),
                Option::Some(desired) => {
                    if px_ok(desired, old(self).font_size) && spec_encode_ok_output(
                        old(self).source,
                        old(self).font_size,
                        *resize,
                        desired,
                    ) {
                        &&& final(self).current.area == desired
                        &&& final(self).hash == old(self).source.hash
                        &&& spec_reencoded(
                            final(self).current,
                            old(self).source,
                            old(self).font_size,
                            *resize,
                            desired,
                        )
                    } else {
                        *final(self) == *old(self)
                    }
                },
            },
    {
        if area.width == 0 || area.height == 0 {
            return ;
        }
        let force = self.source.hash != self.hash;
        match resize.resize(&self.source, self.font_size, self.current.area, area, background_color, force) {
            Option::Some((img, rect)) => {
                let is_tmux = self.current.is_tmux;
                match encode(&img, is_tmux) {
                    Result::Ok(data) => {
                        self.current = FixedIterm2 { data, area: rect, is_tmux };
                        self.hash = self.source.hash;
                        proof {
                            assert(spec_encoded(self.current, img, is_tmux));
                            assert(spec_policy_output(
                                *resize,
                                img,
                                old(self).source,
                                rect,
                                old(self).font_size,
                            ));
                            assert(spec_reencoded(
                                self.current,
                                old(self).source,
                                old(self).font_size,
                                *resize,
                                rect,
                            ));
                        }
                    },
                    Result::Err(_) => {
                        // An image codec failure must never panic the render
                        // loop: keep the previous encoding and show stale
                        // content.
                    },
                }
            },
            Option::None => {},
        }
    }

    /// Write the cached sequence into the buffer, clipping to the target
    /// area rather than refusing: a stateful user is expected to call
    /// `resize_encode` first, and a stale cache still renders something.
    pub fn render(&mut self, area: Rect, buf: &mut Buffer) -> (nothing: ())
        requires
            old(buf).wf(),
        ensures
            *final(self) == *old(self),
            final(buf).wf(),
            final(buf).area == old(buf).area,
            match spec_render_area(old(self).current.area, area, true) {
                Option::None => *final(buf) == *old(buf),
                Option::Some(r) => spec_rendered(*old(buf), *final(buf), r, old(self).current.data@),
            },
    {
        render_payload(self.current.area, &self.current.data, area, buf, true)
    }
}

} // verus!
