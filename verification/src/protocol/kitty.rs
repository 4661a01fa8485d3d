//! The Kitty graphics encoder: APC transmit-and-display sequences with
//! explicit image identifiers, raw RGBA pixels base64-encoded in one chunk.

use vstd::prelude::*;
use vstd::string::StringExecFns;

use crate::Error;
use crate::FontSize;
use crate::bitmap::{Bitmap, Rgba};
use crate::buffer::Buffer;
use crate::codec::{base64_encode, base64_of};
use crate::digits::{append_dec, dec_digits};
use crate::geometry::Rect;
use crate::protocol::{render_payload, spec_render_area, ImageSource};
use crate::protocol::iterm2::{spec_policy_output, spec_rendered};
use crate::resize::{px_ok, spec_needs_resize, spec_policy_out_h, spec_policy_out_w, Resize};

verus! {

/// The exact transmit-and-display sequence: quiet mode, raw 32-bit pixels,
/// the image id, pixel dimensions, the cell rectangle, then the base64
/// payload.  Inside tmux the sequence is wrapped in the passthrough envelope
/// with the inner escapes doubled.
pub open spec fn kitty_payload(
    pixels: Seq<u8>,
    px_w: u32,
    px_h: u32,
    cols: u16,
    rows: u16,
    id: u32,
    is_tmux: bool,
) -> Seq<char> {
    let body = "_Ga=T,q=2,f=32,i="@ + dec_digits(id as int) + ",s="@ + dec_digits(px_w as int)
        + ",v="@ + dec_digits(px_h as int) + ",c="@ + dec_digits(cols as int) + ",r="@
        + dec_digits(rows as int) + ";"@ + base64_of(pixels);
    if is_tmux {
        "\x1bPtmux;\x1b\x1b"@ + body + "\x1b\x1b\\\x1b\\"@
    } else {
        seq!['\x1b'] + body + "\x1b\\"@
    }
}

/// `k` holds the transmit sequence of bitmap `img` for this cell rectangle,
/// id and tmux mode.
pub open spec fn spec_kitty_encoded(k: Kitty, img: Bitmap, is_tmux: bool) -> bool {
    &&& k.is_tmux == is_tmux
    &&& k.data@ == kitty_payload(
        img.pixels@,
        img.width,
        img.height,
        k.area.width,
        k.area.height,
        k.id,
        is_tmux,
    )
}

/// The transmit encode accepts a bitmap of these pixel dimensions: its raw
/// byte count fits the base64 length guard, the encode's only failure.
pub open spec fn spec_fits_b64(width: int, height: int) -> bool {
    4 * width * height <= usize::MAX / 4
}

/// The encode accepts the policy's output bitmap for a desired rectangle.
pub open spec fn spec_encode_ok_output(
    source: ImageSource,
    font_size: FontSize,
    policy: Resize,
    desired: Rect,
) -> bool {
    spec_fits_b64(
        spec_policy_out_w(policy, source.image.width, desired, font_size),
        spec_policy_out_h(policy, source.image.height, desired, font_size),
    )
}

/// When a one-shot encode for a target area succeeds: the bitmap it would
/// encode — the policy's output, or the source itself where the policy
/// declines or its output would not fit in memory — fits the length guard.
pub open spec fn spec_accepts(
    source: ImageSource,
    font_size: FontSize,
    policy: Resize,
    area: Rect,
) -> bool {
    match spec_needs_resize(policy, source, Rect::spec_zero(), area, false) {
        Option::None => spec_fits_b64(source.image.width as int, source.image.height as int),
        Option::Some(desired) => {
            if px_ok(desired, font_size) {
                spec_encode_ok_output(source, font_size, policy, desired)
            } else {
                spec_fits_b64(source.image.width as int, source.image.height as int)
            }
        },
    }
}

/// What a one-shot encode for a target area guarantees, under a fixed
/// image id.
pub open spec fn spec_from_source_ok(
    k: Kitty,
    source: ImageSource,
    font_size: FontSize,
    resize: Resize,
    is_tmux: bool,
    area: Rect,
) -> bool {
    match spec_needs_resize(resize, source, Rect::spec_zero(), area, false) {
        Option::None => spec_kitty_encoded(k, source.image, is_tmux) && k.area == source.area,
        Option::Some(desired) => {
            if px_ok(desired, font_size) {
                &&& k.area == desired
                &&& exists|b: Bitmap|
                    #[trigger] spec_policy_output(resize, b, source, desired, font_size)
                        && spec_kitty_encoded(k, b, is_tmux)
            } else {
                spec_kitty_encoded(k, source.image, is_tmux) && k.area == source.area
            }
        },
    }
}

/// Build the transmit sequence for a bitmap occupying `rect`.  Succeeds
/// exactly when the raw byte count fits the base64 length guard.
#[verifier::rlimit(40)]
fn encode(img: &Bitmap, rect: Rect, id: u32, is_tmux: bool) -> (r: Result<String, Error>)
    requires
        img.wf(),
    ensures
        r is Ok <==> spec_fits_b64(img.width as int, img.height as int),
        r is Ok ==> r->Ok_0@ == kitty_payload(
            img.pixels@,
            img.width,
            img.height,
            rect.width,
            rect.height,
            id,
            is_tmux,
        ),
        r is Err ==> r->Err_0 == Error::Encode,
{
    proof {
        assert(img.pixels@.len() == 4 * (img.width as int) * (img.height as int));
    }
    if img.pixels.len() > usize::MAX / 4 {
        proof {
            assert(!spec_fits_b64(img.width as int, img.height as int));
        }
        return Result::Err(Error::Encode);
    }
    proof {
        assert(spec_fits_b64(img.width as int, img.height as int));
    }
    let b64 = base64_encode(&img.pixels);
    let mut s = String::new();
    if is_tmux {
        s.append("\x1bPtmux;\x1b\x1b");
    } else {
        s.append("\x1b");
    }
    s.append("_Ga=T,q=2,f=32,i=");
    append_dec(&mut s, id as u64);
    s.append(",s=");
    append_dec(&mut s, img.width as u64);
    s.append(",v=");
    append_dec(&mut s, img.height as u64);
    s.append(",c=");
    append_dec(&mut s, rect.width as u64);
    s.append(",r=");
    append_dec(&mut s, rect.height as u64);
    s.append(";");
    s.append(b64.as_str());
    if is_tmux {
        s.append("\x1b\x1b\\\x1b\\");
    } else {
        s.append("\x1b\\");
    }
    proof {
        reveal_strlit("\x1bPtmux;\x1b\x1b");
        reveal_strlit("\x1b");
        reveal_strlit("\x1b\\");
        reveal_strlit("\x1b\x1b\\\x1b\\");
        assert("\x1b"@ =~= seq!['\x1b']);
        assert(s@ =~= kitty_payload(
            img.pixels@,
            img.width,
            img.height,
            rect.width,
            rect.height,
            id,
            is_tmux,
        ));
    }
    Result::Ok(s)
}

/// A fixed Kitty protocol instance: the encoded sequence, the rectangle it
/// occupies, and the image id it was transmitted under.
pub struct Kitty {
    pub data: String,
    pub area: Rect,
    pub id: u32,
    pub is_tmux: bool,
}

impl Kitty {
    /// Encode a source once for the target area under a fresh image id,
    /// falling back to the unresized source bitmap when the policy declines.
    pub fn from_source(
        source: &ImageSource,
        font_size: FontSize,
        resize: Resize,
        background_color: Rgba,
        area: Rect,
        id: u32,
        is_tmux: bool,
    ) -> (r: Result<Kitty, Error>)
        requires
            source.wf(),
            font_size.0 > 0,
            font_size.1 > 0,
        ensures
            r is Ok <==> spec_accepts(*source, font_size, resize, area),
            r is Ok ==> r->Ok_0.id == id,
            r is Ok ==> spec_from_source_ok(r->Ok_0, *source, font_size, resize, is_tmux, area),
            r is Err ==> r->Err_0 == Error::Encode,
    {
        let resized = resize.resize(source, font_size, Rect::zero(), area, background_color, false);
        match resized {
            Option::Some((image, desired)) => {
                let data = match encode(&image, desired, id, is_tmux) {
                    Result::Ok(d) => d,
                    Result::Err(e) => {
                        return Result::Err(e);
                    },
                };
                let k = Kitty { data, area: desired, id, is_tmux };
                proof {
                    assert(spec_policy_output(resize, image, *source, desired, font_size));
                    assert(spec_kitty_encoded(k, image, is_tmux));
                }
                Result::Ok(k)
            },
            Option::None => {
                let data = match encode(&source.image, source.area, id, is_tmux) {
                    Result::Ok(d) => d,
                    Result::Err(e) => {
                        return Result::Err(e);
                    },
                };
                let k = Kitty { data, area: source.area, id, is_tmux };
                proof {
                    assert(spec_kitty_encoded(k, source.image, is_tmux));
                }
                Result::Ok(k)
            },
        }
    }

    /// Write the encoded sequence into the buffer, refusing when it does not
    /// fit the target area.
    pub fn render(&self, area: Rect, buf: &mut Buffer) -> (nothing: ())
        requires
            old(buf).wf(),
        ensures
            final(buf).wf(),
            final(buf).area == old(buf).area,
            match spec_render_area(self.area, area, false) {
                Option::None => *final(buf) == *old(buf),
                Option::Some(r) => spec_rendered(*old(buf), *final(buf), r, self.data@),
            },
    {
        render_payload(self.area, &self.data, area, buf, false)
    }
}

/// `cur` is the re-encoded instance for the policy's output on `source` at
/// rectangle `desired`.
pub open spec fn spec_kitty_reencoded(
    cur: Kitty,
    source: ImageSource,
    font_size: FontSize,
    policy: Resize,
    desired: Rect,
) -> bool {
    exists|b: Bitmap|
        #[trigger] crate::protocol::iterm2::spec_policy_output(
            policy,
            b,
            source,
            desired,
            font_size,
        ) && spec_kitty_encoded(cur, b, cur.is_tmux)
}

/// The stateful Kitty protocol: the source, the font it was built with, the
/// image id, the last encoded instance, and the fingerprint that was
/// encoded.
pub struct StatefulKitty {
    pub source: ImageSource,
    pub font_size: FontSize,
    pub current: Kitty,
    pub hash: u64,
}

impl StatefulKitty {
    /// The source is well formed and the font has no zero dimension.
    pub open spec fn wf(self) -> bool {
        &&& self.source.wf()
        &&& self.font_size.0 > 0
        &&& self.font_size.1 > 0
    }

    /// Wrap a source for deferred encoding under a fixed image id.
    pub fn new(source: ImageSource, font_size: FontSize, id: u32, is_tmux: bool) -> (s: StatefulKitty)
        requires
            source.wf(),
            font_size.0 > 0,
            font_size.1 > 0,
        ensures
            s.wf(),
            s.source == source,
            s.font_size == font_size,
            s.current.area == Rect::spec_zero(),
            s.current.data@ == Seq::<char>::empty(),
            s.current.id == id,
            s.current.is_tmux == is_tmux,
            s.hash == 0,
    {
        StatefulKitty {
            source,
            font_size,
            current: Kitty { data: String::new(), area: Rect::zero(), id, is_tmux },
            hash: 0,
        }
    }

    /// The force flag: the source fingerprint differs from the one encoded.
    pub open spec fn spec_stale(self) -> bool {
        self.source.hash != self.hash
    }

    /// The rectangle a re-encode would produce for `area`, or nothing when
    /// the cached encoding already satisfies it.
    pub fn needs_resize(&self, resize: &Resize, area: Rect) -> (r: Option<Rect>)
        ensures
            r == spec_needs_resize(*resize, self.source, self.current.area, area, self.spec_stale()),
    {
        resize.needs_resize(&self.source, self.font_size, self.current.area, area, self.source.hash
            != self.hash)
    }

    /// Re-apply the resize policy and re-encode under the same image id,
    /// recording the fingerprint that was encoded; a no-op for an empty area,
    /// and an encode failure keeps the previous encoding.
    pub fn resize_encode(&mut self, resize: &Resize, background_color: Rgba, area: Rect) -> (nothing: ())
        requires
            old(self).wf(),
        ensures
            final(self).wf(),
            final(self).source == old(self).source,
            final(self).font_size == old(self).font_size,
            final(self).current.is_tmux == old(self).current.is_tmux,
            final(self).current.id == old(self).current.id,
            area.spec_is_empty() ==> *final(self) == *old(self),
            !area.spec_is_empty() ==> match spec_needs_resize(
                *resize,
                old(self).source,
                old(self).current.area,
                area,
                old(self).spec_stale(),
            ) {
                Option::None => *final(self) == *old(self),
                Option::Some(desired) => {
                    if px_ok(desired, old(self).font_size) && spec_encode_ok_output(
                        old(self).source,
                        old(self).font_size,
                        *resize,
                        desired,
                    ) {
                        &&& final(self).current.area == desired
                        &&& final(self).hash == old(self).source.hash
                        &&& spec_kitty_reencoded(
                            final(self).current,
                            old(self).source,
                            old(self).font_size,
                            *resize,
                            desired,
                        )
                    } else {
                        *final(self) == *old(self)
                    }
                },
            },
    {
        if area.width == 0 || area.height == 0 {
            return ;
        }
        let force = self.source.hash != self.hash;
        match resize.resize(&self.source, self.font_size, self.current.area, area, background_color, force) {
            Option::Some((img, rect)) => {
                let is_tmux = self.current.is_tmux;
                let id = self.current.id;
                match encode(&img, rect, id, is_tmux) {
                    Result::Ok(data) => {
                        self.current = Kitty { data, area: rect, id, is_tmux };
                        self.hash = self.source.hash;
                        proof {
                            assert(spec_kitty_encoded(self.current, img, is_tmux));
                            assert(spec_policy_output(
                                *resize,
                                img,
                                old(self).source,
                                rect,
                                old(self).font_size,
                            ));
                            assert(spec_kitty_reencoded(
                                self.current,
                                old(self).source,
                                old(self).font_size,
                                *resize,
                                rect,
                            ));
                        }
                    },
                    Result::Err(_) => {
                        // A codec failure must never panic the render loop:
                        // keep the previous encoding and show stale content.
                    },
                }
            },
            Option::None => {},
        }
    }

    /// Write the cached sequence into the buffer, clipping to the target
    /// area rather than refusing.
    pub fn render(&mut self, area: Rect, buf: &mut Buffer) -> (nothing: ())
        requires
            old(buf).wf(),
        ensures
            *final(self) == *old(self),
            final(buf).wf(),
            final(buf).area == old(buf).area,
            match spec_render_area(old(self).current.area, area, true) {
                Option::None => *final(buf) == *old(buf),
                Option::Some(r) => spec_rendered(*old(buf), *final(buf), r, old(self).current.data@),
            },
    {
        render_payload(self.current.area, &self.current.data, area, buf, true)
    }
}

} // verus!
