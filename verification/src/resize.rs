//! The resize policy: whether and how an image is re-fitted to a target area.

use vstd::prelude::*;

use crate::FontSize;
use crate::bitmap::{crop_to, cropped_of, is_crop_of, scale_to, scaled_of, Bitmap, Rgba};
use crate::geometry::Rect;
use crate::protocol::ImageSource;

verus! {

/// How an image is fitted to a target area: `Fit` preserves the aspect ratio
/// within the area and may leave cells unfilled; `Crop` fills the area
/// exactly and may discard content.
#[derive(Clone, Copy, Debug, PartialEq, Eq, Structural)]
pub enum Resize {
    Fit,
    Crop,
}

/// The cell dimensions the policy aims for, given the image's natural cell
/// size `(cw, ch)` and the area's `(aw, ah)`.  Meaningful for `cw, ch > 0`.
pub open spec fn spec_desired_dims(policy: Resize, cw: u16, ch: u16, aw: u16, ah: u16) -> (
    int,
    int,
) {
    match policy {
        Resize::Fit => {
            if cw <= aw && ch <= ah {
                (cw as int, ch as int)
            } else {
                let h1r = (ch as int * aw as int) / (cw as int);
                let h1 = if h1r > 1 {
                    h1r
                } else {
                    1int
                };
                if h1 <= ah as int {
                    (aw as int, h1)
                } else {
                    let w1r = (cw as int * ah as int) / (ch as int);
                    let w1 = if w1r > 1 {
                        w1r
                    } else {
                        1int
                    };
                    (
                        if w1 <= aw as int {
                            w1
                        } else {
                            aw as int
                        },
                        ah as int,
                    )
                }
            }
        },
        Resize::Crop => {
            (
                if cw <= aw {
                    cw as int
                } else {
                    aw as int
                },
                if ch <= ah {
                    ch as int
                } else {
                    ah as int
                },
            )
        },
    }
}

/// The rectangle the policy would produce: the desired dimensions, placed at
/// the area's corner.
pub open spec fn spec_desired_rect(policy: Resize, src: Rect, area: Rect) -> Rect {
    let dims = spec_desired_dims(policy, src.width, src.height, area.width, area.height);
    Rect { x: area.x, y: area.y, width: dims.0 as u16, height: dims.1 as u16 }
}

/// Whether a re-encode is owed: the rectangle the policy would produce, or
/// nothing when the cached rectangle already equals it and no force flag is
/// set, or when either the source or the target is empty.
pub open spec fn spec_needs_resize(
    policy: Resize,
    source: ImageSource,
    current: Rect,
    area: Rect,
    force: bool,
) -> Option<Rect> {
    if source.area.width == 0 || source.area.height == 0 {
        Option::None
    } else {
        let desired = spec_desired_rect(policy, source.area, area);
        if desired.spec_is_empty() {
            Option::None
        } else if desired == current && !force {
            Option::None
        } else {
            Option::Some(desired)
        }
    }
}

/// The pixel width of the policy's output bitmap for a desired rectangle:
/// the rectangle's width in pixels, clipped to the source for `Crop`.
pub open spec fn spec_policy_out_w(policy: Resize, src_w: u32, desired: Rect, font_size: FontSize) -> int {
    let pw = desired.width as int * font_size.0 as int;
    match policy {
        Resize::Fit => pw,
        Resize::Crop => if pw <= src_w {
            pw
        } else {
            src_w as int
        },
    }
}

/// The pixel height of the policy's output bitmap for a desired rectangle.
pub open spec fn spec_policy_out_h(policy: Resize, src_h: u32, desired: Rect, font_size: FontSize) -> int {
    let ph = desired.height as int * font_size.1 as int;
    match policy {
        Resize::Fit => ph,
        Resize::Crop => if ph <= src_h {
            ph
        } else {
            src_h as int
        },
    }
}

/// The pixel bytes of the policy's output bitmap for a desired rectangle:
/// the source scaled to the rectangle's pixel size for `Fit`, its top-left
/// sub-rectangle for `Crop`.
pub open spec fn spec_policy_pixels(
    policy: Resize,
    src_pixels: Seq<u8>,
    src_w: u32,
    src_h: u32,
    desired: Rect,
    font_size: FontSize,
) -> Seq<u8> {
    match policy {
        Resize::Fit => scaled_of(
            src_pixels,
            src_w,
            src_h,
            (desired.width as int * font_size.0 as int) as u32,
            (desired.height as int * font_size.1 as int) as u32,
        ),
        Resize::Crop => cropped_of(
            src_pixels,
            src_w as int,
            src_h as int,
            desired.width as int * font_size.0 as int,
            desired.height as int * font_size.1 as int,
        ),
    }
}

/// The pixel buffer for the desired rectangle fits in memory.
pub open spec fn px_ok(desired: Rect, font_size: FontSize) -> bool {
    4 * ((desired.width as int) * (font_size.0 as int)) * ((desired.height as int) * (
    font_size.1 as int)) <= usize::MAX
}

/// Compute the policy's desired cell dimensions, as `spec_desired_dims` says.
fn desired_dims(policy: Resize, cw: u16, ch: u16, aw: u16, ah: u16) -> (r: (u16, u16))
    requires
        cw > 0,
        ch > 0,
    ensures
        (r.0 as int, r.1 as int) == spec_desired_dims(policy, cw, ch, aw, ah),
{
    proof {
        assert(ch as int * aw as int <= 65535 * 65535 && cw as int * ah as int <= 65535 * 65535)
            by (nonlinear_arith)
            requires
                ch as int <= 65535,
                aw as int <= 65535,
                cw as int <= 65535,
                ah as int <= 65535,
                0 <= ch as int,
                0 <= aw as int,
                0 <= cw as int,
                0 <= ah as int,
        ;
    }
    match policy {
        Resize::Fit => {
            if cw <= aw && ch <= ah {
                (cw, ch)
            } else {
                let h1r: u32 = ((ch as u32) * (aw as u32)) / (cw as u32);
                let h1: u32 = if h1r > 1 {
                    h1r
                } else {
                    1
                };
                if h1 <= ah as u32 {
                    (aw, h1 as u16)
                } else {
                    let w1r: u32 = ((cw as u32) * (ah as u32)) / (ch as u32);
                    let w1: u32 = if w1r > 1 {
                        w1r
                    } else {
                        1
                    };
                    let w1c: u32 = if w1 <= aw as u32 {
                        w1
                    } else {
                        aw as u32
                    };
                    (w1c as u16, ah)
                }
            }
        },
        Resize::Crop => {
            (
                if cw <= aw {
                    cw
                } else {
                    aw
                },
                if ch <= ah {
                    ch
                } else {
                    ah
                },
            )
        },
    }
}

impl Resize {
    /// The rectangle a `resize` call would produce for this state, or nothing
    /// when the cached encoding already satisfies it.
    pub fn needs_resize(
        &self,
        source: &ImageSource,
        _font_size: FontSize,
        current: Rect,
        area: Rect,
        force: bool,
    ) -> (r: Option<Rect>)
        ensures
            r == spec_needs_resize(*self, *source, current, area, force),
    {
        if source.area.width == 0 || source.area.height == 0 {
            return Option::None;
        }
        let dims = desired_dims(*self, source.area.width, source.area.height, area.width, area.height);
        let desired = Rect { x: area.x, y: area.y, width: dims.0, height: dims.1 };
        if desired.width == 0 || desired.height == 0 {
            Option::None
        } else if desired.x == current.x && desired.y == current.y && desired.width == current.width
            && desired.height == current.height && !force {
            Option::None
        } else {
            Option::Some(desired)
        }
    }

    /// Apply the policy: scale or crop the source bitmap for the desired
    /// rectangle, or nothing when no re-encode is owed or the pixel buffer
    /// would not fit in memory.  The background color is accepted for
    /// interface parity; neither policy here pads with it.
    pub fn resize(
        &self,
        source: &ImageSource,
        font_size: FontSize,
        current: Rect,
        area: Rect,
        _background_color: Rgba,
        force: bool,
    ) -> (r: Option<(Bitmap, Rect)>)
        requires
            source.wf(),
            font_size.0 > 0,
            font_size.1 > 0,
        ensures
            match spec_needs_resize(*self, *source, current, area, force) {
                Option::None => r is None,
                Option::Some(desired) => {
                    if px_ok(desired, font_size) {
                        match r {
                            Option::Some(p) => {
                                &&& p.1 == desired
                                &&& p.0.wf()
                                &&& p.0.width as int == spec_policy_out_w(
                                    *self,
                                    source.image.width,
                                    desired,
                                    font_size,
                                )
                                &&& p.0.height as int == spec_policy_out_h(
                                    *self,
                                    source.image.height,
                                    desired,
                                    font_size,
                                )
                                &&& p.0.pixels@ == spec_policy_pixels(
                                    *self,
                                    source.image.pixels@,
                                    source.image.width,
                                    source.image.height,
                                    desired,
                                    font_size,
                                )
                                &&& (*self == Resize::Fit ==> {
                                    &&& p.0.width as int == desired.width as int
                                        * font_size.0 as int
                                    &&& p.0.height as int == desired.height as int
                                        * font_size.1 as int
                                    &&& p.0.pixels@ == scaled_of(
                                        source.image.pixels@,
                                        source.image.width,
                                        source.image.height,
                                        p.0.width,
                                        p.0.height,
                                    )
                                })
                                &&& (*self == Resize::Crop ==> is_crop_of(
                                    p.0,
                                    source.image,
                                    desired.width as int * font_size.0 as int,
                                    desired.height as int * font_size.1 as int,
                                ))
                            },
                            Option::None => false,
                        }
                    } else {
                        r is None
                    }
                },
            },
    {
        let desired = match self.needs_resize(source, font_size, current, area, force) {
            Option::None => {
                return Option::None;
            },
            Option::Some(d) => d,
        };
        proof {
            assert(1 <= desired.width as int * font_size.0 as int <= 65535 * 65535 && 1
                <= desired.height as int * font_size.1 as int <= 65535 * 65535)
                by (nonlinear_arith)
                requires
                    1 <= desired.width as int <= 65535,
                    1 <= desired.height as int <= 65535,
                    1 <= font_size.0 as int <= 65535,
                    1 <= font_size.1 as int <= 65535,
            ;
        }
        let pw64: u64 = (desired.width as u64) * (font_size.0 as u64);
        let ph64: u64 = (desired.height as u64) * (font_size.1 as u64);
        proof {
            assert(pw64 * ph64 <= 4294836225u64 * 4294836225u64 && 4 * (pw64 * ph64) == 4 * pw64
                * ph64) by (nonlinear_arith)
                requires
                    1 <= pw64 <= 4294836225u64,
                    1 <= ph64 <= 4294836225u64,
            ;
        }
        let prod: u64 = pw64 * ph64;
        if prod > usize::MAX as u64 / 4 {
            proof {
                assert(!px_ok(desired, font_size));
            }
            return Option::None;
        }
        proof {
            assert(4 * prod <= usize::MAX);
            assert(px_ok(desired, font_size));
        }
        let pw: u32 = pw64 as u32;
        let ph: u32 = ph64 as u32;
        match self {
            Resize::Fit => {
                proof {
                    assert(source.image.width > 0 && source.image.height > 0);
                }
                Option::Some((scale_to(&source.image, pw, ph), desired))
            },
            Resize::Crop => Option::Some((crop_to(&source.image, pw, ph), desired)),
        }
    }
}

} // verus!
