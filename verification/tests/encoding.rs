use base64::Engine;
use ratatui_image::bitmap::{Bitmap, Rgba};
use ratatui_image::buffer::Buffer;
use ratatui_image::geometry::Rect;
use ratatui_image::picker::{Picker, ProtocolType, TermEnv};
use ratatui_image::protocol::iterm2::FixedIterm2;
use ratatui_image::protocol::kitty::Kitty;
use ratatui_image::protocol::{ImageSource, Protocol, StatefulProtocol};
use ratatui_image::resize::Resize;

fn no_env() -> TermEnv {
    TermEnv {
        term: None,
        term_program: None,
        lc_terminal: None,
        kitty_window_id: None,
        iterm_session_id: None,
        wezterm_executable: None,
    }
}

fn solid(width: u32, height: u32, px: [u8; 4]) -> Bitmap {
    let mut pixels = Vec::new();
    for _ in 0..width * height {
        pixels.extend_from_slice(&px);
    }
    Bitmap::new(width, height, pixels)
}

fn transparent() -> Rgba {
    Rgba { r: 0, g: 0, b: 0, a: 0 }
}

#[test]
fn test_footprint_ceiling() {
    let s = ImageSource::new(solid(70, 140, [1, 2, 3, 255]), (7, 14), transparent());
    assert_eq!(s.area, Rect { x: 0, y: 0, width: 10, height: 10 });

    let s = ImageSource::new(solid(71, 141, [1, 2, 3, 255]), (7, 14), transparent());
    assert_eq!(s.area, Rect { x: 0, y: 0, width: 11, height: 11 });

    let s = ImageSource::new(solid(1, 1, [1, 2, 3, 255]), (7, 14), transparent());
    assert_eq!(s.area, Rect { x: 0, y: 0, width: 1, height: 1 });
}

#[test]
fn test_fingerprint_ignores_background() {
    let a = ImageSource::new(solid(4, 4, [9, 8, 7, 128]), (1, 2), transparent());
    let b = ImageSource::new(
        solid(4, 4, [9, 8, 7, 128]),
        (1, 2),
        Rgba { r: 255, g: 0, b: 0, a: 255 },
    );
    assert_eq!(a.hash, b.hash);

    let c = ImageSource::new(solid(4, 4, [9, 8, 6, 128]), (1, 2), transparent());
    assert_ne!(a.hash, c.hash);
}

#[test]
fn test_compositing_bakes_background() {
    // A fully transparent image over an opaque red background becomes red.
    let src = ImageSource::new(
        solid(2, 2, [0, 0, 0, 0]),
        (1, 1),
        Rgba { r: 255, g: 0, b: 0, a: 255 },
    );
    assert_eq!(src.image.width, 2);
    assert_eq!(src.image.height, 2);
    for px in src.image.pixels.chunks(4) {
        assert_eq!(px[0], 255);
        assert_eq!(px[1], 0);
        assert_eq!(px[2], 0);
        assert_eq!(px[3], 255);
    }

    // A fully transparent background leaves the image untouched.
    let src = ImageSource::new(solid(2, 2, [5, 6, 7, 8]), (1, 1), transparent());
    assert_eq!(src.image.pixels, solid(2, 2, [5, 6, 7, 8]).pixels);
}

#[test]
fn test_iterm2_payload_round_trips_png() {
    let bitmap = solid(2, 2, [10, 20, 30, 255]);
    let source = ImageSource::new(bitmap, (1, 1), transparent());
    let fixed = FixedIterm2::from_source(
        &source,
        (1, 1),
        Resize::Fit,
        transparent(),
        false,
        Rect { x: 0, y: 0, width: 2, height: 2 },
    )
    .unwrap();
    assert_eq!(fixed.area, Rect { x: 0, y: 0, width: 2, height: 2 });
    let data = &fixed.data;
    assert!(data.starts_with("\x1b]1337;File=inline=1;size="));
    assert!(data.contains(";width=2px;height=2px;doNotMoveCursor=1:"));
    assert!(data.ends_with("\x07"));
    let b64 = data.split(':').nth(1).unwrap().trim_end_matches('\x07');
    let png = base64::engine::general_purpose::STANDARD.decode(b64).unwrap();
    let decoded = image::load_from_memory(&png).unwrap().to_rgba8();
    assert_eq!(decoded.width(), 2);
    assert_eq!(decoded.height(), 2);
    assert_eq!(decoded.into_raw(), solid(2, 2, [10, 20, 30, 255]).pixels);
}

#[test]
fn test_kitty_payload_carries_cropped_pixels() {
    // A 4x4 image cropped into a 2x2 cell area with a 1x1 font: the payload
    // holds exactly the top-left 2x2 pixels, raw RGBA, base64-encoded.
    let mut pixels = Vec::new();
    for i in 0..64u32 {
        pixels.push(i as u8);
    }
    let bitmap = Bitmap::new(4, 4, pixels.clone());
    let source = ImageSource::new(bitmap, (1, 1), transparent());
    let kitty = Kitty::from_source(
        &source,
        (1, 1),
        Resize::Crop,
        transparent(),
        Rect { x: 0, y: 0, width: 2, height: 2 },
        7,
        false,
    )
    .unwrap();
    assert_eq!(kitty.id, 7);
    assert_eq!(kitty.area, Rect { x: 0, y: 0, width: 2, height: 2 });
    let data = &kitty.data;
    assert!(data.starts_with("\x1b_Ga=T,q=2,f=32,i=7,s=2,v=2,c=2,r=2;"));
    assert!(data.ends_with("\x1b\\"));
    let b64 = data.split(';').nth(1).unwrap().trim_end_matches("\x1b\\");
    let raw = base64::engine::general_purpose::STANDARD.decode(b64).unwrap();
    let expected: Vec<u8> = vec![
        // Row 0, pixels 0 and 1.
        0, 1, 2, 3, 4, 5, 6, 7,
        // Row 1, pixels 4 and 5 of the 4-wide source.
        16, 17, 18, 19, 20, 21, 22, 23,
    ];
    assert_eq!(raw, expected);
}

#[test]
fn test_halfblock_cells_sample_pixel_pairs() {
    // Font (1, 2): each cell covers one column and two pixel rows, so the
    // scaled bitmap equals the source and sampling is exact.
    let mut pixels = Vec::new();
    for i in 0..16u32 {
        pixels.extend_from_slice(&[i as u8, 0, 0, 255]);
    }
    let bitmap = Bitmap::new(2, 8, pixels);
    let mut picker = Picker::from_fontsize((1, 2), &no_env());
    assert_eq!(picker.protocol_type(), ProtocolType::Halfblocks);
    let proto = picker
        .new_protocol(bitmap, Rect { x: 0, y: 0, width: 2, height: 4 }, Resize::Fit)
        .unwrap();
    let hb = match proto {
        Protocol::Halfblocks(hb) => hb,
        _ => panic!("expected the mosaic variant"),
    };
    assert_eq!(hb.area, Rect { x: 0, y: 0, width: 2, height: 4 });
    assert_eq!(hb.cells.len(), 8);
    // Cell (0, 0) samples pixels (0, 0) and (0, 1): red values 0 and 2.
    assert_eq!(hb.cells[0].0.r, 0);
    assert_eq!(hb.cells[0].1.r, 2);
    // Cell (1, 0) samples pixels (1, 0) and (1, 1): red values 1 and 3.
    assert_eq!(hb.cells[1].0.r, 1);
    assert_eq!(hb.cells[1].1.r, 3);

    // Rendering paints every covered cell with the half-block glyph.
    let mut buf = Buffer::empty(Rect { x: 0, y: 0, width: 2, height: 4 });
    let proto = Protocol::Halfblocks(hb);
    proto.render(Rect { x: 0, y: 0, width: 2, height: 4 }, &mut buf);
    let cell = buf.cell_at(0, 0).unwrap();
    assert_eq!(cell.symbol, "\u{2580}");
    assert_eq!(cell.fg, Some(Rgba { r: 0, g: 0, b: 0, a: 255 }));
    assert_eq!(cell.bg, Some(Rgba { r: 2, g: 0, b: 0, a: 255 }));
}

#[test]
fn test_fixed_render_refuses_when_too_big() {
    let bitmap = solid(4, 4, [1, 1, 1, 255]);
    let source = ImageSource::new(bitmap, (1, 1), transparent());
    let fixed = FixedIterm2::from_source(
        &source,
        (1, 1),
        Resize::Fit,
        transparent(),
        false,
        Rect { x: 0, y: 0, width: 4, height: 4 },
    )
    .unwrap();
    // Too small a target: nothing is drawn.
    let mut buf = Buffer::empty(Rect { x: 0, y: 0, width: 3, height: 3 });
    fixed.render(Rect { x: 0, y: 0, width: 3, height: 3 }, &mut buf);
    for y in 0..3 {
        for x in 0..3 {
            let cell = buf.cell_at(x, y).unwrap();
            assert_eq!(cell.symbol, "");
            assert!(!cell.skip);
        }
    }
    // A fitting target: the payload in the corner cell, skip elsewhere.
    let mut buf = Buffer::empty(Rect { x: 0, y: 0, width: 5, height: 5 });
    fixed.render(Rect { x: 0, y: 0, width: 5, height: 5 }, &mut buf);
    assert_eq!(buf.cell_at(0, 0).unwrap().symbol, fixed.data);
    assert!(!buf.cell_at(0, 0).unwrap().skip);
    assert!(buf.cell_at(1, 0).unwrap().skip);
    assert!(buf.cell_at(3, 3).unwrap().skip);
    assert!(!buf.cell_at(4, 4).unwrap().skip);
}

#[test]
fn test_needs_resize_after_encode() {
    let bitmap = solid(70, 140, [1, 2, 3, 255]);
    let mut picker = Picker::from_fontsize((7, 14), &no_env());
    picker.set_protocol_type(ProtocolType::Iterm2);
    let mut proto = picker.new_resize_protocol(bitmap);
    let area = Rect { x: 0, y: 0, width: 10, height: 10 };
    let rect = proto.needs_resize(&Resize::Fit, area);
    assert!(rect.is_some());
    proto.resize_encode(&Resize::Fit, transparent(), rect.unwrap());
    // Same area, unchanged source: the cached encoding satisfies it.
    assert_eq!(proto.needs_resize(&Resize::Fit, area), None);
    // A changed area makes a re-encode owed again.
    let smaller = Rect { x: 0, y: 0, width: 5, height: 5 };
    assert!(proto.needs_resize(&Resize::Fit, smaller).is_some());

    // A changed source fingerprint makes one owed even for the same area.
    let mut proto = match proto {
        StatefulProtocol::ITerm2(state) => state,
        _ => panic!("expected the iTerm2 variant"),
    };
    proto.source = ImageSource::new(solid(70, 140, [4, 5, 6, 255]), (7, 14), transparent());
    assert!(proto.needs_resize(&Resize::Fit, area).is_some());
}

#[test]
fn test_kitty_ids_are_minted_and_nonzero() {
    let mut picker = Picker::from_fontsize((7, 14), &no_env());
    picker.set_protocol_type(ProtocolType::Kitty);
    let a = picker.new_resize_protocol(solid(7, 14, [1, 1, 1, 255]));
    let b = picker.new_resize_protocol(solid(7, 14, [1, 1, 1, 255]));
    let (ia, ib) = match (a, b) {
        (StatefulProtocol::Kitty(a), StatefulProtocol::Kitty(b)) => (a.current.id, b.current.id),
        _ => panic!("expected the kitty variant"),
    };
    assert_ne!(ia, 0);
    assert_ne!(ib, 0);
    assert!(ib == ia.wrapping_add(1) || (ia == u32::MAX && ib == 1));
}

#[test]
fn test_end_to_end_fit_preserves_shape() {
    let bitmap = solid(70, 140, [1, 2, 3, 255]);
    let mut picker = Picker::from_fontsize((7, 14), &no_env());
    picker.set_protocol_type(ProtocolType::Iterm2);
    let proto = picker
        .new_protocol(bitmap, Rect { x: 0, y: 0, width: 10, height: 10 }, Resize::Fit)
        .unwrap();
    let fixed = match proto {
        Protocol::ITerm2(f) => f,
        _ => panic!("expected the iTerm2 variant"),
    };
    assert!(fixed.area.width <= 10 && fixed.area.height <= 10);
    // 70x140 pixels in 7x14-pixel cells is exactly 10x10 cells; the pixel
    // aspect ratio is preserved exactly here.
    assert_eq!(fixed.area.width, 10);
    assert_eq!(fixed.area.height, 10);
}

#[test]
fn test_sixel_envelope() {
    let bitmap = solid(2, 2, [200, 100, 50, 255]);
    let source = ImageSource::new(bitmap, (1, 1), transparent());
    let sixel = ratatui_image::protocol::sixel::Sixel::from_source(
        &source,
        (1, 1),
        Resize::Fit,
        transparent(),
        false,
        Rect { x: 0, y: 0, width: 2, height: 2 },
    )
    .unwrap();
    assert!(sixel.data.starts_with("\x1bPq"));
    assert!(sixel.data.ends_with("\x1b\\"));
    assert!(sixel.data.contains("\"1;1;2;2"));
}

#[test]
fn test_tmux_envelope_doubles_escapes() {
    let bitmap = solid(2, 2, [1, 2, 3, 255]);
    let source = ImageSource::new(bitmap, (1, 1), transparent());
    let fixed = FixedIterm2::from_source(
        &source,
        (1, 1),
        Resize::Fit,
        transparent(),
        true,
        Rect { x: 0, y: 0, width: 2, height: 2 },
    )
    .unwrap();
    assert!(fixed.data.starts_with("\x1bPtmux;\x1b\x1b]1337;File=inline=1;size="));
    assert!(fixed.data.ends_with("\x07\x1b\\"));
}

#[test]
fn test_fit_shrinks_preserving_shape() {
    // A square image into a wide, short area: the height is the limit and
    // the width follows it.
    let source = ImageSource::new(solid(100, 100, [1, 1, 1, 255]), (1, 1), transparent());
    let desired = Resize::Fit.needs_resize(
        &source,
        (1, 1),
        Rect { x: 0, y: 0, width: 0, height: 0 },
        Rect { x: 0, y: 0, width: 10, height: 7 },
        false,
    );
    assert_eq!(desired, Some(Rect { x: 0, y: 0, width: 7, height: 7 }));

    // Crop instead clips to the area exactly.
    let desired = Resize::Crop.needs_resize(
        &source,
        (1, 1),
        Rect { x: 0, y: 0, width: 0, height: 0 },
        Rect { x: 0, y: 0, width: 10, height: 7 },
        false,
    );
    assert_eq!(desired, Some(Rect { x: 0, y: 0, width: 10, height: 7 }));
}

#[test]
fn test_sixel_and_kitty_encodes_succeed() {
    // The sixel encode has no failure; the transmit encode succeeds for any
    // bitmap whose raw bytes fit the length guard.
    let mut picker = Picker::from_fontsize((1, 1), &no_env());
    picker.set_protocol_type(ProtocolType::Sixel);
    let p = picker.new_protocol(
        solid(3, 3, [1, 2, 3, 255]),
        Rect { x: 0, y: 0, width: 3, height: 3 },
        Resize::Fit,
    );
    assert!(matches!(p, Ok(Protocol::Sixel(_))));

    picker.set_protocol_type(ProtocolType::Kitty);
    let p = picker.new_protocol(
        solid(3, 3, [1, 2, 3, 255]),
        Rect { x: 0, y: 0, width: 3, height: 3 },
        Resize::Fit,
    );
    assert!(matches!(p, Ok(Protocol::Kitty(_))));
}
