use ratatui_image::picker::{
    build_query, detect_tmux_and_outer_protocol_from_env, iterm2_from_env, resolve_capabilities,
    ParsedResponse, Parser, Picker, ProtocolType, TermEnv,
};
use ratatui_image::picker::font_size_fallback;
use ratatui_image::Error;

#[test]
fn test_cycle_protocol() {
    let mut proto = ProtocolType::Halfblocks;
    proto = proto.next();
    assert_eq!(proto, ProtocolType::Sixel);
    proto = proto.next();
    assert_eq!(proto, ProtocolType::Kitty);
    proto = proto.next();
    assert_eq!(proto, ProtocolType::Iterm2);
    proto = proto.next();
    assert_eq!(proto, ProtocolType::Halfblocks);
}

#[test]
fn test_parse_all() {
    for (name, str, expected) in vec![
        (
            "all",
            "\x1b_Gi=31;OK\x1b\\\x1b[?64;4c\x1b[6;7;14t\x1b[0n",
            vec![
                ParsedResponse::Kitty(true),
                ParsedResponse::Sixel(true),
                ParsedResponse::CellSize(Some((14, 7))),
                ParsedResponse::Status,
            ],
        ),
        ("only garbage", "\x1bhonkey\x1btonkey\x1b[42\x1b\\", vec![]),
        (
            "preceding garbage",
            "\x1bgarbage...\x1b[?64;5c\x1b[0n",
            vec![ParsedResponse::Sixel(false), ParsedResponse::Status],
        ),
        (
            "inner garbage",
            "\x1b[6;7;14t\x1bgarbage...\x1b[?64;5c\x1b[0n",
            vec![
                ParsedResponse::CellSize(Some((14, 7))),
                ParsedResponse::Sixel(false),
                ParsedResponse::Status,
            ],
        ),
    ] {
        let mut parser = Parser::new();
        let mut caps = vec![];
        for ch in str.chars() {
            if let Some(cap) = parser.push(ch) {
                caps.push(cap);
            }
        }
        assert_eq!(caps, expected, "{name}");
    }
}

#[test]
fn test_parse_cell_size_shapes() {
    // A malformed cell-size reply (zero height) yields CellSize(None).
    let mut parser = Parser::new();
    let mut caps = vec![];
    for ch in "\x1b[6;0;14t".chars() {
        if let Some(cap) = parser.push(ch) {
            caps.push(cap);
        }
    }
    assert_eq!(caps, vec![ParsedResponse::CellSize(None)]);

    // Only two fields: not a well-formed reply body.
    let mut parser = Parser::new();
    let mut caps = vec![];
    for ch in "\x1b[6;14t".chars() {
        if let Some(cap) = parser.push(ch) {
            caps.push(cap);
        }
    }
    assert_eq!(caps, vec![ParsedResponse::CellSize(None)]);

    // A leading plus parses the way the standard library parses numbers.
    let mut parser = Parser::new();
    let mut caps = vec![];
    for ch in "\x1b[6;+7;14t".chars() {
        if let Some(cap) = parser.push(ch) {
            caps.push(cap);
        }
    }
    assert_eq!(caps, vec![ParsedResponse::CellSize(Some((14, 7)))]);
}

#[test]
fn test_kitty_ack_must_match_exactly() {
    let mut parser = Parser::new();
    let mut caps = vec![];
    for ch in "\x1b_Gi=31;NO\x1b\\".chars() {
        if let Some(cap) = parser.push(ch) {
            caps.push(cap);
        }
    }
    assert_eq!(caps, vec![ParsedResponse::Kitty(false)]);
}

#[test]
fn test_query_wire_format() {
    assert_eq!(
        build_query(false),
        "\x1b_Gi=31,s=1,v=1,a=q,t=d,f=24;AAAA\x1b\\\x1b[c\x1b[16t\x1b[1337n\x1b[5n"
    );
    assert_eq!(
        build_query(true),
        "\x1bPtmux;\x1b\x1b_Gi=31,s=1,v=1,a=q,t=d,f=24;AAAA\x1b\x1b\\\x1b\x1b[c\x1b\x1b[16t\x1b\x1b[1337n\x1b\x1b[5n\x1b\\"
    );
}

#[test]
fn test_resolve_capabilities_cases() {
    let empty: Vec<ParsedResponse> = vec![];
    assert_eq!(resolve_capabilities(&empty), Err(Error::ProbeNoReply));

    let caps = vec![
        ParsedResponse::Kitty(true),
        ParsedResponse::Sixel(true),
        ParsedResponse::CellSize(Some((14, 7))),
        ParsedResponse::Status,
    ];
    assert_eq!(
        resolve_capabilities(&caps),
        Ok((Some(ProtocolType::Kitty), Some((14, 7))))
    );

    let caps = vec![ParsedResponse::Sixel(true), ParsedResponse::Status];
    assert_eq!(resolve_capabilities(&caps), Ok((Some(ProtocolType::Sixel), None)));

    let caps = vec![ParsedResponse::Sixel(false), ParsedResponse::Status];
    assert_eq!(resolve_capabilities(&caps), Ok((None, None)));
}

fn env_of(pairs: &[(&str, &str)]) -> TermEnv {
    let get = |k: &str| -> Option<Vec<char>> {
        pairs
            .iter()
            .find(|(n, _)| *n == k)
            .map(|(_, v)| v.chars().collect())
    };
    TermEnv {
        term: get("TERM"),
        term_program: get("TERM_PROGRAM"),
        lc_terminal: get("LC_TERMINAL"),
        kitty_window_id: get("KITTY_WINDOW_ID"),
        iterm_session_id: get("ITERM_SESSION_ID"),
        wezterm_executable: get("WEZTERM_EXECUTABLE"),
    }
}

#[test]
fn test_env_detection() {
    let env = env_of(&[("TERM", "xterm-256color")]);
    assert_eq!(detect_tmux_and_outer_protocol_from_env(&env), (false, None));
    assert_eq!(iterm2_from_env(&env), None);

    let env = env_of(&[("TERM", "tmux-256color"), ("KITTY_WINDOW_ID", "1")]);
    assert_eq!(
        detect_tmux_and_outer_protocol_from_env(&env),
        (true, Some(ProtocolType::Kitty))
    );

    let env = env_of(&[("TERM_PROGRAM", "tmux"), ("WEZTERM_EXECUTABLE", "/bin/wezterm")]);
    assert_eq!(
        detect_tmux_and_outer_protocol_from_env(&env),
        (true, Some(ProtocolType::Iterm2))
    );

    let env = env_of(&[("TERM_PROGRAM", "WezTerm")]);
    assert_eq!(iterm2_from_env(&env), Some(ProtocolType::Iterm2));

    let env = env_of(&[("LC_TERMINAL", "iTerm2")]);
    assert_eq!(iterm2_from_env(&env), Some(ProtocolType::Iterm2));
}

#[test]
fn test_from_probe_precedence_and_failure() {
    // The font size is mandatory.
    assert!(Picker::from_probe(None, None, None, None, false).is_err());
    assert_eq!(
        Picker::from_probe(None, None, None, None, false).unwrap_err(),
        Error::ProbeNoReply
    );

    // Hint precedence: the iTerm2-family hint, then the tmux outer hint,
    // then parsed capabilities, then the mosaic fallback.
    let p = Picker::from_probe(
        Some((7, 14)),
        Some(ProtocolType::Kitty),
        Some(ProtocolType::Iterm2),
        Some(ProtocolType::Sixel),
        true,
    )
    .unwrap();
    assert_eq!(p.protocol_type(), ProtocolType::Iterm2);
    assert_eq!(p.font_size(), (7, 14));

    let p = Picker::from_probe(
        Some((7, 14)),
        Some(ProtocolType::Kitty),
        None,
        Some(ProtocolType::Sixel),
        true,
    )
    .unwrap();
    assert_eq!(p.protocol_type(), ProtocolType::Kitty);

    let p = Picker::from_probe(Some((7, 14)), None, None, Some(ProtocolType::Sixel), false)
        .unwrap();
    assert_eq!(p.protocol_type(), ProtocolType::Sixel);

    let p = Picker::from_probe(Some((7, 14)), None, None, None, false).unwrap();
    assert_eq!(p.protocol_type(), ProtocolType::Halfblocks);
}

#[test]
fn test_font_size_fallback_division() {
    assert_eq!(font_size_fallback(800, 600, 100, 50), Some((8, 12)));
    assert_eq!(font_size_fallback(0, 600, 100, 50), None);
    assert_eq!(font_size_fallback(800, 600, 0, 50), None);
}
