use yeehaw::ansi::{color, layout_ansi_text, parse_u8, style_f, AnsiCode, AnsiItem, ColorType};
use yeehaw::ch::ChPlus;
use yeehaw::text_style::{get_chs_2d, TextStyle};
use yeehaw::ansi::color_type;
use yeehaw::color::{AnsiColor, Rgba, SolidColor};

#[test]
fn test_get_chs_2d_simple() {
    let s = b"ab\nc";
    let chs = get_chs_2d(s, TextStyle::default_const());
    assert_eq!(chs.width(), 2);
    assert_eq!(chs.height(), 2);
    // Row 0
    assert_eq!(chs.0[0][0].ch, ChPlus::Char('a'));
    assert_eq!(chs.0[0][1].ch, ChPlus::Char('b'));
    // Row 1
    assert_eq!(chs.0[1][0].ch, ChPlus::Char('c'));
}

#[test]
fn test_get_chs_2d_ansi_color() {
    // Red foreground for 'X', then reset, then normal 'Y'
    let s = b"\x1b[31mX\x1b[0mY";
    let chs = get_chs_2d(s, TextStyle::default_const());
    assert_eq!(chs.width(), 2);
    // First character should have red foreground
    match &chs.0[0][0].style.fg {
        Some(SolidColor::ANSI(AnsiColor::DarkRed)) => {}
        _ => panic!("First char does not have expected red foreground"),
    }
    // Second character should have no foreground set (default)
    assert!(chs.0[0][1].style.fg.is_none());
}

#[test]
fn get_chs_2d_styles_attributes_and_pads_with_the_base_style() {
    let mut base = TextStyle::default_const();
    base.bg = Some(SolidColor::ANSI(AnsiColor::Blue));
    let chs = get_chs_2d(b"a\n\x1b[1;38;5;3mb\x1b[22;49mc\x1b[mdd", base);
    assert_eq!(chs.height(), 2);
    assert_eq!(chs.0[0][0].style, base);
    let b = chs.0[1][0].style;
    assert!(b.attr.bold);
    assert_eq!(b.fg, Some(SolidColor::ANSI(AnsiColor::AnsiValue(3))));
    assert_eq!(b.bg, Some(SolidColor::ANSI(AnsiColor::Blue)));
    let c = chs.0[1][1].style;
    assert!(!c.attr.bold);
    assert_eq!(c.fg, Some(SolidColor::ANSI(AnsiColor::AnsiValue(3))));
    assert_eq!(c.bg, Some(SolidColor::ANSI(AnsiColor::Reset)));
    // an SGR code without parameters resets to the plain style, not to the base style
    assert_eq!(chs.0[1][2].style, TextStyle::default_const());
    assert_eq!(chs.0[1][3].ch, ChPlus::Char('d'));
}

#[test]
fn with_sgr_applies_items_in_order() {
    let st = TextStyle::default_const();
    let items = vec![
        AnsiItem { code: AnsiCode::Bold, color: None },
        AnsiItem { code: AnsiCode::Italic, color: None },
        AnsiItem { code: AnsiCode::Reset, color: None },
        AnsiItem { code: AnsiCode::Underline, color: None },
        AnsiItem { code: AnsiCode::SetBackgroundColor, color: None },
    ];
    let r = st.with_sgr(&items);
    assert!(!r.attr.bold && !r.attr.italic && r.attr.underlined);
    assert_eq!(r.bg, None);
    let mut set = TextStyle::default_const();
    set.attr.hidden = true;
    assert_eq!(set.with_sgr(&vec![]), TextStyle::default_const());
}

#[test]
fn color_test() {
    let s = b"2;255;255;255";
    let c = color(s, 0).unwrap();
    assert_eq!(c.0, SolidColor::new(255, 255, 255));
    assert_eq!(c.1, s.len());
    let s = b"5;255";
    let c = color(s, 0).unwrap();
    assert_eq!(c.0, SolidColor::ANSI(AnsiColor::AnsiValue(255)));
    let err = color(b"10;255", 0);
    assert_ne!(err, Some(c));
    assert_eq!(err, None);
}

#[test]
fn ansi_items_test() {
    let s = b"\x1b[38;2;3;3;3m";
    let t = style_f(s, 0);
    assert_eq!(t.1, s.len());
    assert_eq!(
        t.0.unwrap(),
        vec![AnsiItem { code: AnsiCode::SetForegroundColor, color: Some(SolidColor::new(3, 3, 3)) }]
    );
    assert_eq!(
        style_f(b"\x1b[38;5;3m", 0).0.unwrap(),
        vec![AnsiItem {
            code: AnsiCode::SetForegroundColor,
            color: Some(SolidColor::ANSI(AnsiColor::AnsiValue(3)))
        }]
    );
    assert_eq!(
        style_f(b"\x1b[38;5;3;48;5;3m", 0).0.unwrap(),
        vec![
            AnsiItem {
                code: AnsiCode::SetForegroundColor,
                color: Some(SolidColor::ANSI(AnsiColor::AnsiValue(3)))
            },
            AnsiItem {
                code: AnsiCode::SetBackgroundColor,
                color: Some(SolidColor::ANSI(AnsiColor::AnsiValue(3)))
            }
        ]
    );
    assert_eq!(
        style_f(b"\x1b[38;5;3;48;5;3;1m", 0).0.unwrap(),
        vec![
            AnsiItem {
                code: AnsiCode::SetForegroundColor,
                color: Some(SolidColor::ANSI(AnsiColor::AnsiValue(3)))
            },
            AnsiItem {
                code: AnsiCode::SetBackgroundColor,
                color: Some(SolidColor::ANSI(AnsiColor::AnsiValue(3)))
            },
            AnsiItem { code: AnsiCode::Bold, color: None }
        ]
    );
}

#[test]
fn from_code_names_and_unknown_codes() {
    assert_eq!(AnsiCode::from_code(0), AnsiCode::Reset);
    assert_eq!(AnsiCode::from_code(1), AnsiCode::Bold);
    assert_eq!(AnsiCode::from_code(31), AnsiCode::ForegroundColor(SolidColor::ANSI(AnsiColor::DarkRed)));
    assert_eq!(AnsiCode::from_code(44), AnsiCode::BackgroundColor(SolidColor::ANSI(AnsiColor::DarkBlue)));
    assert_eq!(AnsiCode::from_code(97), AnsiCode::ForegroundColor(SolidColor::ANSI(AnsiColor::White)));
    // 107 is the bright white background
    assert_eq!(AnsiCode::from_code(107), AnsiCode::BackgroundColor(SolidColor::ANSI(AnsiColor::White)));
    assert_eq!(AnsiCode::from_code(26), AnsiCode::Code(vec![26]));
    assert_eq!(AnsiCode::from_code(200), AnsiCode::Code(vec![200]));
}

#[test]
fn parse_u8_bounds() {
    assert_eq!(parse_u8(b"255;", 0), Some((255, 3)));
    assert_eq!(parse_u8(b"0", 0), Some((0, 1)));
    assert_eq!(parse_u8(b"256", 0), None);
    assert_eq!(parse_u8(b";1", 0), None);
    assert_eq!(parse_u8(b"x12", 1), Some((12, 3)));
}

#[test]
fn color_type_values() {
    // the type must be followed by a semicolon
    assert_eq!(color_type(b"2;", 0), Some((ColorType::TrueColor, 2)));
    assert_eq!(color_type(b"5;", 0), Some((ColorType::EightBit, 2)));
    assert_eq!(color_type(b"2", 0), None);
    assert_eq!(color_type(b"3;", 0), None);
}

#[test]
fn layout_multibyte_and_other_escapes() {
    // a two-byte character takes one cell; a cursor escape is skipped without being recorded
    let s = "é\x1b[2Jz".as_bytes();
    let chs = layout_ansi_text(s);
    assert_eq!(chs.rows.len(), 1);
    assert_eq!(chs.rows[0], vec![('é', 0), ('z', 0)]);
    assert_eq!(chs.sgr_codes.len(), 0);
}

#[test]
fn layout_skips_invalid_bytes() {
    // while the remaining bytes are not all valid text, one byte is skipped at a time: the
    // character before a lone continuation byte is lost too
    let s = [b'a', 0x80, b'b'];
    let chs = layout_ansi_text(&s);
    assert_eq!(chs.rows[0].iter().map(|c| c.0).collect::<String>(), "b");
}

#[test]
fn layout_blank_lines() {
    let chs = layout_ansi_text(b"a\n\nb");
    assert_eq!(chs.rows.len(), 3);
    assert_eq!(chs.rows[0].len(), 1);
    assert_eq!(chs.rows[1].len(), 0);
    assert_eq!(chs.rows[2][0].0, 'b');
}

#[test]
fn rgb_item_is_true_color() {
    let c = color(b"2;1;2;3", 0).unwrap();
    assert_eq!(c.0, SolidColor::Rgba(Rgba::new(1, 2, 3)));
}
