use yeehaw::button::{button_drawing, ButtonMicroShadow, ButtonShadow, ButtonSides, ButtonStyle};
use yeehaw::ch::{ChPlus, DrawChs2D};
use yeehaw::color::SolidColor;
use yeehaw::text_style::TextStyle;

fn text_of(chs: &DrawChs2D<TextStyle>) -> Vec<String> {
    chs.0
        .iter()
        .map(|row| {
            row.iter()
                .map(|c| match c.ch {
                    ChPlus::Char(c) => c,
                    _ => '?',
                })
                .collect()
        })
        .collect()
}

fn current() -> TextStyle {
    TextStyle::default_const().with_fg(SolidColor::new(0, 0, 0)).with_bg(SolidColor::new(200, 100, 50))
}

#[test]
fn shadow_button_not_pressed() {
    let chs = button_drawing(&ButtonStyle::Shadow(ButtonShadow::default()), &"ok".to_string(), false, current());
    assert_eq!(text_of(&chs), vec![" ok ▖".to_string(), "▝▀▀▀▘".to_string()]);
    assert_eq!(chs.0[0][1].style, current());
    let shadow = chs.0[0][4].style;
    assert_eq!(shadow.fg, Some(SolidColor::new(100, 50, 25)));
    assert_eq!(shadow.bg, Some(SolidColor::new_with_alpha(0, 0, 0, 0)));
    assert_eq!(chs.0[1][0].style, shadow);
}

#[test]
fn shadow_button_pressed_moves_right_and_down() {
    let chs = button_drawing(&ButtonStyle::Shadow(ButtonShadow::default()), &"ok".to_string(), true, current());
    assert_eq!(text_of(&chs), vec!["  ok ".to_string(), "     ".to_string()]);
    let blank = TextStyle::default_const().with_bg(SolidColor::new_with_alpha(0, 0, 0, 0));
    assert_eq!(chs.0[0][0].style, blank);
    assert_eq!(chs.0[0][1].style, current());
    assert_eq!(chs.0[1][3].style, blank);
}

#[test]
fn sides_button() {
    let sides = ButtonStyle::Sides(ButtonSides::default());
    let up = button_drawing(&sides, &"go".to_string(), false, current());
    assert_eq!(text_of(&up), vec!["]go[".to_string()]);
    assert_eq!(up.0[0][0].style, current());
    let down = button_drawing(&sides, &"go".to_string(), true, current());
    assert_eq!(text_of(&down), vec![" go ".to_string()]);
    assert_eq!(down.0[0][1].style.bg, Some(SolidColor::new(255, 255, 255)));
}

#[test]
fn basic_button_uses_depressed_style_only_while_pressed() {
    let pressed = TextStyle::default_const().with_bg(SolidColor::new(1, 2, 3));
    let basic = ButtonStyle::Basic(Some(pressed));
    assert_eq!(button_drawing(&basic, &"a\nbc".to_string(), false, current()).0[0][0].style, current());
    let down = button_drawing(&basic, &"a\nbc".to_string(), true, current());
    assert_eq!(text_of(&down), vec!["a ".to_string(), "bc".to_string()]);
    assert_eq!(down.0[1][1].style, pressed);
    let plain = ButtonStyle::Basic(None);
    assert_eq!(button_drawing(&plain, &"a".to_string(), true, current()).0[0][0].style, current());
}

#[test]
fn micro_shadow_button() {
    let m = ButtonStyle::MicroShadow(ButtonMicroShadow::default());
    let up = button_drawing(&m, &"hi".to_string(), false, current());
    assert_eq!(text_of(&up), vec!["hi▎".to_string()]);
    assert_eq!(up.0[0][2].style.fg, Some(SolidColor::new(100, 50, 25)));
    let down = button_drawing(&m, &"hi".to_string(), true, current());
    assert_eq!(text_of(&down), vec!["hi▎".to_string()]);
    assert_eq!(down.0[0][0].style.bg, Some(SolidColor::new(0, 0, 255)));
    // while pressed the shadow takes the pressed background, not darkened
    assert_eq!(down.0[0][2].style.fg, Some(SolidColor::new(0, 0, 255)));
    let given = ButtonMicroShadow::new(Some(SolidColor::new(9, 9, 9)), current());
    let up = button_drawing(&ButtonStyle::MicroShadow(given), &"x".to_string(), false, current());
    assert_eq!(up.0[0][1].style.fg, Some(SolidColor::new(9, 9, 9)));
}
