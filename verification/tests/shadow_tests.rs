use yeehaw::ch::{ChPlus, DrawCh};
use yeehaw::shadow::ShadowSty;
use yeehaw::text_style::TextStyle;

fn ch(c: char) -> DrawCh<TextStyle> {
    DrawCh::new(ChPlus::Char(c), TextStyle::default_const())
}

#[test]
fn shadow_surrounds_bottom_and_right() {
    let sty = ShadowSty {
        bottom_left: ch('a'),
        bottom_middle: ch('b'),
        bottom_right: ch('c'),
        right: ch('d'),
        top_right: ch('e'),
    };
    let v = sty.set_shadow_content(3, 2);
    let got: Vec<(ChPlus, u16, u16)> = v.into_iter().map(|p| (p.ch.ch, p.x, p.y)).collect();
    assert_eq!(
        got,
        vec![
            (ChPlus::Char('a'), 0, 2),
            (ChPlus::Char('e'), 3, 0),
            (ChPlus::Char('c'), 3, 2),
            (ChPlus::Char('b'), 1, 2),
            (ChPlus::Char('b'), 2, 2),
            (ChPlus::Char('d'), 3, 1),
        ]
    );
    assert_eq!(sty.set_shadow_content(0, 0).len(), 3);
}
