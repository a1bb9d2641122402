use yeehaw::term_mouse::{create_cb, create_csi_sgr_mouse, MouseBtn, TermMods, TermMouseKind};

const NONE: TermMods = TermMods { shift: false, alt: false, control: false };

#[test]
fn button_codes() {
    assert_eq!(create_cb(TermMouseKind::Down(MouseBtn::Left), NONE), 0);
    assert_eq!(create_cb(TermMouseKind::Down(MouseBtn::Right), NONE), 2);
    assert_eq!(create_cb(TermMouseKind::Up(MouseBtn::Middle), NONE), 3);
    assert_eq!(create_cb(TermMouseKind::Moved, NONE), 35);
    assert_eq!(create_cb(TermMouseKind::ScrollRight, NONE), 7);
    let m = TermMods { shift: true, alt: false, control: true };
    assert_eq!(create_cb(TermMouseKind::Drag(MouseBtn::Middle), m), 53);
    let all = TermMods { shift: true, alt: true, control: true };
    assert_eq!(create_cb(TermMouseKind::ScrollUp, all), 32);
}

#[test]
fn sgr_reports() {
    assert_eq!(create_csi_sgr_mouse(TermMouseKind::Down(MouseBtn::Left), NONE, 9, 0), b"\x1b[<0;10;1M".to_vec());
    assert_eq!(create_csi_sgr_mouse(TermMouseKind::Up(MouseBtn::Right), NONE, 0, 99), b"\x1b[<3;1;100m".to_vec());
}
