use yeehaw::color::SolidColor;
use yeehaw::text_style::TextStyle;
use yeehaw::toggle::{Toggle, ToggleEvent, ToggleKey};

#[test]
fn toggle_keys_switch_sides() {
    let mut t = Toggle::new("ON".to_string(), "OFF".to_string());
    assert_eq!(t.width(), 5);
    assert_eq!(t.selected(), "ON");
    // keys do nothing while the toggle is not selected
    assert_eq!(t.receive_event(ToggleEvent::Keys(Some(ToggleKey::Enter)), false, false), (false, None));
    assert_eq!(t.receive_event(ToggleEvent::Keys(Some(ToggleKey::Enter)), true, false), (true, Some("OFF".to_string())));
    assert!(!t.left_selected);
    assert_eq!(t.receive_event(ToggleEvent::Keys(Some(ToggleKey::Right)), true, false), (true, None));
    assert_eq!(t.receive_event(ToggleEvent::Keys(Some(ToggleKey::Left)), true, false), (true, Some("ON".to_string())));
    assert_eq!(t.receive_event(ToggleEvent::Keys(Some(ToggleKey::Left)), true, false), (true, None));
    assert_eq!(t.receive_event(ToggleEvent::Keys(Some(ToggleKey::Other)), true, false), (false, None));
    assert_eq!(t.receive_event(ToggleEvent::Keys(None), true, false), (false, None));
    // a captured event changes nothing
    assert_eq!(t.receive_event(ToggleEvent::Keys(Some(ToggleKey::Enter)), true, true), (true, None));
    assert!(t.left_selected);
}

#[test]
fn toggle_click_on_other_side() {
    let mut t = Toggle::new("ON".to_string(), "OFF".to_string());
    // a release without a press does nothing
    assert_eq!(t.receive_event(ToggleEvent::LeftUp(3), true, false), (false, None));
    assert_eq!(t.receive_event(ToggleEvent::LeftDown, true, false), (true, None));
    assert!(t.clicked_down);
    assert_eq!(t.receive_event(ToggleEvent::LeftDrag, true, false), (false, None));
    assert!(t.clicked_down);
    assert_eq!(t.receive_event(ToggleEvent::LeftUp(3), true, false), (true, Some("OFF".to_string())));
    assert!(!t.clicked_down);
    // releasing over the side already selected does not toggle
    t.receive_event(ToggleEvent::LeftDown, true, false);
    assert_eq!(t.receive_event(ToggleEvent::LeftUp(4), true, false), (false, None));
    t.receive_event(ToggleEvent::LeftDown, true, false);
    assert_eq!(t.receive_event(ToggleEvent::OtherMouse, true, false), (false, None));
    assert!(!t.clicked_down);
    assert_eq!(t.perform_toggle(), "ON");
}

#[test]
fn toggle_styles_mark_selected_side() {
    let mut t = Toggle::new("ab".to_string(), "c".to_string());
    let base = TextStyle::default_const().with_bg(SolidColor::new(1, 2, 3));
    let sel = t.selected_sty;
    assert_eq!(t.column_styles(base), vec![sel, sel, base]);
    t.perform_toggle();
    assert_eq!(t.column_styles(base), vec![base, base, sel]);
}
