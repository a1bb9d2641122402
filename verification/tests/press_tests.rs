use yeehaw::press::{
    button_event, checkbox_click, checkbox_event, checkbox_text, CheckboxState, PressEvent, PressStep,
};

fn step(clicked_down: bool, click: bool, redraw: bool, captured: bool, keep_responses: bool) -> PressStep {
    PressStep { clicked_down, click, redraw, captured, keep_responses }
}

const ENTER: PressEvent = PressEvent::Keys { empty: false, enter_first: true };
const OTHER_KEY: PressEvent = PressEvent::Keys { empty: false, enter_first: false };

#[test]
fn button_press_and_release_clicks() {
    let s1 = button_event(false, false, false, PressEvent::LeftDown);
    assert_eq!(s1, step(true, false, true, true, true));
    let s2 = button_event(s1.clicked_down, false, false, PressEvent::LeftDrag);
    assert_eq!(s2, step(true, false, false, false, false));
    let s3 = button_event(s2.clicked_down, false, false, PressEvent::LeftUp);
    assert_eq!(s3, step(false, true, true, true, true));
}

#[test]
fn button_keys() {
    assert_eq!(button_event(false, true, false, ENTER), step(false, true, true, true, true));
    assert_eq!(button_event(false, false, false, ENTER), step(false, false, false, false, true));
    assert_eq!(button_event(true, true, false, OTHER_KEY), step(true, false, false, false, false));
    assert_eq!(
        button_event(false, true, false, PressEvent::Keys { empty: true, enter_first: false }),
        step(false, false, false, false, true)
    );
}

#[test]
fn button_release_elsewhere_and_captured() {
    assert_eq!(button_event(true, false, false, PressEvent::ExternalMouse), step(false, false, true, false, false));
    assert_eq!(button_event(false, false, false, PressEvent::ExternalMouse), step(false, false, false, false, false));
    assert_eq!(button_event(true, false, false, PressEvent::OtherMouse), step(false, false, true, false, false));
    assert_eq!(button_event(false, false, false, PressEvent::LeftUp), step(false, false, true, false, false));
    assert_eq!(button_event(true, true, true, ENTER), step(true, false, false, true, true));
    assert_eq!(button_event(true, true, false, PressEvent::Other), step(true, false, false, false, false));
}

#[test]
fn checkbox_toggles_on_click() {
    let st = CheckboxState { checked: false, clicked_down: false };
    let (st, s) = checkbox_event(st, false, false, PressEvent::LeftDown);
    assert_eq!(s, step(true, false, false, true, true));
    assert!(!st.checked && st.clicked_down);
    let (st, s) = checkbox_event(st, false, false, PressEvent::LeftUp);
    assert!(s.click && s.captured);
    assert_eq!(st, CheckboxState { checked: true, clicked_down: false });
    let (st, s) = checkbox_event(st, true, false, ENTER);
    assert!(s.click);
    assert!(!st.checked);
    let (st2, s) = checkbox_event(st, false, false, ENTER);
    assert_eq!(s, step(false, false, false, false, false));
    assert_eq!(st2, st);
    let (_, s) = checkbox_event(CheckboxState { checked: false, clicked_down: true }, false, false, PressEvent::ExternalMouse);
    assert_eq!(s, step(true, false, false, false, true));
    assert!(checkbox_click(false));
    assert_eq!(checkbox_text(true, '√'), '√');
    assert_eq!(checkbox_text(false, '√'), ' ');
}
