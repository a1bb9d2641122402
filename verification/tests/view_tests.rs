use yeehaw::view::{ContentView, PaneScrollable, ScrollKind, ScrollMods, ScrollOutcome};

fn view(w: usize, h: usize, x: usize, y: usize) -> ContentView {
    ContentView { content_width: w, content_height: h, offset_x: x, offset_y: y }
}

#[test]
fn offsets_stay_within_content() {
    let mut v = view(10, 10, 0, 0);
    v.set_content_y_offset(4, 8);
    assert_eq!(v.offset_y, 6);
    v.scroll_down(4);
    assert_eq!(v.offset_y, 6);
    v.scroll_up(4);
    assert_eq!(v.offset_y, 5);
    v.set_content_x_offset(20, 3);
    assert_eq!(v.offset_x, 0);
    v.scroll_right(4);
    assert_eq!(v.offset_x, 1);
    v.scroll_left(4);
    v.scroll_left(4);
    assert_eq!(v.offset_x, 0);
}

#[test]
fn correcting_offsets_brings_position_into_view() {
    let mut v = view(20, 20, 0, 0);
    v.correct_offsets_to_view_position(5, 5, 0, 7);
    assert_eq!((v.offset_x, v.offset_y), (0, 3));
    v.correct_offsets_to_view_position(5, 5, 0, 1);
    assert_eq!(v.offset_y, 1);
    v.correct_offsets_to_view_position(5, 5, 12, 2);
    assert_eq!((v.offset_x, v.offset_y), (8, 1));
    // a view that went past the end of the content is moved back
    let mut v = view(20, 20, 0, 15);
    v.correct_offsets_to_view_position(5, 10, 0, 16);
    assert_eq!(v.offset_y, 10);
}

#[test]
fn scrollable_pane_scrolls_within_content() {
    let mut p = PaneScrollable::new(20, 10);
    assert_eq!(p.receive_mouse(ScrollKind::Down, ScrollMods::NoMods, 0, 0, 5, 5), ScrollOutcome::Scrolled);
    assert_eq!(p.view.offset_y, 3);
    p.receive_mouse(ScrollKind::Down, ScrollMods::NoMods, 0, 0, 5, 5);
    assert_eq!(p.view.offset_y, 5);
    p.receive_mouse(ScrollKind::Up, ScrollMods::NoMods, 0, 0, 5, 5);
    assert_eq!(p.view.offset_y, 2);
    p.receive_mouse(ScrollKind::Down, ScrollMods::Shift, 0, 0, 5, 5);
    assert_eq!(p.view.offset_x, 3);
    p.receive_mouse(ScrollKind::Left, ScrollMods::NoMods, 0, 0, 5, 5);
    assert_eq!(p.view.offset_x, 0);
    assert_eq!(p.receive_mouse(ScrollKind::Down, ScrollMods::Other, 1, 1, 5, 5), ScrollOutcome::Pass(1, 3));
    assert_eq!(p.receive_mouse(ScrollKind::Other, ScrollMods::NoMods, 4, 0, 5, 5), ScrollOutcome::Pass(4, 2));
    assert_eq!(p.visible_region(5, 5), (0, 5, 2, 7));
    p.scroll_rate = None;
    assert_eq!(p.receive_mouse(ScrollKind::Down, ScrollMods::NoMods, 0, 0, 5, 5), ScrollOutcome::Pass(0, 2));
    assert_eq!(p.view.offset_y, 2);
}
