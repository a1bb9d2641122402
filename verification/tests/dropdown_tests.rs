use yeehaw::dropdown::{DropdownEvent, DropdownKey, DropdownList, DropdownMouse, DropdownOutcome};

fn list() -> DropdownList {
    DropdownList::new(vec!["a".to_string(), "bb".to_string(), "ccc".to_string()])
}

fn key(k: DropdownKey) -> DropdownEvent {
    DropdownEvent::Keys(Some(k))
}

fn mouse(kind: DropdownMouse, x: usize, y: usize) -> DropdownEvent {
    DropdownEvent::Mouse { kind, x, y }
}

#[test]
fn dropdown_sizes_and_text() {
    let d = list();
    assert_eq!(d.calculate_dyn_width(), 5);
    assert_eq!(d.padded_entry_text(6, 1), " bb   ");
    assert_eq!(d.text(6), " a    ");
    assert_eq!(d.expanded_height(), 3);
    assert!(!d.display_scrollbar());
    let d = d.with_max_expanded_height(2).with_left_padding(2);
    assert_eq!(d.expanded_height(), 2);
    assert!(d.display_scrollbar());
    assert_eq!(d.calculate_dyn_width(), 6);
    assert_eq!(d.with_width(9).calculate_dyn_width(), 9);
}

#[test]
fn dropdown_keys_open_move_and_choose() {
    let mut d = list();
    assert_eq!(d.receive_event(key(DropdownKey::Down), false, false, 5, 5, 1), DropdownOutcome::Ignored);
    assert!(!d.open);
    assert_eq!(d.receive_event(key(DropdownKey::Down), true, false, 5, 5, 1), DropdownOutcome::Taken);
    assert!(d.open);
    assert_eq!(d.height, 3);
    assert_eq!(d.cursor, 0);
    assert_eq!(d.text(5), " a   \n bb  \n ccc ");
    assert_eq!((d.view.content_width, d.view.content_height), (5, 3));
    assert_eq!(d.receive_event(key(DropdownKey::Down), true, false, 5, 5, 3), DropdownOutcome::Taken);
    assert_eq!(d.receive_event(key(DropdownKey::Down), true, false, 5, 5, 3), DropdownOutcome::Taken);
    assert_eq!(d.receive_event(key(DropdownKey::Down), true, false, 5, 5, 3), DropdownOutcome::Taken);
    assert_eq!(d.cursor, 2);
    assert_eq!(d.receive_event(key(DropdownKey::Up), true, false, 5, 5, 3), DropdownOutcome::Taken);
    assert_eq!(d.receive_event(key(DropdownKey::Enter), true, false, 5, 5, 3), DropdownOutcome::Selected(1));
    assert!(!d.open);
    assert_eq!(d.selected, 1);
    assert_eq!(d.height, 1);
    assert_eq!(d.text(5), " bb  ");
    // enter right after opening chooses nothing new
    d.receive_event(key(DropdownKey::Enter), true, false, 5, 5, 1);
    assert_eq!(d.receive_event(key(DropdownKey::Enter), true, false, 5, 5, 3), DropdownOutcome::Taken);
    assert_eq!(d.selected, 1);
    assert_eq!(d.receive_event(key(DropdownKey::Space), true, false, 5, 5, 1), DropdownOutcome::Ignored);
}

#[test]
fn dropdown_mouse_open_and_choose() {
    let mut d = list();
    assert_eq!(d.receive_event(mouse(DropdownMouse::LeftDown, 0, 0), true, false, 5, 5, 1), DropdownOutcome::Taken);
    assert!(d.clicked_down);
    assert_eq!(d.receive_event(mouse(DropdownMouse::LeftUp, 0, 0), true, false, 5, 5, 1), DropdownOutcome::Taken);
    assert!(d.open);
    assert!(!d.clicked_down);
    // hovering moves the cursor
    assert_eq!(d.receive_event(mouse(DropdownMouse::Other, 1, 1), true, false, 5, 5, 3), DropdownOutcome::Taken);
    assert_eq!(d.cursor, 1);
    assert_eq!(d.receive_event(mouse(DropdownMouse::LeftUp, 1, 2), true, false, 5, 5, 3), DropdownOutcome::Selected(2));
    assert_eq!(d.selected, 2);
    assert!(!d.open);
}

#[test]
fn dropdown_arrow_and_escape_close_without_choosing() {
    let mut d = list();
    d.receive_event(key(DropdownKey::Enter), true, false, 5, 5, 1);
    d.receive_event(key(DropdownKey::Down), true, false, 5, 5, 3);
    assert_eq!(d.receive_event(mouse(DropdownMouse::LeftUp, 4, 0), true, false, 5, 5, 3), DropdownOutcome::Taken);
    assert!(!d.open);
    assert_eq!(d.selected, 0);
    d.receive_event(key(DropdownKey::Enter), true, false, 5, 5, 1);
    d.receive_event(key(DropdownKey::Down), true, false, 5, 5, 3);
    d.on_selectability_change(false);
    assert!(!d.open);
    assert_eq!(d.selected, 0);
    assert_eq!(d.receive_event(DropdownEvent::Resize, true, false, 5, 5, 1), DropdownOutcome::Taken);
    assert!(d.dirty);
    assert_eq!(d.receive_event(mouse(DropdownMouse::ScrollDown, 0, 0), true, false, 5, 5, 1), DropdownOutcome::Ignored);
}

#[test]
fn dropdown_scrollbar_column() {
    let mut d = list().with_max_expanded_height(2);
    d.receive_event(key(DropdownKey::Enter), true, false, 5, 5, 1);
    assert_eq!(d.height, 2);
    assert_eq!(d.receive_event(mouse(DropdownMouse::LeftDrag, 4, 1), true, false, 5, 5, 2), DropdownOutcome::Scrollbar);
    assert_eq!(d.receive_event(mouse(DropdownMouse::LeftUp, 4, 1), true, false, 5, 5, 2), DropdownOutcome::Scrollbar);
    assert!(d.open);
    assert_eq!(d.receive_event(key(DropdownKey::Space), true, false, 5, 5, 2), DropdownOutcome::Scrollbar);
}
