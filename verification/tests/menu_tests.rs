use yeehaw::menu::{ClickKind, MenuBar, MenuItem, MenuKey, MenuLoc, MenuMouse, MenuPath, MenuStyle, RightClickMenu};

fn loc(x1: i32, x2: i32, y1: i32, y2: i32) -> MenuLoc {
    MenuLoc { start_x: x1, end_x: x2, start_y: y1, end_y: y2 }
}

fn paths(bar: &MenuBar) -> Vec<String> {
    bar.items.iter().map(|it| it.path.0.clone()).collect()
}

fn file_edit_bar() -> MenuBar {
    let mut bar = MenuBar::top_menu_bar();
    bar.add_item("file/open".to_string());
    bar.add_item("file/save".to_string());
    bar.add_item("edit/undo".to_string());
    bar
}

#[test]
fn menu_path_parts() {
    let p = MenuPath("nwmod/cool_stuff/blaze".to_string());
    assert_eq!(p.name(), "blaze");
    assert_eq!(p.folders(), vec!["nwmod".to_string(), "cool_stuff".to_string()]);
    assert_eq!(p.folder_paths(), vec!["nwmod".to_string(), "nwmod/cool_stuff".to_string()]);
    assert!(!p.is_root());
    assert!(MenuPath("nwmod".to_string()).is_root());
    assert!(MenuPath("nwmod/cool_stuff".to_string()).is_immediate_parent_of(&p));
    assert!(!MenuPath("nwmod".to_string()).is_immediate_parent_of(&p));
    assert!(MenuPath("nwmod".to_string()).folders().is_empty());
}

#[test]
fn adding_items_makes_their_folders() {
    let bar = file_edit_bar();
    assert_eq!(paths(&bar), vec!["file", "file/open", "file/save", "edit", "edit/undo"]);
    assert!(bar.items[0].is_folder && bar.items[3].is_folder);
    assert!(!bar.items[1].is_folder && bar.items[1].selectable);
    // top-level items sit side by side, as wide as their names and paddings
    assert_eq!(bar.items[0].loc, loc(0, 6, 0, 1));
    assert_eq!(bar.items[3].loc, loc(6, 12, 0, 1));
    assert!(bar.items[0].visible && bar.items[3].visible);
    assert!(!bar.items[0].show_folder_arrow);
    assert!(!bar.items[1].visible && !bar.items[4].visible);
    assert_eq!(bar.max_primary_x(), Some(12));
    assert_eq!(bar.max_primary_y(), Some(1));
}

#[test]
fn decor_and_set_items() {
    let mut bar = MenuBar::top_menu_bar();
    bar.add_decor("help/---".to_string());
    assert_eq!(paths(&bar), vec!["help", "help/---"]);
    assert!(!bar.items[1].selectable);
    bar.set_items(vec![MenuItem::new(MenuPath("a/b/c".to_string())), MenuItem::new(MenuPath("a/d".to_string()))]);
    assert_eq!(paths(&bar), vec!["help", "help/---", "a", "a/b", "a/b/c", "a/d"]);
    assert!(bar.items[3].is_folder && !bar.items[4].is_folder);
    assert_eq!(bar.items[2].loc, loc(6, 9, 0, 1));
    assert!(bar.contains_menu_item(&MenuPath("a/b".to_string())));
    assert_eq!(bar.get_menu_item_from_path(&MenuPath("a/d".to_string())), Some(5));
    assert_eq!(bar.get_menu_item_from_path(&MenuPath("a/x".to_string())), None);
}

#[test]
fn vertical_menu_makes_top_items_equally_wide() {
    let mut bar = MenuBar::right_click_menu();
    bar.add_item("ab".to_string());
    bar.add_item("longer/x".to_string());
    // "longer" with its paddings and the arrow: 6 + 1 + 1 + 2
    assert_eq!(bar.items[0].loc, loc(0, 10, 0, 1));
    assert_eq!(bar.items[1].loc, loc(0, 10, 1, 2));
    assert!(bar.items[1].show_folder_arrow);
}

#[test]
fn click_opens_folder_and_release_chooses() {
    let mut bar = file_edit_bar();
    assert_eq!(bar.receive_mouse_event(MenuMouse::Other, Some(0)), None);
    assert!(!bar.activated);
    assert_eq!(bar.receive_mouse_event(MenuMouse::Down, Some(0)), None);
    assert!(bar.activated);
    assert!(bar.items[0].is_selected);
    assert!(bar.items[1].visible && bar.items[2].visible);
    assert_eq!(bar.items[1].loc, loc(0, 6, 1, 2));
    assert_eq!(bar.items[2].loc, loc(0, 6, 2, 3));
    assert!(!bar.items[4].visible);
    assert_eq!(bar.receive_mouse_event(MenuMouse::LeftUp, Some(1)), Some(1));
    assert!(!bar.activated);
    assert!(!bar.items[1].visible && !bar.items[2].visible);
    assert!(!bar.items[0].is_selected);
    assert!(bar.items[0].visible && bar.visible);
}

#[test]
fn click_outside_closes() {
    let mut bar = file_edit_bar();
    bar.receive_mouse_event(MenuMouse::Down, Some(3));
    assert!(bar.items[4].visible);
    assert_eq!(bar.receive_mouse_event(MenuMouse::Down, None), None);
    assert!(!bar.activated && !bar.items[4].visible);
    let mut bar = file_edit_bar();
    bar.receive_mouse_event(MenuMouse::Down, Some(3));
    assert!(!bar.receive_external_mouse_event(MenuMouse::Other));
    assert!(bar.activated);
    assert!(bar.receive_external_mouse_event(MenuMouse::Drag));
    assert!(!bar.activated && !bar.items[4].visible);
}

#[test]
fn second_click_on_top_item_closes() {
    let mut bar = file_edit_bar();
    bar.receive_mouse_event(MenuMouse::Down, Some(0));
    assert!(bar.activated);
    bar.receive_mouse_event(MenuMouse::Down, Some(3));
    assert!(!bar.activated);
    assert!(!bar.items[1].visible && !bar.items[4].visible);
}

#[test]
fn keys_move_between_items() {
    let mut bar = file_edit_bar();
    assert_eq!(bar.receive_key_event(MenuKey::Right), None);
    assert_eq!(bar.get_selected_item(), None);
    bar.activate();
    assert_eq!(bar.get_selected_item(), Some(0));
    bar.receive_key_event(MenuKey::Right);
    assert_eq!(bar.get_selected_item(), Some(3));
    bar.receive_key_event(MenuKey::Left);
    assert_eq!(bar.get_selected_item(), Some(0));
    bar.receive_key_event(MenuKey::Down);
    assert_eq!(bar.get_selected_item(), Some(1));
    assert!(bar.items[1].visible && bar.items[2].visible);
    bar.receive_key_event(MenuKey::Down);
    assert_eq!(bar.get_selected_item(), Some(2));
    bar.receive_key_event(MenuKey::Up);
    assert_eq!(bar.get_selected_item(), Some(1));
    bar.receive_key_event(MenuKey::Up);
    assert_eq!(bar.get_selected_item(), Some(0));
    bar.receive_key_event(MenuKey::Enter);
    assert_eq!(bar.get_selected_item(), Some(1));
    assert_eq!(bar.receive_key_event(MenuKey::Enter), Some(1));
    assert!(!bar.activated);
    assert_eq!(bar.get_selected_item(), None);
    assert!(!bar.items[1].visible);
}

#[test]
fn escape_resets() {
    let mut bar = file_edit_bar();
    bar.activate();
    bar.receive_key_event(MenuKey::Down);
    assert_eq!(bar.receive_key_event(MenuKey::Esc), None);
    assert!(!bar.activated);
    assert_eq!(bar.get_selected_item(), None);
    assert!(!bar.items[1].visible);
}

#[test]
fn closedown_of_right_click_menu_hides_everything() {
    let mut bar = MenuBar::right_click_menu();
    bar.add_item("a".to_string());
    bar.closedown();
    assert!(!bar.visible && !bar.items[0].visible);
    bar.make_primary_visible();
    assert!(bar.items[0].visible);
    bar.items[0].select();
    bar.deselect_all();
    assert!(!bar.items[0].is_selected);
}

#[test]
fn right_click_menu_opens_below_the_mouse() {
    let mut m = RightClickMenu::new(MenuStyle::default())
        .with_menu_items(vec![MenuItem::new(MenuPath("copy".to_string())), MenuItem::new(MenuPath("more/paste".to_string()))]);
    assert_eq!(m.menu.items.len(), 3);
    assert!(!m.create_menu_if_right_click(ClickKind::Other, 4, 7));
    assert_eq!((m.loc_x, m.loc_y), (0, 0));
    m.menu.closedown();
    assert!(!m.menu.visible);
    assert!(m.create_menu_if_right_click(ClickKind::RightUp, 4, 7));
    assert_eq!((m.pos_x, m.pos_y, m.loc_x, m.loc_y), (4, 7, 4, 8));
    assert!(m.menu.visible && m.menu.activated);
    assert!(m.menu.items[0].visible && m.menu.items[1].visible && !m.menu.items[2].visible);
    assert_eq!(m.menu.get_selected_item(), None);
    // the first mouse event outside is ignored, the next one closes the menu
    assert!(m.receive_external_mouse_event(MenuMouse::Down));
    assert!(m.menu.visible);
    assert!(m.receive_external_mouse_event(MenuMouse::Down));
    assert!(!m.menu.visible && !m.menu.activated);
    m.set_menu_pos(1, 2);
    assert_eq!((m.pos_x, m.pos_y), (1, 2));
}

#[test]
fn right_click_menu_choice() {
    let mut m = RightClickMenu::new(MenuStyle::default())
        .with_menu_items(vec![MenuItem::new(MenuPath("copy".to_string()))]);
    m.create_menu_if_right_click(ClickKind::RightUp, 0, 0);
    assert_eq!(m.receive_mouse_event(MenuMouse::LeftUp, Some(0)), Some(0));
    assert!(!m.menu.visible);
}

#[test]
fn mouse_position_finds_the_item() {
    let mut bar = file_edit_bar();
    assert_eq!(bar.item_at(7, 0), Some(3));
    assert_eq!(bar.item_at(2, 1), None);
    assert_eq!(bar.receive_mouse_event_at(MenuMouse::Down, 2, 0), None);
    assert!(bar.items[1].visible);
    assert_eq!(bar.item_at(2, 1), Some(1));
    assert_eq!(bar.receive_mouse_event_at(MenuMouse::LeftUp, 2, 2), Some(2));
    assert!(!bar.activated);
}
