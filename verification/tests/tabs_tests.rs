use yeehaw::tabs::{LowerEl, Tab, Tabs, TabsTop};

fn el(id: &str) -> LowerEl {
    LowerEl { id: id.to_string(), shown: true, focused: true }
}

fn shown(t: &Tabs) -> Vec<bool> {
    t.lower.iter().map(|e| e.shown).collect()
}

#[test]
fn tabs_top_names_and_clicks() {
    let mut top = TabsTop::new(vec![]);
    top.push("a".to_string(), "one".to_string(), false);
    top.push("b".to_string(), "two".to_string(), false);
    assert_eq!(top.get_full_names(), vec![" one ".to_string(), " two ".to_string()]);
    assert_eq!(top.tab_at(0), Some(0));
    assert_eq!(top.tab_at(4), Some(0));
    assert_eq!(top.tab_at(5), Some(1));
    assert_eq!(top.tab_at(10), None);
    assert!(!top.receive_click(6, 1));
    assert!(top.receive_click(6, 0));
    assert_eq!(top.selected, Some(1));
    assert_eq!(top.get_selected_id(), Some("b".to_string()));
    let cells = top.drawing(false).unwrap();
    assert_eq!(cells.len(), 10);
    assert_eq!(cells[1].0, 'o');
    assert_eq!(cells[0].1, top.normal_style);
    assert_eq!(cells[6].1, top.highlight_style);
    assert_eq!(top.drawing(false), None);
    assert!(top.drawing(true).is_some());
    top.insert(0, "c".to_string(), "zero".to_string());
    assert_eq!(top.els[0].name, "zero");
    assert_eq!(top.remove(1), "a");
    assert_eq!(top.els.len(), 2);
    top.clear();
    assert_eq!(top.els.len(), 0);
    assert_eq!(top.get_selected_id(), None);
}

#[test]
fn first_tab_shown_others_hidden() {
    let mut t = Tabs::new();
    assert_eq!(t.push_with_on_open_fn(el("a"), "one".to_string(), true), Some(0));
    assert_eq!(t.top.selected, Some(0));
    assert!(!t.top.els[0].has_open_fn);
    assert_eq!(t.push_with_on_open_fn(el("b"), "two".to_string(), true), None);
    assert_eq!(shown(&t), vec![true, false]);
    assert!(!t.lower[1].focused);
    // opening the second tab runs its action once
    assert_eq!(t.select(1), Some(1));
    assert_eq!(shown(&t), vec![false, true]);
    assert_eq!(t.select(0), None);
    assert_eq!(t.select(1), None);
}

#[test]
fn clicking_a_name_switches_the_view() {
    let mut t = Tabs::new();
    t.push(el("a"), "one".to_string());
    t.push(el("b"), "two".to_string());
    assert_eq!(t.receive_click(7, 0), (true, None));
    assert_eq!(t.top.selected, Some(1));
    assert_eq!(shown(&t), vec![false, true]);
    assert_eq!(t.receive_click(7, 0), (true, None));
    assert_eq!(t.receive_click(30, 0), (false, None));
    assert_eq!(t.top.selected, Some(1));
}

#[test]
fn insert_at_selected_replaces_view() {
    let mut t = Tabs::new();
    t.push(el("a"), "one".to_string());
    assert_eq!(t.insert(0, el("b"), "zero".to_string()), None);
    assert_eq!(t.top.selected, Some(0));
    assert_eq!(t.top.els[0].id, "b");
    assert!(!t.lower[0].shown && !t.lower[0].focused);
    assert!(t.lower[1].shown);
    t.insert(2, el("c"), "two".to_string());
    assert!(!t.lower[2].shown);
    t.remove(0);
    assert_eq!(t.top.els.len(), 2);
    assert_eq!(t.lower.len(), 2);
    assert_eq!(t.lower[0].id, "a");
    t.clear();
    assert!(t.lower.is_empty());
    let _ = Tab { id: String::new(), name: String::new(), has_open_fn: false };
}
