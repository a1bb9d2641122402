use yeehaw::border::{
    BorderEvent, BorderProperies, BorderResponse, BorderSty, Corner, CornerPos, HorizontalPos,
    HorizontalSide, MouseKind, MoveResponse, PropertyCnr, PropertyHzt, PropertyVrt,
    ResizeResponse, VerticalPos, VerticalSide,
};
use yeehaw::ch::ChPlus;
use yeehaw::debug::{clear, disable, enable, get_content, get_max_lines, is_enabled, log, set_log_file, Debugger};
use yeehaw::selectable::{
    next_ready_el_id, prev_ready_el_id, selection_after_resp, switch_plan, SelStyles,
    Selectability, SelectabilityResp, SwitchPlan,
};
use yeehaw::{DrawRegion, Loc, Size};

#[test]
fn draw_region_children() {
    let r = DrawRegion::new_large();
    assert_eq!(r.get_width(), 1000);
    assert_eq!(r.get_height(), 1000);
    let r = r.with_visible_region(Some(Loc::new(10, 50, 20, 60)));
    let c = r.child_region(Size::new(30, 30), 15, 5);
    assert_eq!(c.size, Size::new(30, 30));
    assert_eq!(c.visible_region, Some(Loc::new(0, 35, 15, 55)));
    let d = DrawRegion::default().with_size(Size::new(4, 5)).with_width(7).with_height(8);
    assert_eq!(d.size, Size::new(7, 8));
    assert_eq!(d.visible_region, None);
}

#[test]
fn debugger_keeps_the_newest_lines() {
    let mut d = Debugger::new();
    assert!(is_enabled(&d));
    assert_eq!(get_max_lines(&d), 300);
    d.max_lines = 2;
    assert_eq!(log(&mut d, "one".to_string()), None);
    log(&mut d, "two".to_string());
    log(&mut d, "three".to_string());
    assert_eq!(get_content(&d), "two\nthree");
    disable(&mut d);
    assert_eq!(log(&mut d, "four".to_string()), None);
    assert_eq!(get_content(&d), "two\nthree");
    enable(&mut d);
    set_log_file(&mut d, "out.log".to_string());
    assert_eq!(log(&mut d, "five".to_string()), Some("out.log".to_string()));
    assert_eq!(get_content(&d), "three\nfive");
    assert_eq!(clear(&mut d), Some("out.log".to_string()));
    assert_eq!(get_content(&d), "");
}

fn sels(v: &[Option<Selectability>]) -> Vec<Option<Selectability>> {
    v.to_vec()
}

fn names(v: &[&str]) -> Vec<String> {
    v.iter().map(|s| s.to_string()).collect()
}

#[test]
fn next_and_prev_ready() {
    let els = names(&["a", "b", "c"]);
    let s = sels(&[Some(Selectability::Ready), Some(Selectability::Unselectable), Some(Selectability::Ready)]);
    assert_eq!(next_ready_el_id(&els, &s, Some("a".to_string())), Some("c".to_string()));
    assert_eq!(next_ready_el_id(&els, &s, Some("c".to_string())), Some("a".to_string()));
    assert_eq!(prev_ready_el_id(&els, &s, Some("a".to_string())), Some("c".to_string()));
    assert_eq!(next_ready_el_id(&els, &s, None), Some("a".to_string()));
    assert_eq!(prev_ready_el_id(&els, &s, None), Some("c".to_string()));
    // next then prev comes back when all are ready
    let all = sels(&[Some(Selectability::Ready), Some(Selectability::Ready), Some(Selectability::Selected)]);
    let n = next_ready_el_id(&els, &all, Some("b".to_string()));
    assert_eq!(prev_ready_el_id(&els, &all, n), Some("b".to_string()));
    // none ready: an unselectable start stays, otherwise nothing
    let none = sels(&[Some(Selectability::Unselectable), None, Some(Selectability::Unselectable)]);
    assert_eq!(next_ready_el_id(&els, &none, Some("a".to_string())), Some("a".to_string()));
    assert_eq!(next_ready_el_id(&els, &none, Some("b".to_string())), None);
    // an unknown start counts as the first element and is kept when nothing is ready
    assert_eq!(next_ready_el_id(&els, &none, Some("x".to_string())), Some("x".to_string()));
    let empty: Vec<String> = Vec::new();
    assert_eq!(next_ready_el_id(&empty, &Vec::new(), Some("a".to_string())), None);
}

#[test]
fn selection_responses() {
    let resp = SelectabilityResp { sel: Selectability::Selected, id: "b".to_string() };
    assert_eq!(
        selection_after_resp(Some("a".to_string()), &resp),
        (Some("b".to_string()), Some("a".to_string()))
    );
    assert_eq!(selection_after_resp(Some("b".to_string()), &resp), (Some("b".to_string()), None));
    let ready = SelectabilityResp { sel: Selectability::Ready, id: "b".to_string() };
    assert_eq!(selection_after_resp(Some("b".to_string()), &ready), (None, None));
    assert_eq!(selection_after_resp(Some("a".to_string()), &ready), (Some("a".to_string()), None));
    assert_eq!(Selectability::Unselectable.to_text(), "Unselectable");
}

#[test]
fn switch_plans() {
    assert_eq!(switch_plan(Some("a".into()), Some("a".into()), None), SwitchPlan::Nothing);
    assert_eq!(
        switch_plan(Some("a".into()), Some("b".into()), Some(Selectability::Unselectable)),
        SwitchPlan::DeselectOnly(Some("a".into()))
    );
    assert_eq!(
        switch_plan(Some("a".into()), Some("b".into()), None),
        SwitchPlan::DeselectOnly(Some("a".into()))
    );
    assert_eq!(
        switch_plan(None, Some("b".into()), Some(Selectability::Ready)),
        SwitchPlan::Switch(None, Some("b".into()))
    );
    assert_eq!(switch_plan(Some("a".into()), None, None), SwitchPlan::Switch(Some("a".into()), None));
    let st = SelStyles::new(1u8, 2u8, 3u8);
    assert_eq!((st.selected_style, st.ready_style, st.unselectable_style), (1, 2, 3));
}

#[test]
fn corner_drags() {
    let mut c = Corner::new(CornerPos::TopLeft, PropertyCnr::DragResize);
    let down = BorderEvent::Mouse { kind: MouseKind::LeftDown, column: 0, row: 0 };
    assert_eq!(c.receive_event_inner(down), (true, BorderResponse::Nothing));
    assert!(c.dragging);
    let drag = BorderEvent::ExternalMouse { kind: MouseKind::LeftDrag, column: 3, row: -2 };
    assert_eq!(
        c.receive_event_inner(drag),
        (true, BorderResponse::Resize(ResizeResponse { left_dx: 3, right_dx: 0, top_dy: -2, bottom_dy: 0 }))
    );
    let other = BorderEvent::ExternalMouse { kind: MouseKind::Other, column: 3, row: -2 };
    assert_eq!(c.receive_event_inner(other), (false, BorderResponse::Nothing));
    assert!(!c.dragging);
    assert_eq!(c.receive_event_inner(drag), (false, BorderResponse::Nothing));
    let mut m = Corner::new(CornerPos::BottomRight, PropertyCnr::DragMove);
    m.receive_event_inner(down);
    assert_eq!(m.receive_event_inner(drag), (true, BorderResponse::Move(MoveResponse { dx: 3, dy: -2 })));
    let mut d = Corner::new(CornerPos::BottomRight, PropertyCnr::DisplayOnly);
    assert_eq!(d.receive_event_inner(drag), (true, BorderResponse::Nothing));
}

#[test]
fn side_drags() {
    let mut v = VerticalSide::new(VerticalPos::Right, PropertyVrt::DragMove);
    let down = BorderEvent::Mouse { kind: MouseKind::LeftDown, column: 0, row: 4 };
    assert_eq!(v.receive_event_inner(down), (true, BorderResponse::Nothing));
    assert_eq!(v.dragging_start_pos, Some((0, 4)));
    let drag_on = BorderEvent::Mouse { kind: MouseKind::LeftDrag, column: 0, row: 7 };
    assert_eq!(v.receive_event_inner(drag_on), (true, BorderResponse::Move(MoveResponse { dx: 0, dy: 3 })));
    let drag_off = BorderEvent::ExternalMouse { kind: MouseKind::LeftDrag, column: 5, row: 9 };
    assert_eq!(v.receive_event_inner(drag_off), (true, BorderResponse::Move(MoveResponse { dx: 5, dy: 5 })));
    let mut r = VerticalSide::new(VerticalPos::Left, PropertyVrt::DragResize);
    r.receive_event_inner(down);
    assert_eq!(
        r.receive_event_inner(drag_off),
        (true, BorderResponse::Resize(ResizeResponse { left_dx: 5, right_dx: 0, top_dy: 0, bottom_dy: 0 }))
    );
    let mut s = VerticalSide::new(VerticalPos::Left, PropertyVrt::Scrollbar);
    assert_eq!(s.receive_event_inner(down), (false, BorderResponse::ToScrollbar));
    let mut h = HorizontalSide::new(HorizontalPos::Bottom, PropertyHzt::DragResize);
    h.receive_event_inner(down);
    assert_eq!(
        h.receive_event_inner(drag_off),
        (true, BorderResponse::Resize(ResizeResponse { left_dx: 0, right_dx: 0, top_dy: 0, bottom_dy: 9 }))
    );
    let mut hm = HorizontalSide::new(HorizontalPos::Top, PropertyHzt::DragMove);
    hm.receive_event_inner(BorderEvent::Mouse { kind: MouseKind::LeftDown, column: 2, row: 0 });
    assert_eq!(
        hm.receive_event_inner(BorderEvent::Mouse { kind: MouseKind::LeftDrag, column: 6, row: 0 }),
        (true, BorderResponse::Move(MoveResponse { dx: 4, dy: 0 }))
    );
    hm.receive_event_inner(BorderEvent::Mouse { kind: MouseKind::Other, column: 6, row: 0 });
    assert_eq!(hm.dragging_start_pos, None);
}

#[test]
fn border_styles_and_properties() {
    let b = BorderSty::new_thin_single(0u8);
    assert_eq!(b.top_left.ch, ChPlus::Char('┌'));
    assert_eq!(b.bottom_right.ch, ChPlus::Char('┘'));
    assert_eq!(b.left.ch, ChPlus::Char('│'));
    let b = b.with_corners('+');
    assert_eq!(b.top_right.ch, ChPlus::Char('+'));
    assert_eq!(b.top.ch, ChPlus::Char('─'));
    let d = BorderSty::new_double(3u8);
    assert_eq!(d.top_left.ch, ChPlus::Char('╔'));
    assert_eq!(d.top_left.style, 3);
    let u = BorderSty::new_uniform_ch('#', 0u8);
    assert_eq!(u.bottom.ch, ChPlus::Char('#'));
    let p = BorderProperies::new_resizer();
    assert_eq!(p.left, Some(PropertyVrt::DragResize));
    assert_eq!(p.top_corner, PropertyCnr::DragResize);
    let p = BorderProperies::new_basic();
    assert_eq!(p.bottom, Some(PropertyHzt::DisplayOnly));
    let p = BorderProperies::new_mover();
    assert_eq!(p.right_corner, PropertyCnr::DragMove);
}

#[test]
fn transparent_selection_styles() {
    let clear = yeehaw::text_style::TextStyle::transparent();
    let t = yeehaw::color::SolidColor::new_with_alpha(0, 0, 0, 0);
    assert_eq!(clear.fg, Some(t));
    assert_eq!(clear.bg, Some(t));
    let st = SelStyles::transparent();
    assert_eq!(st.selected_style, clear);
    assert_eq!(st.ready_style, clear);
    assert_eq!(st.unselectable_style, clear);
}

#[test]
fn underline_color_is_kept_apart_from_the_others() {
    let red = yeehaw::color::SolidColor::new(255, 0, 0);
    let plain = yeehaw::text_style::TextStyle::default_const();
    assert_eq!(plain.ul, None);
    let s = plain.with_underline_color(red);
    assert_eq!(s.ul, Some(red));
    assert_eq!(s.fg, None);
    assert_eq!(s.bg, None);
    assert_eq!(yeehaw::text_style::TextStyle::transparent().ul, None);
}
