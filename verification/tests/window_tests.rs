use yeehaw::window::{
    drag_bounds, focus_on_click, focuser_requests, next_maximize_icon, resize_bounds, top_bar_buttons,
    window_resp_step, FocusRequest, GrabPoint, TopBarButton, WinAction, WinBounds, WinInnerResp, WinMouse,
    WinRestore, WindowDrag,
};

fn b(sx: i32, sy: i32, ex: i32, ey: i32) -> WinBounds {
    WinBounds { start_x: sx, start_y: sy, end_x: ex, end_y: ey }
}

#[test]
fn resize_keeps_minimum_size_and_edges() {
    assert_eq!(resize_bounds(b(0, 0, 10, 10), 2, 0, 0, 0), b(2, 0, 10, 10));
    assert_eq!(resize_bounds(b(0, 0, 10, 10), 0, 3, 0, -2), b(0, 0, 13, 8));
    // too narrow: the columns stay
    assert_eq!(resize_bounds(b(0, 0, 10, 10), 0, -9, 0, 0), b(0, 0, 10, 10));
    // too low: the rows stay
    assert_eq!(resize_bounds(b(0, 0, 10, 10), 0, 0, 8, 0), b(0, 0, 10, 10));
    // past the top: nothing moves
    assert_eq!(resize_bounds(b(0, 0, 10, 10), 1, 0, -1, 0), b(0, 0, 10, 10));
}

#[test]
fn drag_moves_and_clamps() {
    assert_eq!(drag_bounds(b(5, 5, 15, 10), 2, -1), b(7, 4, 17, 9));
    // past the left edge the move becomes the start column
    assert_eq!(drag_bounds(b(5, 5, 15, 10), -8, -2), b(10, 3, 20, 8));
}

#[test]
fn focus_requests_on_press() {
    assert_eq!(
        focus_on_click(WinMouse::LeftDown),
        vec![FocusRequest::BringToFront, FocusRequest::UnfocusOthers, FocusRequest::Focus]
    );
    assert_eq!(focus_on_click(WinMouse::OtherDown).len(), 3);
    assert!(focus_on_click(WinMouse::LeftUp).is_empty());
}

#[test]
fn grab_drag_and_release() {
    let mut d = WindowDrag { dragging: None, bounds: b(2, 2, 12, 8), minimized: false };
    // a press below the top bar grabs nothing
    assert!(!d.receive_mouse(WinMouse::LeftDown, 3, 2, false, false, 1));
    assert_eq!(d.dragging, None);
    assert!(!d.receive_mouse(WinMouse::LeftDown, 3, 0, false, false, 1));
    assert_eq!(d.dragging, Some(GrabPoint { col: 3, row: 0 }));
    d.receive_mouse(WinMouse::LeftDrag, 5, 1, true, false, 1);
    assert_eq!(d.bounds, b(4, 3, 14, 9));
    d.receive_external_mouse(WinMouse::LeftDrag, 4, 0);
    assert_eq!(d.bounds, b(5, 3, 15, 9));
    d.receive_external_mouse(WinMouse::Other, 4, 0);
    assert_eq!(d.dragging, None);
    d.receive_mouse(WinMouse::LeftDown, 3, 0, false, false, 1);
    d.receive_mouse(WinMouse::LeftUp, 3, 0, true, false, 1);
    assert_eq!(d.dragging, None);
}

#[test]
fn release_on_minimized_window_restores() {
    let mut d = WindowDrag { dragging: None, bounds: b(0, 0, 10, 1), minimized: true };
    assert!(!d.receive_mouse(WinMouse::LeftUp, 1, 0, false, true, 1));
    assert!(d.receive_mouse(WinMouse::LeftUp, 1, 0, false, false, 1));
    assert!(!d.receive_mouse(WinMouse::LeftDown, 1, 0, false, false, 1));
    assert_eq!(d.dragging, None);
}

#[test]
fn focuser_asks_for_focus_once() {
    assert_eq!(focuser_requests(WinMouse::LeftUp, false), vec![FocusRequest::UnfocusOthers, FocusRequest::Focus]);
    assert!(focuser_requests(WinMouse::LeftDown, true).is_empty());
    assert!(focuser_requests(WinMouse::OtherDown, false).is_empty());
}

#[test]
fn window_responses_close_maximize_minimize() {
    let cur = b(2, 3, 12, 9);
    let st: WinRestore<u8> = WinRestore { maximized: None, minimized: None };
    // close
    assert_eq!(window_resp_step(st, WinInnerResp::Close, cur, 1, 20), (st, WinAction::Destruct, false));
    // maximize, then restore
    let (st2, a, m) = window_resp_step(st, WinInnerResp::Maximize, cur, 1, 20);
    assert_eq!(a, WinAction::Maximize { restore: 1 });
    assert_eq!(st2, WinRestore { maximized: Some(1), minimized: None });
    assert!(!m);
    let (st3, a, _) = window_resp_step(st2, WinInnerResp::Maximize, cur, 7, 20);
    assert_eq!(a, WinAction::Restore { to: 1 });
    assert_eq!(st3, st);
    // a move while maximized resets the maximizer
    let (st4, a, _) = window_resp_step(st2, WinInnerResp::Move { dx: 1, dy: -1 }, cur, 1, 20);
    assert_eq!(a, WinAction::SetBounds { b: b(3, 2, 13, 8), reset_maximizer: true });
    assert_eq!(st4.maximized, None);
    // a resize that would leave one column keeps the columns
    let (_, a, _) = window_resp_step(st, WinInnerResp::Resize { left_dx: 0, right_dx: -9, top_dy: 0, bottom_dy: 1 }, cur, 1, 20);
    assert_eq!(a, WinAction::SetBounds { b: b(2, 3, 12, 10), reset_maximizer: false });
    // minimize once; a second minimize changes nothing but is still reported
    let (st5, a, m) = window_resp_step(st, WinInnerResp::Minimize, cur, 4, 20);
    assert_eq!(a, WinAction::Minimize { width: 20, restore: 4 });
    assert_eq!(st5.minimized, Some(4));
    assert!(m);
    let (st6, a, m) = window_resp_step(st5, WinInnerResp::Minimize, cur, 5, 20);
    assert_eq!((st6, a, m), (st5, WinAction::PassOn, true));
    assert_eq!(window_resp_step(st, WinInnerResp::Other, cur, 1, 20), (st, WinAction::PassOn, false));
}

#[test]
fn top_bar_buttons_from_the_right() {
    assert_eq!(
        top_bar_buttons(true, true, true),
        vec![(TopBarButton::Close, 2), (TopBarButton::Maximize, 4), (TopBarButton::Minimize, 6)]
    );
    assert_eq!(top_bar_buttons(false, true, true), vec![(TopBarButton::Maximize, 2), (TopBarButton::Minimize, 4)]);
    assert_eq!(top_bar_buttons(true, false, true), vec![(TopBarButton::Close, 2), (TopBarButton::Minimize, 4)]);
    assert!(top_bar_buttons(false, false, false).is_empty());
    assert_eq!(next_maximize_icon('□'), '◱');
    assert_eq!(next_maximize_icon('◱'), '□');
    assert_eq!(next_maximize_icon('x'), '□');
}
