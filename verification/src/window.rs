use vstd::prelude::*;

verus! {

/// Where a window is: columns `start_x..end_x`, rows `start_y..end_y`.
#[derive(Clone, Copy, PartialEq, Eq, Debug, Structural)]
pub struct WinBounds {
    pub start_x: i32,
    pub start_y: i32,
    pub end_x: i32,
    pub end_y: i32,
}

/// The bounds after moving each edge as asked. A window keeps at least two columns (else
/// its columns stay as they were) and three rows, its top bar and two inner rows (else its
/// rows stay as they were); nor does it move past the left or top edge.
pub open spec fn resized(b: WinBounds, left_dx: i32, right_dx: i32, top_dy: i32, bottom_dy: i32) -> WinBounds {
    let sx = b.start_x + left_dx;
    let sy = b.start_y + top_dy;
    let ex = b.end_x + right_dx;
    let ey = b.end_y + bottom_dy;
    let keep_x = ex - sx < 2 || sx < 0 || sy < 0;
    let sx2 = if keep_x { b.start_x as int } else { sx };
    let ex2 = if keep_x { b.end_x as int } else { ex };
    let keep_y = ey - sy < 3 || sx2 < 0 || sy < 0;
    WinBounds {
        start_x: sx2 as i32,
        end_x: ex2 as i32,
        start_y: (if keep_y { b.start_y as int } else { sy }) as i32,
        end_y: (if keep_y { b.end_y as int } else { ey }) as i32,
    }
}

/// The bounds after a drag by (`dx`, `dy`). Where the window would pass the left edge, the
/// horizontal move is its start column instead, and where it would pass the top, the vertical
/// move is its start row.
pub open spec fn dragged(b: WinBounds, dx: i32, dy: i32) -> WinBounds {
    let dx2 = if b.start_x + dx < 0 { b.start_x as int } else { dx as int };
    let dy2 = if b.start_y + dy < 0 { b.start_y as int } else { dy as int };
    WinBounds {
        start_x: (b.start_x + dx2) as i32,
        start_y: (b.start_y + dy2) as i32,
        end_x: (b.end_x + dx2) as i32,
        end_y: (b.end_y + dy2) as i32,
    }
}

/// The value fits in 32 bits.
pub open spec fn fits32(v: int) -> bool {
    i32::MIN <= v <= i32::MAX
}

/// Each edge can move by (`dx`, `dy`), or by the start column and row that the clamps of a
/// drag may pick instead, without leaving the 32-bit range.
pub open spec fn moves_fit(b: WinBounds, dx: int, dy: int) -> bool {
    &&& fits32(b.start_x + dx) && fits32(b.end_x + dx)
    &&& fits32(b.start_y + dy) && fits32(b.end_y + dy)
    &&& fits32(b.start_x + b.start_x) && fits32(b.end_x + b.start_x)
    &&& fits32(b.start_y + b.start_y) && fits32(b.end_y + b.start_y)
}

/// The bounds after moving each edge as asked (see `resized`).
pub fn resize_bounds(b: WinBounds, left_dx: i32, right_dx: i32, top_dy: i32, bottom_dy: i32) -> (r: WinBounds)
    requires
        i32::MIN <= b.start_x + left_dx <= i32::MAX,
        i32::MIN <= b.start_y + top_dy <= i32::MAX,
        i32::MIN <= b.end_x + right_dx <= i32::MAX,
        i32::MIN <= b.end_y + bottom_dy <= i32::MAX,
        i32::MIN <= (b.end_x + right_dx) - (b.start_x + left_dx) <= i32::MAX,
        i32::MIN <= (b.end_y + bottom_dy) - (b.start_y + top_dy) <= i32::MAX,
    ensures
        r == resized(b, left_dx, right_dx, top_dy, bottom_dy),
{
    let mut sx = b.start_x + left_dx;
    let sy = b.start_y + top_dy;
    let mut ex = b.end_x + right_dx;
    let ey = b.end_y + bottom_dy;
    if ex - sx < 2 || sx < 0 || sy < 0 {
        sx = b.start_x;
        ex = b.end_x;
    }
    if ey - sy < 3 || sx < 0 || sy < 0 {
        WinBounds { start_x: sx, end_x: ex, start_y: b.start_y, end_y: b.end_y }
    } else {
        WinBounds { start_x: sx, end_x: ex, start_y: sy, end_y: ey }
    }
}

/// Each edge of `b` can move as asked, and the new width and height fit, in 32 bits.
pub open spec fn resize_fits(b: WinBounds, left_dx: i32, right_dx: i32, top_dy: i32, bottom_dy: i32) -> bool {
    &&& fits32(b.start_x + left_dx) && fits32(b.start_y + top_dy)
    &&& fits32(b.end_x + right_dx) && fits32(b.end_y + bottom_dy)
    &&& fits32((b.end_x + right_dx) - (b.start_x + left_dx))
    &&& fits32((b.end_y + bottom_dy) - (b.start_y + top_dy))
}

/// A response that the inside of a window (its top bar and inner pane) sends up.
#[derive(Clone, Copy, PartialEq, Eq, Debug, Structural)]
pub enum WinInnerResp {
    /// move the window by (`dx`, `dy`)
    Move { dx: i32, dy: i32 },
    /// move each edge of the window
    Resize { left_dx: i32, right_dx: i32, top_dy: i32, bottom_dy: i32 },
    /// the close button was clicked
    Close,
    /// the maximize button was clicked
    Maximize,
    /// the minimize button was clicked
    Minimize,
    /// any other response
    Other,
}

/// Where a window goes back to: from being maximized, and from being minimized (`None`: it
/// is not so).
#[derive(Clone, Copy, PartialEq, Eq, Debug)]
pub struct WinRestore<L> {
    pub maximized: Option<L>,
    pub minimized: Option<L>,
}

/// What a window does with a response of its inside.
#[derive(Clone, Copy, PartialEq, Eq, Debug)]
pub enum WinAction<L> {
    /// take the bounds `b` and resize the inner pane; where `reset_maximizer`, the maximize
    /// button shows its maximize icon again; the response answers nothing
    SetBounds { b: WinBounds, reset_maximizer: bool },
    /// the window is to be destroyed (the response becomes a destruct request)
    Destruct,
    /// fill the parent, remembering `restore`; the response answers nothing
    Maximize { restore: L },
    /// go back to `to`; the response answers nothing
    Restore { to: L },
    /// lie on the bottom row, `width` columns wide from the left, with the top bar's buttons
    /// and the inner pane hidden, remembering `restore`; the response answers nothing
    Minimize { width: u16, restore: L },
    /// the response goes on up as it is
    PassOn,
}

/// What a window does with the response `resp` of its inside, where it now has the bounds
/// `cur` and the location `cur_loc`: the state afterwards, the action, and whether the
/// response asked to minimize. A move or a resize takes the bounds that `resized` gives (a
/// move shifts both edges of each axis alike) and ends a maximized state; a close destroys
/// the window; maximize fills the parent, or goes back where a maximized window was; minimize
/// happens only where the window is not minimized already.
pub open spec fn spec_window_resp_step<L>(
    st: WinRestore<L>,
    resp: WinInnerResp,
    cur: WinBounds,
    cur_loc: L,
    minimize_width: u16,
) -> (WinRestore<L>, WinAction<L>, bool) {
    match resp {
        WinInnerResp::Move { dx, dy } => (
            WinRestore { maximized: None, ..st },
            WinAction::SetBounds { b: resized(cur, dx, dx, dy, dy), reset_maximizer: st.maximized is Some },
            false,
        ),
        WinInnerResp::Resize { left_dx, right_dx, top_dy, bottom_dy } => (
            WinRestore { maximized: None, ..st },
            WinAction::SetBounds {
                b: resized(cur, left_dx, right_dx, top_dy, bottom_dy),
                reset_maximizer: st.maximized is Some,
            },
            false,
        ),
        WinInnerResp::Close => (st, WinAction::Destruct, false),
        WinInnerResp::Maximize => match st.maximized {
            Some(l) => (WinRestore { maximized: None, ..st }, WinAction::Restore { to: l }, false),
            None => (WinRestore { maximized: Some(cur_loc), ..st }, WinAction::Maximize { restore: cur_loc }, false),
        },
        WinInnerResp::Minimize => match st.minimized {
            None => (
                WinRestore { minimized: Some(cur_loc), ..st },
                WinAction::Minimize { width: minimize_width, restore: cur_loc },
                true,
            ),
            Some(_) => (st, WinAction::PassOn, true),
        },
        WinInnerResp::Other => (st, WinAction::PassOn, false),
    }
}

/// Decides what a window does with a response of its inside (see `spec_window_resp_step`).
pub fn window_resp_step<L: Copy>(
    st: WinRestore<L>,
    resp: WinInnerResp,
    cur: WinBounds,
    cur_loc: L,
    minimize_width: u16,
) -> (r: (WinRestore<L>, WinAction<L>, bool))
    requires
        resp matches WinInnerResp::Move { dx, dy } ==> resize_fits(cur, dx, dx, dy, dy),
        resp matches WinInnerResp::Resize { left_dx, right_dx, top_dy, bottom_dy } ==> resize_fits(
            cur,
            left_dx,
            right_dx,
            top_dy,
            bottom_dy,
        ),
    ensures
        r == spec_window_resp_step(st, resp, cur, cur_loc, minimize_width),
{
    match resp {
        WinInnerResp::Move { dx, dy } => {
            let b = resize_bounds(cur, dx, dx, dy, dy);
            (WinRestore { maximized: None, minimized: st.minimized }, WinAction::SetBounds {
                b,
                reset_maximizer: st.maximized.is_some(),
            }, false)
        },
        WinInnerResp::Resize { left_dx, right_dx, top_dy, bottom_dy } => {
            let b = resize_bounds(cur, left_dx, right_dx, top_dy, bottom_dy);
            (WinRestore { maximized: None, minimized: st.minimized }, WinAction::SetBounds {
                b,
                reset_maximizer: st.maximized.is_some(),
            }, false)
        },
        WinInnerResp::Close => (st, WinAction::Destruct, false),
        WinInnerResp::Maximize => match st.maximized {
            Some(l) => (WinRestore { maximized: None, minimized: st.minimized }, WinAction::Restore { to: l }, false),
            None => (
                WinRestore { maximized: Some(cur_loc), minimized: st.minimized },
                WinAction::Maximize { restore: cur_loc },
                false,
            ),
        },
        WinInnerResp::Minimize => match st.minimized {
            None => (
                WinRestore { maximized: st.maximized, minimized: Some(cur_loc) },
                WinAction::Minimize { width: minimize_width, restore: cur_loc },
                true,
            ),
            Some(_) => (st, WinAction::PassOn, true),
        },
        WinInnerResp::Other => (st, WinAction::PassOn, false),
    }
}

/// A button of a window's top bar.
#[derive(Clone, Copy, PartialEq, Eq, Debug, Structural)]
pub enum TopBarButton {
    Close,
    Maximize,
    Minimize,
}

/// The buttons of a window's top bar that are asked for, each with the number of columns
/// between its column and the right edge: close two from the right, and each next button (in
/// the order close, maximize, minimize) two further left than the one before.
pub open spec fn spec_top_bar_buttons(close: bool, maximize: bool, minimize: bool) -> Seq<(TopBarButton, u16)> {
    let s0: Seq<(TopBarButton, u16)> = if close { seq![(TopBarButton::Close, 2u16)] } else { seq![] };
    let n1: u16 = if close { 4 } else { 2 };
    let s1 = if maximize { s0.push((TopBarButton::Maximize, n1)) } else { s0 };
    let n2: u16 = if maximize { (n1 + 2) as u16 } else { n1 };
    if minimize { s1.push((TopBarButton::Minimize, n2)) } else { s1 }
}

/// The buttons of a window's top bar and their columns from the right (see
/// `spec_top_bar_buttons`).
pub fn top_bar_buttons(close: bool, maximize: bool, minimize: bool) -> (r: Vec<(TopBarButton, u16)>)
    ensures
        r@ == spec_top_bar_buttons(close, maximize, minimize),
{
    let mut r: Vec<(TopBarButton, u16)> = Vec::new();
    let mut from_right: u16 = 2;
    if close {
        r.push((TopBarButton::Close, from_right));
        from_right = from_right + 2;
    }
    if maximize {
        r.push((TopBarButton::Maximize, from_right));
        from_right = from_right + 2;
    }
    if minimize {
        r.push((TopBarButton::Minimize, from_right));
    }
    proof {
        assert(r@ =~= spec_top_bar_buttons(close, maximize, minimize));
    }
    r
}

/// The icon of the maximize button after a click: the restore icon after the maximize icon,
/// and the maximize icon after any other.
pub fn next_maximize_icon(icon: char) -> (r: char)
    ensures
        r == (if icon == '□' { '◱' } else { '□' }),
{
    if icon == '□' {
        '◱'
    } else {
        '□'
    }
}

/// The bounds after a drag by (`dx`, `dy`) (see `dragged`).
pub fn drag_bounds(b: WinBounds, dx: i32, dy: i32) -> (r: WinBounds)
    requires
        moves_fit(b, dx as int, dy as int),
    ensures
        r == dragged(b, dx, dy),
{
    let mut dx = dx;
    let mut dy = dy;
    if b.start_x + dx < 0 {
        dx = b.start_x;
    }
    if b.start_y + dy < 0 {
        dy = b.start_y;
    }
    WinBounds { start_x: b.start_x + dx, start_y: b.start_y + dy, end_x: b.end_x + dx, end_y: b.end_y + dy }
}

/// A mouse event as a window sees it.
#[derive(Clone, Copy, PartialEq, Eq, Debug, Structural)]
pub enum WinMouse {
    LeftDown,
    LeftDrag,
    LeftUp,
    /// another button went down
    OtherDown,
    Other,
}

/// What a window asks of its parent when it is clicked.
#[derive(Clone, Copy, PartialEq, Eq, Debug, Structural)]
pub enum FocusRequest {
    BringToFront,
    UnfocusOthers,
    Focus,
}

/// A press of any button on a window brings it to the front, unfocuses the others and focuses
/// it; nothing else asks anything.
pub fn focus_on_click(kind: WinMouse) -> (r: Vec<FocusRequest>)
    ensures
        (kind is LeftDown || kind is OtherDown) ==> r@ == seq![
            FocusRequest::BringToFront,
            FocusRequest::UnfocusOthers,
            FocusRequest::Focus,
        ],
        !(kind is LeftDown || kind is OtherDown) ==> r@.len() == 0,
{
    let mut r: Vec<FocusRequest> = Vec::new();
    match kind {
        WinMouse::LeftDown | WinMouse::OtherDown => {
            r.push(FocusRequest::BringToFront);
            r.push(FocusRequest::UnfocusOthers);
            r.push(FocusRequest::Focus);
        },
        _ => {},
    }
    r
}

/// Where a window was grabbed, relative to it.
#[derive(Clone, Copy, PartialEq, Eq, Debug, Structural)]
pub struct GrabPoint {
    pub col: i32,
    pub row: i32,
}

/// A left press or release on an element wrapped to take focus on a click asks, where it is
/// not focused yet, that the others be unfocused and it be focused; nothing else asks anything.
pub fn focuser_requests(kind: WinMouse, focused: bool) -> (r: Vec<FocusRequest>)
    ensures
        (kind is LeftDown || kind is LeftUp) && !focused ==> r@ == seq![FocusRequest::UnfocusOthers, FocusRequest::Focus],
        !((kind is LeftDown || kind is LeftUp) && !focused) ==> r@.len() == 0,
{
    let mut r: Vec<FocusRequest> = Vec::new();
    match kind {
        WinMouse::LeftDown | WinMouse::LeftUp => {
            if !focused {
                r.push(FocusRequest::UnfocusOthers);
                r.push(FocusRequest::Focus);
            }
        },
        _ => {},
    }
    r
}

/// The dragging state of a window: where it was grabbed (relative to it), its bounds, and
/// whether it is minimized.
#[derive(Clone, Copy, PartialEq, Eq, Debug, Structural)]
pub struct WindowDrag {
    pub dragging: Option<GrabPoint>,
    pub bounds: WinBounds,
    pub minimized: bool,
}

/// What a mouse event on the window does to its dragging (see `WindowDrag::receive_mouse`),
/// `was_dragging` telling whether it was being dragged when the event came, `just_minimized`
/// whether the event minimized it and `top_height` the height of its top bar: the state after,
/// and whether the window is to be restored from being minimized. A left release on a
/// minimized window restores it; a left press on the top bar of a window that is neither
/// dragged nor minimized grabs it there (a press below the top bar changes nothing); a drag
/// of a grabbed window moves it by how far the mouse is from where it was grabbed; anything
/// else lets it go.
pub open spec fn drag_step(
    d: WindowDrag,
    kind: WinMouse,
    col: i32,
    row: i32,
    was_dragging: bool,
    just_minimized: bool,
    top_height: i32,
) -> (WindowDrag, bool) {
    if kind is LeftUp && !just_minimized && d.minimized {
        (d, true)
    } else if kind is LeftDown && !was_dragging && !d.minimized {
        if row >= top_height {
            (d, false)
        } else {
            (WindowDrag { dragging: Some(GrabPoint { col, row }), ..d }, false)
        }
    } else if kind is LeftDrag && was_dragging && !d.minimized && d.dragging is Some {
        let g = d.dragging.unwrap();
        (WindowDrag { bounds: dragged(d.bounds, (col - g.col) as i32, (row - g.row) as i32), ..d }, false)
    } else {
        (WindowDrag { dragging: None, ..d }, false)
    }
}

/// What a mouse event outside the window does to its dragging: a drag of a grabbed window moves
/// it (see `drag_step`), anything else lets it go.
pub open spec fn external_drag_step(d: WindowDrag, kind: WinMouse, col: i32, row: i32) -> WindowDrag {
    match d.dragging {
        Some(g) => if kind is LeftDrag {
            WindowDrag { bounds: dragged(d.bounds, (col - g.col) as i32, (row - g.row) as i32), ..d }
        } else {
            WindowDrag { dragging: None, ..d }
        },
        None => d,
    }
}

/// The moves that a drag to (`col`, `row`) asks of the window fit the 32-bit range.
pub open spec fn drag_fits(d: WindowDrag, col: i32, row: i32) -> bool {
    d.dragging matches Some(g) ==> {
        &&& fits32(col - g.col)
        &&& fits32(row - g.row)
        &&& moves_fit(d.bounds, col - g.col, row - g.row)
    }
}

impl WindowDrag {
    /// Reacts to a mouse event on the window (see `drag_step`). Returns whether the window is
    /// to be restored from being minimized.
    pub fn receive_mouse(
        &mut self,
        kind: WinMouse,
        col: i32,
        row: i32,
        was_dragging: bool,
        just_minimized: bool,
        top_height: i32,
    ) -> (restore: bool)
        requires
            drag_fits(*old(self), col, row),
        ensures
            (*final(self), restore) == drag_step(*old(self), kind, col, row, was_dragging, just_minimized, top_height),
    {
        match kind {
            WinMouse::LeftUp => {
                if !just_minimized && self.minimized {
                    return true;
                }
            },
            WinMouse::LeftDown => {
                if !was_dragging && !self.minimized {
                    if row >= top_height {
                        return false;
                    }
                    self.dragging = Some(GrabPoint { col, row });
                    return false;
                }
            },
            WinMouse::LeftDrag => {
                if was_dragging && !self.minimized {
                    if let Some(g) = self.dragging {
                        self.bounds = drag_bounds(self.bounds, col - g.col, row - g.row);
                        return false;
                    }
                }
            },
            _ => {},
        }
        self.dragging = None;
        false
    }

    /// Reacts to a mouse event outside the window (see `external_drag_step`).
    pub fn receive_external_mouse(&mut self, kind: WinMouse, col: i32, row: i32)
        requires
            drag_fits(*old(self), col, row),
        ensures
            *final(self) == external_drag_step(*old(self), kind, col, row),
    {
        if let Some(g) = self.dragging {
            match kind {
                WinMouse::LeftDrag => {
                    self.bounds = drag_bounds(self.bounds, col - g.col, row - g.row);
                },
                _ => {
                    self.dragging = None;
                },
            }
        }
    }
}

/// A resize keeps a window at least two columns wide and three rows high where it was so
/// before.
pub proof fn lemma_resize_keeps_minimum(b: WinBounds, left_dx: i32, right_dx: i32, top_dy: i32, bottom_dy: i32)
    requires
        b.end_x - b.start_x >= 2,
        b.end_y - b.start_y >= 3,
        i32::MIN <= b.start_x + left_dx <= i32::MAX,
        i32::MIN <= b.start_y + top_dy <= i32::MAX,
        i32::MIN <= b.end_x + right_dx <= i32::MAX,
        i32::MIN <= b.end_y + bottom_dy <= i32::MAX,
    ensures
        resized(b, left_dx, right_dx, top_dy, bottom_dy).end_x - resized(b, left_dx, right_dx, top_dy, bottom_dy).start_x >= 2,
        resized(b, left_dx, right_dx, top_dy, bottom_dy).end_y - resized(b, left_dx, right_dx, top_dy, bottom_dy).start_y >= 3,
{
}

/// A drag keeps the size of a window.
pub proof fn lemma_drag_keeps_size(b: WinBounds, dx: i32, dy: i32)
    requires
        moves_fit(b, dx as int, dy as int),
    ensures
        dragged(b, dx, dy).end_x - dragged(b, dx, dy).start_x == b.end_x - b.start_x,
        dragged(b, dx, dy).end_y - dragged(b, dx, dy).start_y == b.end_y - b.start_y,
{
}

} // verus!
