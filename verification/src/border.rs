use vstd::prelude::*;
use crate::ch::{ChPlus, DrawCh};

verus! {

/// property for a corner of the border
#[derive(Clone, Copy, PartialEq, Eq, Debug, Structural)]
pub enum PropertyCnr {
    /// just for display
    DisplayOnly,
    /// drag to resize
    DragResize,
    /// drag to move
    DragMove,
}

/// property for a vertical side of the border; a scrollbar side hands its events to its
/// scrollbar
#[derive(Clone, Copy, PartialEq, Eq, Debug, Structural)]
pub enum PropertyVrt {
    /// just for display
    DisplayOnly,
    /// drag to resize
    DragResize,
    /// drag to move
    DragMove,
    /// a scrollbar
    Scrollbar,
}

/// property for a horizontal side of the border; a scrollbar side hands its events to its
/// scrollbar
#[derive(Clone, Copy, PartialEq, Eq, Debug, Structural)]
pub enum PropertyHzt {
    /// just for display
    DisplayOnly,
    /// drag to resize
    DragResize,
    /// drag to move
    DragMove,
    /// a scrollbar
    Scrollbar,
}

/// corner position
#[derive(Clone, Copy, PartialEq, Eq, Debug, Structural)]
pub enum CornerPos {
    TopLeft,
    TopRight,
    BottomLeft,
    BottomRight,
}

/// vertical side position
#[derive(Clone, Copy, PartialEq, Eq, Debug, Structural)]
pub enum VerticalPos {
    Left,
    Right,
}

/// horizontal side position
#[derive(Clone, Copy, PartialEq, Eq, Debug, Structural)]
pub enum HorizontalPos {
    Top,
    Bottom,
}

/// What a mouse event does with the left button.
#[derive(Clone, Copy, PartialEq, Eq, Debug, Structural)]
pub enum MouseKind {
    /// the left button went down
    LeftDown,
    /// the mouse moved with the left button down
    LeftDrag,
    /// anything else
    Other,
}

/// An event as a part of the border sees it: a mouse event on it (at a position within it),
/// a mouse event elsewhere (relative to it), or anything else.
#[derive(Clone, Copy, PartialEq, Eq, Debug, Structural)]
pub enum BorderEvent {
    Mouse { kind: MouseKind, column: u16, row: u16 },
    ExternalMouse { kind: MouseKind, column: i32, row: i32 },
    Other,
}

/// By how much each side of the bordered element should move.
#[derive(Clone, Copy, PartialEq, Eq, Debug, Structural)]
pub struct ResizeResponse {
    pub left_dx: i32,
    pub right_dx: i32,
    pub top_dy: i32,
    pub bottom_dy: i32,
}

/// By how much the bordered element should move.
#[derive(Clone, Copy, PartialEq, Eq, Debug, Structural)]
pub struct MoveResponse {
    pub dx: i32,
    pub dy: i32,
}

/// What a part of the border asks for after an event.
#[derive(Clone, Copy, PartialEq, Eq, Debug, Structural)]
pub enum BorderResponse {
    /// nothing
    Nothing,
    Resize(ResizeResponse),
    Move(MoveResponse),
    /// the event is for the scrollbar of this side
    ToScrollbar,
}

/// A corner of a border: where it is, what dragging it does, and whether it is being dragged.
#[derive(Clone, Copy, PartialEq, Eq, Debug, Structural)]
pub struct Corner {
    pub pos: CornerPos,
    pub property: PropertyCnr,
    pub dragging: bool,
}

/// How a resize by a drag of (`dx`, `dy`) moves the sides at a corner: the two sides that meet
/// there follow the drag.
pub open spec fn corner_resize(pos: CornerPos, dx: i32, dy: i32) -> ResizeResponse {
    match pos {
        CornerPos::TopLeft => ResizeResponse { left_dx: dx, right_dx: 0, top_dy: dy, bottom_dy: 0 },
        CornerPos::TopRight => ResizeResponse { left_dx: 0, right_dx: dx, top_dy: dy, bottom_dy: 0 },
        CornerPos::BottomLeft => ResizeResponse { left_dx: dx, right_dx: 0, top_dy: 0, bottom_dy: dy },
        CornerPos::BottomRight => ResizeResponse { left_dx: 0, right_dx: dx, top_dy: 0, bottom_dy: dy },
    }
}

/// The corner's handling of an event: whether it is captured, whether the corner is then
/// being dragged, and what it asks for. A corner only for display captures everything and does
/// nothing. A mouse event on the corner is captured: the left button going down starts a drag,
/// a drag keeps it, anything else ends it. A drag elsewhere while dragging asks to resize (the
/// sides at the corner follow the drag) or to move (by the drag); another mouse event elsewhere
/// ends the drag.
pub open spec fn corner_step(c: Corner, ev: BorderEvent) -> (bool, bool, BorderResponse) {
    if c.property == PropertyCnr::DisplayOnly {
        (true, c.dragging, BorderResponse::Nothing)
    } else {
        match ev {
            BorderEvent::Mouse { kind, .. } => (
                true,
                match kind {
                    MouseKind::LeftDown => true,
                    MouseKind::LeftDrag => c.dragging,
                    MouseKind::Other => false,
                },
                BorderResponse::Nothing,
            ),
            BorderEvent::ExternalMouse { kind, column, row } => if kind == MouseKind::LeftDrag
                && c.dragging {
                if c.property == PropertyCnr::DragResize {
                    (true, c.dragging, BorderResponse::Resize(corner_resize(c.pos, column, row)))
                } else {
                    (true, c.dragging, BorderResponse::Move(MoveResponse { dx: column, dy: row }))
                }
            } else {
                (false, false, BorderResponse::Nothing)
            },
            BorderEvent::Other => (false, c.dragging, BorderResponse::Nothing),
        }
    }
}

impl Corner {
    pub fn new(pos: CornerPos, property: PropertyCnr) -> (c: Corner)
        ensures
            c.pos == pos,
            c.property == property,
            !c.dragging,
    {
        Corner { pos, property, dragging: false }
    }

    /// Handles an event as `corner_step` says; returns whether it was captured and what the
    /// corner asks for.
    pub fn receive_event_inner(&mut self, ev: BorderEvent) -> (r: (bool, BorderResponse))
        ensures
            (r.0, final(self).dragging, r.1) == corner_step(*old(self), ev),
            final(self).pos == old(self).pos,
            final(self).property == old(self).property,
    {
        if self.property == PropertyCnr::DisplayOnly {
            return (true, BorderResponse::Nothing);
        }
        match ev {
            BorderEvent::Mouse { kind, .. } => {
                match kind {
                    MouseKind::LeftDown => self.dragging = true,
                    MouseKind::LeftDrag => {},
                    MouseKind::Other => self.dragging = false,
                }
                (true, BorderResponse::Nothing)
            },
            BorderEvent::ExternalMouse { kind, column, row } => {
                if kind == MouseKind::LeftDrag && self.dragging {
                    let dx = column;
                    let dy = row;
                    if self.property == PropertyCnr::DragResize {
                        let resp = match self.pos {
                            CornerPos::TopLeft => ResizeResponse { left_dx: dx, right_dx: 0, top_dy: dy, bottom_dy: 0 },
                            CornerPos::TopRight => ResizeResponse { left_dx: 0, right_dx: dx, top_dy: dy, bottom_dy: 0 },
                            CornerPos::BottomLeft => ResizeResponse { left_dx: dx, right_dx: 0, top_dy: 0, bottom_dy: dy },
                            CornerPos::BottomRight => ResizeResponse { left_dx: 0, right_dx: dx, top_dy: 0, bottom_dy: dy },
                        };
                        return (true, BorderResponse::Resize(resp));
                    } else {
                        return (true, BorderResponse::Move(MoveResponse { dx, dy }));
                    }
                }
                self.dragging = false;
                (false, BorderResponse::Nothing)
            },
            BorderEvent::Other => (false, BorderResponse::Nothing),
        }
    }
}

/// A drag from a start position held on a side of the border moves it by the difference;
/// the difference must be a 32-bit number.
pub open spec fn fits_i32(v: int) -> bool {
    i32::MIN <= v <= i32::MAX
}

/// A vertical side of a border: where it is, what dragging it does, and where a drag on it
/// started.
#[derive(Clone, Copy, Debug)]
pub struct VerticalSide {
    pub pos: VerticalPos,
    pub property: PropertyVrt,
    pub dragging_start_pos: Option<(i32, i32)>,
}

/// The vertical side's handling of an event: whether it is captured, where a drag on it
/// started afterwards, and what it asks for. A side only for display captures everything and
/// does nothing; a scrollbar side hands the event to its scrollbar. A mouse event on the side is
/// captured: the left button going down starts a drag there; a drag on the side moves the
/// element up or down (for a side that moves) by the rows since the start; anything else ends
/// the drag. A drag elsewhere while dragging resizes the side's own edge by the drag's columns,
/// or moves the element by the drag less the start; another mouse event elsewhere ends the
/// drag.
pub open spec fn vertical_step(s: VerticalSide, ev: BorderEvent) -> (bool, Option<(i32, i32)>, BorderResponse) {
    if s.property == PropertyVrt::DisplayOnly {
        (true, s.dragging_start_pos, BorderResponse::Nothing)
    } else if s.property == PropertyVrt::Scrollbar {
        (false, s.dragging_start_pos, BorderResponse::ToScrollbar)
    } else {
        match ev {
            BorderEvent::Mouse { kind, column, row } => if kind == MouseKind::LeftDown {
                (true, Some((column as i32, row as i32)), BorderResponse::Nothing)
            } else if kind == MouseKind::LeftDrag && s.dragging_start_pos is Some {
                if s.property == PropertyVrt::DragMove {
                    (
                        true,
                        s.dragging_start_pos,
                        BorderResponse::Move(
                            MoveResponse { dx: 0, dy: (row - (s.dragging_start_pos->0).1) as i32 },
                        ),
                    )
                } else {
                    (true, s.dragging_start_pos, BorderResponse::Nothing)
                }
            } else {
                (true, None, BorderResponse::Nothing)
            },
            BorderEvent::ExternalMouse { kind, column, row } => if kind == MouseKind::LeftDrag
                && s.dragging_start_pos is Some {
                if s.property == PropertyVrt::DragResize {
                    (
                        true,
                        s.dragging_start_pos,
                        BorderResponse::Resize(
                            match s.pos {
                                VerticalPos::Left => ResizeResponse { left_dx: column, right_dx: 0, top_dy: 0, bottom_dy: 0 },
                                VerticalPos::Right => ResizeResponse { left_dx: 0, right_dx: column, top_dy: 0, bottom_dy: 0 },
                            },
                        ),
                    )
                } else {
                    (
                        true,
                        s.dragging_start_pos,
                        BorderResponse::Move(
                            MoveResponse {
                                dx: (column - (s.dragging_start_pos->0).0) as i32,
                                dy: (row - (s.dragging_start_pos->0).1) as i32,
                            },
                        ),
                    )
                }
            } else {
                (false, None, BorderResponse::Nothing)
            },
            BorderEvent::Other => (false, s.dragging_start_pos, BorderResponse::Nothing),
        }
    }
}

/// The event would make a side that moves compute a difference past 32 bits (which the side
/// cannot do): a drag elsewhere less the start, or a drag on a vertical (horizontal) side less
/// the start row (column).
pub open spec fn drag_overflows(vertical: bool, moves: bool, start: Option<(i32, i32)>, ev: BorderEvent) -> bool {
    moves && start is Some && match ev {
        BorderEvent::ExternalMouse { kind, column, row } => kind == MouseKind::LeftDrag && !(fits_i32(
            column - (start->0).0,
        ) && fits_i32(row - (start->0).1)),
        BorderEvent::Mouse { kind, column, row } => kind == MouseKind::LeftDrag && if vertical {
            !fits_i32(row - (start->0).1)
        } else {
            !fits_i32(column - (start->0).0)
        },
        BorderEvent::Other => false,
    }
}

impl VerticalSide {
    pub fn new(pos: VerticalPos, property: PropertyVrt) -> (s: VerticalSide)
        ensures
            s.pos == pos,
            s.property == property,
            s.dragging_start_pos is None,
    {
        VerticalSide { pos, property, dragging_start_pos: None }
    }

    /// Handles an event as `vertical_step` says; returns whether it was captured and what the
    /// side asks for.
    pub fn receive_event_inner(&mut self, ev: BorderEvent) -> (r: (bool, BorderResponse))
        requires
            !drag_overflows(true, old(self).property == PropertyVrt::DragMove, old(self).dragging_start_pos, ev),
        ensures
            (r.0, final(self).dragging_start_pos, r.1) == vertical_step(*old(self), ev),
            final(self).pos == old(self).pos,
            final(self).property == old(self).property,
    {
        if self.property == PropertyVrt::DisplayOnly {
            return (true, BorderResponse::Nothing);
        }
        if self.property == PropertyVrt::Scrollbar {
            return (false, BorderResponse::ToScrollbar);
        }
        let start = self.dragging_start_pos;
        match ev {
            BorderEvent::Mouse { kind, column, row } => {
                if kind == MouseKind::LeftDown {
                    self.dragging_start_pos = Some((column as i32, row as i32));
                } else if kind == MouseKind::LeftDrag && start.is_some() {
                    let (_, start_y) = start.unwrap();
                    if self.property == PropertyVrt::DragMove {
                        let dy = row as i32 - start_y;
                        return (true, BorderResponse::Move(MoveResponse { dx: 0, dy }));
                    }
                } else {
                    self.dragging_start_pos = None;
                }
                (true, BorderResponse::Nothing)
            },
            BorderEvent::ExternalMouse { kind, column, row } => {
                if kind == MouseKind::LeftDrag && start.is_some() {
                    let dx = column;
                    let dy = row;
                    if self.property == PropertyVrt::DragResize {
                        let resp = match self.pos {
                            VerticalPos::Left => ResizeResponse { left_dx: dx, right_dx: 0, top_dy: 0, bottom_dy: 0 },
                            VerticalPos::Right => ResizeResponse { left_dx: 0, right_dx: dx, top_dy: 0, bottom_dy: 0 },
                        };
                        return (true, BorderResponse::Resize(resp));
                    } else {
                        let (start_x, start_y) = start.unwrap();
                        let resp = MoveResponse { dx: dx - start_x, dy: dy - start_y };
                        return (true, BorderResponse::Move(resp));
                    }
                }
                self.dragging_start_pos = None;
                (false, BorderResponse::Nothing)
            },
            BorderEvent::Other => (false, BorderResponse::Nothing),
        }
    }
}

/// A horizontal side of a border: where it is, what dragging it does, and where a drag on it
/// started.
#[derive(Clone, Copy, Debug)]
pub struct HorizontalSide {
    pub pos: HorizontalPos,
    pub property: PropertyHzt,
    pub dragging_start_pos: Option<(i32, i32)>,
}

/// The horizontal side's handling of an event, as for a vertical side with rows and columns
/// exchanged: a drag on the side moves the element left or right by the columns since the
/// start, and a drag elsewhere resizes the side's own edge by the drag's rows.
pub open spec fn horizontal_step(s: HorizontalSide, ev: BorderEvent) -> (bool, Option<(i32, i32)>, BorderResponse) {
    if s.property == PropertyHzt::DisplayOnly {
        (true, s.dragging_start_pos, BorderResponse::Nothing)
    } else if s.property == PropertyHzt::Scrollbar {
        (false, s.dragging_start_pos, BorderResponse::ToScrollbar)
    } else {
        match ev {
            BorderEvent::Mouse { kind, column, row } => if kind == MouseKind::LeftDown {
                (true, Some((column as i32, row as i32)), BorderResponse::Nothing)
            } else if kind == MouseKind::LeftDrag && s.dragging_start_pos is Some {
                if s.property == PropertyHzt::DragMove {
                    (
                        true,
                        s.dragging_start_pos,
                        BorderResponse::Move(
                            MoveResponse { dx: (column - (s.dragging_start_pos->0).0) as i32, dy: 0 },
                        ),
                    )
                } else {
                    (true, s.dragging_start_pos, BorderResponse::Nothing)
                }
            } else {
                (true, None, BorderResponse::Nothing)
            },
            BorderEvent::ExternalMouse { kind, column, row } => if kind == MouseKind::LeftDrag
                && s.dragging_start_pos is Some {
                if s.property == PropertyHzt::DragResize {
                    (
                        true,
                        s.dragging_start_pos,
                        BorderResponse::Resize(
                            match s.pos {
                                HorizontalPos::Top => ResizeResponse { left_dx: 0, right_dx: 0, top_dy: row, bottom_dy: 0 },
                                HorizontalPos::Bottom => ResizeResponse { left_dx: 0, right_dx: 0, top_dy: 0, bottom_dy: row },
                            },
                        ),
                    )
                } else {
                    (
                        true,
                        s.dragging_start_pos,
                        BorderResponse::Move(
                            MoveResponse {
                                dx: (column - (s.dragging_start_pos->0).0) as i32,
                                dy: (row - (s.dragging_start_pos->0).1) as i32,
                            },
                        ),
                    )
                }
            } else {
                (false, None, BorderResponse::Nothing)
            },
            BorderEvent::Other => (false, s.dragging_start_pos, BorderResponse::Nothing),
        }
    }
}

impl HorizontalSide {
    pub fn new(pos: HorizontalPos, property: PropertyHzt) -> (s: HorizontalSide)
        ensures
            s.pos == pos,
            s.property == property,
            s.dragging_start_pos is None,
    {
        HorizontalSide { pos, property, dragging_start_pos: None }
    }

    /// Handles an event as `horizontal_step` says; returns whether it was captured and what the
    /// side asks for.
    pub fn receive_event_inner(&mut self, ev: BorderEvent) -> (r: (bool, BorderResponse))
        requires
            !drag_overflows(false, old(self).property == PropertyHzt::DragMove, old(self).dragging_start_pos, ev),
        ensures
            (r.0, final(self).dragging_start_pos, r.1) == horizontal_step(*old(self), ev),
            final(self).pos == old(self).pos,
            final(self).property == old(self).property,
    {
        if self.property == PropertyHzt::DisplayOnly {
            return (true, BorderResponse::Nothing);
        }
        if self.property == PropertyHzt::Scrollbar {
            return (false, BorderResponse::ToScrollbar);
        }
        let start = self.dragging_start_pos;
        match ev {
            BorderEvent::Mouse { kind, column, row } => {
                if kind == MouseKind::LeftDown {
                    self.dragging_start_pos = Some((column as i32, row as i32));
                } else if kind == MouseKind::LeftDrag && start.is_some() {
                    let (start_x, _) = start.unwrap();
                    if self.property == PropertyHzt::DragMove {
                        let dx = column as i32 - start_x;
                        return (true, BorderResponse::Move(MoveResponse { dx, dy: 0 }));
                    }
                } else {
                    self.dragging_start_pos = None;
                }
                (true, BorderResponse::Nothing)
            },
            BorderEvent::ExternalMouse { kind, column, row } => {
                if kind == MouseKind::LeftDrag && start.is_some() {
                    let dx = column;
                    let dy = row;
                    if self.property == PropertyHzt::DragResize {
                        let resp = match self.pos {
                            HorizontalPos::Top => ResizeResponse { left_dx: 0, right_dx: 0, top_dy: dy, bottom_dy: 0 },
                            HorizontalPos::Bottom => ResizeResponse { left_dx: 0, right_dx: 0, top_dy: 0, bottom_dy: dy },
                        };
                        return (true, BorderResponse::Resize(resp));
                    } else {
                        let (start_x, start_y) = start.unwrap();
                        let resp = MoveResponse { dx: dx - start_x, dy: dy - start_y };
                        return (true, BorderResponse::Move(resp));
                    }
                }
                self.dragging_start_pos = None;
                (false, BorderResponse::Nothing)
            },
            BorderEvent::Other => (false, BorderResponse::Nothing),
        }
    }
}

/// A corner that resizes moves only the two sides that meet at it.
pub proof fn lemma_corner_resizes_its_sides(c: Corner, ev: BorderEvent)
    ensures
        corner_step(c, ev).2 matches BorderResponse::Resize(r) ==> match c.pos {
            CornerPos::TopLeft => r.right_dx == 0 && r.bottom_dy == 0,
            CornerPos::TopRight => r.left_dx == 0 && r.bottom_dy == 0,
            CornerPos::BottomLeft => r.right_dx == 0 && r.top_dy == 0,
            CornerPos::BottomRight => r.left_dx == 0 && r.top_dy == 0,
        },
{
}

/// A part of the border only for display captures every event and asks for nothing; only a
/// part being dragged asks to resize or move.
pub proof fn lemma_only_dragging_responds(c: Corner, v: VerticalSide, h: HorizontalSide, ev: BorderEvent)
    ensures
        c.property == PropertyCnr::DisplayOnly ==> corner_step(c, ev) == (true, c.dragging, BorderResponse::Nothing),
        v.property == PropertyVrt::DisplayOnly ==> vertical_step(v, ev) == (true, v.dragging_start_pos, BorderResponse::Nothing),
        h.property == PropertyHzt::DisplayOnly ==> horizontal_step(h, ev) == (true, h.dragging_start_pos, BorderResponse::Nothing),
        !c.dragging ==> corner_step(c, ev).2 == BorderResponse::Nothing,
        v.dragging_start_pos is None && v.property != PropertyVrt::Scrollbar ==> vertical_step(v, ev).2 == BorderResponse::Nothing,
        h.dragging_start_pos is None && h.property != PropertyHzt::Scrollbar ==> horizontal_step(h, ev).2 == BorderResponse::Nothing,
{
}

/// Pressing the left button on a part of the border starts a drag there; another mouse event
/// on it other than a drag ends the drag.
pub proof fn lemma_drag_starts_and_ends(c: Corner, v: VerticalSide, column: u16, row: u16)
    requires
        c.property != PropertyCnr::DisplayOnly,
        v.property == PropertyVrt::DragResize || v.property == PropertyVrt::DragMove,
    ensures
        corner_step(c, BorderEvent::Mouse { kind: MouseKind::LeftDown, column, row }).1,
        !corner_step(c, BorderEvent::Mouse { kind: MouseKind::Other, column, row }).1,
        vertical_step(v, BorderEvent::Mouse { kind: MouseKind::LeftDown, column, row }).1 == Some(
            (column as i32, row as i32),
        ),
        vertical_step(v, BorderEvent::Mouse { kind: MouseKind::Other, column, row }).1 is None,
{
}


// ------------------------------------------------------------------------------------------
// Border styles

/// The characters (each with a style) that a border is drawn with.
pub struct BorderSty<S> {
    pub left: DrawCh<S>,
    pub right: DrawCh<S>,
    pub top: DrawCh<S>,
    pub bottom: DrawCh<S>,
    pub top_left: DrawCh<S>,
    pub top_right: DrawCh<S>,
    pub bottom_left: DrawCh<S>,
    pub bottom_right: DrawCh<S>,
}

/// The border is drawn with the characters `cs` (left, right, top, bottom, top left, top right,
/// bottom left, bottom right), each with a clone of `sty`.
pub open spec fn drawn_with<S: Clone>(b: BorderSty<S>, cs: Seq<char>, sty: S) -> bool {
    &&& cs.len() == 8
    &&& b.left.ch == ChPlus::Char(cs[0]) && cloned(sty, b.left.style)
    &&& b.right.ch == ChPlus::Char(cs[1]) && cloned(sty, b.right.style)
    &&& b.top.ch == ChPlus::Char(cs[2]) && cloned(sty, b.top.style)
    &&& b.bottom.ch == ChPlus::Char(cs[3]) && cloned(sty, b.bottom.style)
    &&& b.top_left.ch == ChPlus::Char(cs[4]) && cloned(sty, b.top_left.style)
    &&& b.top_right.ch == ChPlus::Char(cs[5]) && cloned(sty, b.top_right.style)
    &&& b.bottom_left.ch == ChPlus::Char(cs[6]) && cloned(sty, b.bottom_left.style)
    &&& b.bottom_right.ch == ChPlus::Char(cs[7]) && cloned(sty, b.bottom_right.style)
}

impl<S: Clone> BorderSty<S> {
    /// A border of the given characters, each with a clone of `sty`.
    fn from_chars(
        left: char,
        right: char,
        top: char,
        bottom: char,
        top_left: char,
        top_right: char,
        bottom_left: char,
        bottom_right: char,
        sty: S,
    ) -> (b: BorderSty<S>)
        ensures
            drawn_with(b, seq![left, right, top, bottom, top_left, top_right, bottom_left, bottom_right], sty),
    {
        BorderSty {
            left: DrawCh { ch: ChPlus::Char(left), style: sty.clone() },
            right: DrawCh { ch: ChPlus::Char(right), style: sty.clone() },
            top: DrawCh { ch: ChPlus::Char(top), style: sty.clone() },
            bottom: DrawCh { ch: ChPlus::Char(bottom), style: sty.clone() },
            top_left: DrawCh { ch: ChPlus::Char(top_left), style: sty.clone() },
            top_right: DrawCh { ch: ChPlus::Char(top_right), style: sty.clone() },
            bottom_left: DrawCh { ch: ChPlus::Char(bottom_left), style: sty.clone() },
            bottom_right: DrawCh { ch: ChPlus::Char(bottom_right), style: sty },
        }
    }

    pub fn new_borderless(sty: S) -> (b: BorderSty<S>)
        ensures
            drawn_with(b, seq![' ', ' ', ' ', ' ', ' ', ' ', ' ', ' '], sty),
    {
        Self::from_chars(' ', ' ', ' ', ' ', ' ', ' ', ' ', ' ', sty)
    }

    pub fn new_thin_single(sty: S) -> (b: BorderSty<S>)
        ensures
            drawn_with(b, seq!['│', '│', '─', '─', '┌', '┐', '└', '┘'], sty),
    {
        Self::from_chars('│', '│', '─', '─', '┌', '┐', '└', '┘', sty)
    }

    pub fn new_thin_single_rounded(sty: S) -> (b: BorderSty<S>)
        ensures
            drawn_with(b, seq!['│', '│', '─', '─', '╭', '╮', '╰', '╯'], sty),
    {
        Self::from_chars('│', '│', '─', '─', '╭', '╮', '╰', '╯', sty)
    }

    pub fn new_thick_single(sty: S) -> (b: BorderSty<S>)
        ensures
            drawn_with(b, seq!['┃', '┃', '━', '━', '┏', '┓', '┗', '┛'], sty),
    {
        Self::from_chars('┃', '┃', '━', '━', '┏', '┓', '┗', '┛', sty)
    }

    pub fn new_double(sty: S) -> (b: BorderSty<S>)
        ensures
            drawn_with(b, seq!['║', '║', '═', '═', '╔', '╗', '╚', '╝'], sty),
    {
        Self::from_chars('║', '║', '═', '═', '╔', '╗', '╚', '╝', sty)
    }

    pub fn new_double_vertical(sty: S) -> (b: BorderSty<S>)
        ensures
            drawn_with(b, seq!['║', '║', '─', '─', '╓', '╖', '╙', '╜'], sty),
    {
        Self::from_chars('║', '║', '─', '─', '╓', '╖', '╙', '╜', sty)
    }

    pub fn new_double_horizontal(sty: S) -> (b: BorderSty<S>)
        ensures
            drawn_with(b, seq!['│', '│', '═', '═', '╒', '╕', '╘', '╛'], sty),
    {
        Self::from_chars('│', '│', '═', '═', '╒', '╕', '╘', '╛', sty)
    }

    pub fn new_thin_double_dashed(sty: S) -> (b: BorderSty<S>)
        ensures
            drawn_with(b, seq!['╎', '╎', '╌', '╌', '┌', '┐', '└', '┘'], sty),
    {
        Self::from_chars('╎', '╎', '╌', '╌', '┌', '┐', '└', '┘', sty)
    }

    pub fn new_thick_double_dashed(sty: S) -> (b: BorderSty<S>)
        ensures
            drawn_with(b, seq!['╏', '╏', '╍', '╍', '┏', '┓', '┗', '┛'], sty),
    {
        Self::from_chars('╏', '╏', '╍', '╍', '┏', '┓', '┗', '┛', sty)
    }

    pub fn new_thin_triple_dashed(sty: S) -> (b: BorderSty<S>)
        ensures
            drawn_with(b, seq!['┆', '┆', '┄', '┄', '┌', '┐', '└', '┘'], sty),
    {
        Self::from_chars('┆', '┆', '┄', '┄', '┌', '┐', '└', '┘', sty)
    }

    pub fn new_thick_triple_dashed(sty: S) -> (b: BorderSty<S>)
        ensures
            drawn_with(b, seq!['┇', '┇', '┅', '┅', '┏', '┓', '┗', '┛'], sty),
    {
        Self::from_chars('┇', '┇', '┅', '┅', '┏', '┓', '┗', '┛', sty)
    }

    pub fn new_thin_quadruple_dashed(sty: S) -> (b: BorderSty<S>)
        ensures
            drawn_with(b, seq!['┊', '┊', '┈', '┈', '┌', '┐', '└', '┘'], sty),
    {
        Self::from_chars('┊', '┊', '┈', '┈', '┌', '┐', '└', '┘', sty)
    }

    pub fn new_thick_quadruple_dashed(sty: S) -> (b: BorderSty<S>)
        ensures
            drawn_with(b, seq!['┋', '┋', '┉', '┉', '┏', '┓', '┗', '┛'], sty),
    {
        Self::from_chars('┋', '┋', '┉', '┉', '┏', '┓', '┗', '┛', sty)
    }

    /// ```text
    ///  ________
    /// ⎥hello hi⎢
    ///  ‾‾‾‾‾‾‾‾
    /// ```
    pub fn new_tight_box(sty: S) -> (b: BorderSty<S>)
        ensures
            drawn_with(b, seq!['⎥', '⎢', '_', '‾', ' ', ' ', ' ', ' '], sty),
    {
        Self::from_chars('⎥', '⎢', '_', '‾', ' ', ' ', ' ', ' ', sty)
    }

    /// ```text
    /// ⌟________⌞
    /// ⎥hello hi⎢
    /// ⌝‾‾‾‾‾‾‾‾⌜
    /// ```
    pub fn new_tight_box_fancy(sty: S) -> (b: BorderSty<S>)
        ensures
            drawn_with(b, seq!['⎥', '⎢', '_', '‾', '⌟', '⌞', '⌝', '⌜'], sty),
    {
        Self::from_chars('⎥', '⎢', '_', '‾', '⌟', '⌞', '⌝', '⌜', sty)
    }

    /// ```text
    /// ⎡‾‾‾‾‾‾‾‾‾⎤
    /// ⎢ welcome ⎥
    /// ⎢    to   ⎥
    /// ⎢  my box ⎥
    /// ⎣_________⎦
    /// ```
    pub fn new_large_box(sty: S) -> (b: BorderSty<S>)
        ensures
            drawn_with(b, seq!['⎢', '⎥', '‾', '_', '⎡', '⎤', '⎣', '⎦'], sty),
    {
        Self::from_chars('⎢', '⎥', '‾', '_', '⎡', '⎤', '⎣', '⎦', sty)
    }

    /// ```text
    /// ⌜‾‾‾‾‾‾‾‾‾⌝
    /// ⎢ welcome ⎥
    /// ⎢    to   ⎥
    /// ⎢  my box ⎥
    /// ⌞_________⌟
    /// ```
    pub fn new_large_box_fancy(sty: S) -> (b: BorderSty<S>)
        ensures
            drawn_with(b, seq!['⎢', '⎥', '‾', '_', '⌜', '⌝', '⌞', '⌟'], sty),
    {
        Self::from_chars('⎢', '⎥', '‾', '_', '⌜', '⌝', '⌞', '⌟', sty)
    }

    pub fn new_tight_half_block(sty: S) -> (b: BorderSty<S>)
        ensures
            drawn_with(b, seq!['▐', '▌', '▄', '▀', '▗', '▖', '▝', '▘'], sty),
    {
        Self::from_chars('▐', '▌', '▄', '▀', '▗', '▖', '▝', '▘', sty)
    }

    pub fn new_large_half_block(sty: S) -> (b: BorderSty<S>)
        ensures
            drawn_with(b, seq!['▌', '▐', '▀', '▄', '▛', '▜', '▙', '▟'], sty),
    {
        Self::from_chars('▌', '▐', '▀', '▄', '▛', '▜', '▙', '▟', sty)
    }

    /// A border of the one character `ch` all around.
    pub fn new_uniform_ch(ch: char, sty: S) -> (b: BorderSty<S>)
        ensures
            drawn_with(b, seq![ch, ch, ch, ch, ch, ch, ch, ch], sty),
    {
        Self::from_chars(ch, ch, ch, ch, ch, ch, ch, ch, sty)
    }

    /// The border with every corner drawn with `ch` (in the corner's style).
    pub fn with_corners(self, ch: char) -> (b: BorderSty<S>)
        ensures
            b.left == self.left,
            b.right == self.right,
            b.top == self.top,
            b.bottom == self.bottom,
            b.top_left == (DrawCh { ch: ChPlus::Char(ch), style: self.top_left.style }),
            b.top_right == (DrawCh { ch: ChPlus::Char(ch), style: self.top_right.style }),
            b.bottom_left == (DrawCh { ch: ChPlus::Char(ch), style: self.bottom_left.style }),
            b.bottom_right == (DrawCh { ch: ChPlus::Char(ch), style: self.bottom_right.style }),
    {
        let BorderSty { left, right, top, bottom, top_left, top_right, bottom_left, bottom_right } = self;
        BorderSty {
            left,
            right,
            top,
            bottom,
            top_left: DrawCh { ch: ChPlus::Char(ch), style: top_left.style },
            top_right: DrawCh { ch: ChPlus::Char(ch), style: top_right.style },
            bottom_left: DrawCh { ch: ChPlus::Char(ch), style: bottom_left.style },
            bottom_right: DrawCh { ch: ChPlus::Char(ch), style: bottom_right.style },
        }
    }
}


/// What each part of a border does; a side that is none is not drawn.
#[derive(Clone, Copy, Debug)]
pub struct BorderProperies {
    pub left: Option<PropertyVrt>,
    pub right: Option<PropertyVrt>,
    pub top: Option<PropertyHzt>,
    pub bottom: Option<PropertyHzt>,
    pub top_corner: PropertyCnr,
    pub bottom_corner: PropertyCnr,
    pub left_corner: PropertyCnr,
    pub right_corner: PropertyCnr,
}

/// Every side is drawn with the property `v` (vertical) or `h` (horizontal), and every corner
/// has the property `c`.
pub open spec fn all_parts(p: BorderProperies, v: PropertyVrt, h: PropertyHzt, c: PropertyCnr) -> bool {
    &&& p.left == Some(v) && p.right == Some(v)
    &&& p.top == Some(h) && p.bottom == Some(h)
    &&& p.top_corner == c && p.bottom_corner == c && p.left_corner == c && p.right_corner == c
}

impl BorderProperies {
    /// A border only for display.
    pub fn new_basic() -> (p: BorderProperies)
        ensures
            all_parts(p, PropertyVrt::DisplayOnly, PropertyHzt::DisplayOnly, PropertyCnr::DisplayOnly),
    {
        BorderProperies {
            left: Some(PropertyVrt::DisplayOnly),
            right: Some(PropertyVrt::DisplayOnly),
            top: Some(PropertyHzt::DisplayOnly),
            bottom: Some(PropertyHzt::DisplayOnly),
            top_corner: PropertyCnr::DisplayOnly,
            bottom_corner: PropertyCnr::DisplayOnly,
            left_corner: PropertyCnr::DisplayOnly,
            right_corner: PropertyCnr::DisplayOnly,
        }
    }

    /// A border whose every part resizes when dragged.
    pub fn new_resizer() -> (p: BorderProperies)
        ensures
            all_parts(p, PropertyVrt::DragResize, PropertyHzt::DragResize, PropertyCnr::DragResize),
    {
        BorderProperies {
            left: Some(PropertyVrt::DragResize),
            right: Some(PropertyVrt::DragResize),
            top: Some(PropertyHzt::DragResize),
            bottom: Some(PropertyHzt::DragResize),
            top_corner: PropertyCnr::DragResize,
            bottom_corner: PropertyCnr::DragResize,
            left_corner: PropertyCnr::DragResize,
            right_corner: PropertyCnr::DragResize,
        }
    }

    /// A border whose every part moves the element when dragged.
    pub fn new_mover() -> (p: BorderProperies)
        ensures
            all_parts(p, PropertyVrt::DragMove, PropertyHzt::DragMove, PropertyCnr::DragMove),
    {
        BorderProperies {
            left: Some(PropertyVrt::DragMove),
            right: Some(PropertyVrt::DragMove),
            top: Some(PropertyHzt::DragMove),
            bottom: Some(PropertyHzt::DragMove),
            top_corner: PropertyCnr::DragMove,
            bottom_corner: PropertyCnr::DragMove,
            left_corner: PropertyCnr::DragMove,
            right_corner: PropertyCnr::DragMove,
        }
    }
}

impl BorderProperies {
    /// A display-only border with a scrollbar on the right and on the bottom.
    pub fn new_basic_with_scrollbars() -> (p: BorderProperies)
        ensures
            p == (BorderProperies {
                left: Some(PropertyVrt::DisplayOnly),
                right: Some(PropertyVrt::Scrollbar),
                top: Some(PropertyHzt::DisplayOnly),
                bottom: Some(PropertyHzt::Scrollbar),
                top_corner: PropertyCnr::DisplayOnly,
                bottom_corner: PropertyCnr::DisplayOnly,
                left_corner: PropertyCnr::DisplayOnly,
                right_corner: PropertyCnr::DisplayOnly,
            }),
    {
        BorderProperies {
            left: Some(PropertyVrt::DisplayOnly),
            right: Some(PropertyVrt::Scrollbar),
            top: Some(PropertyHzt::DisplayOnly),
            bottom: Some(PropertyHzt::Scrollbar),
            top_corner: PropertyCnr::DisplayOnly,
            bottom_corner: PropertyCnr::DisplayOnly,
            left_corner: PropertyCnr::DisplayOnly,
            right_corner: PropertyCnr::DisplayOnly,
        }
    }

    /// No border but a scrollbar on the right and on the bottom.
    pub fn new_borderless_with_scrollbars() -> (p: BorderProperies)
        ensures
            p == (BorderProperies {
                left: None,
                right: Some(PropertyVrt::Scrollbar),
                top: None,
                bottom: Some(PropertyHzt::Scrollbar),
                top_corner: PropertyCnr::DisplayOnly,
                bottom_corner: PropertyCnr::DisplayOnly,
                left_corner: PropertyCnr::DisplayOnly,
                right_corner: PropertyCnr::DisplayOnly,
            }),
    {
        BorderProperies {
            left: None,
            right: Some(PropertyVrt::Scrollbar),
            top: None,
            bottom: Some(PropertyHzt::Scrollbar),
            top_corner: PropertyCnr::DisplayOnly,
            bottom_corner: PropertyCnr::DisplayOnly,
            left_corner: PropertyCnr::DisplayOnly,
            right_corner: PropertyCnr::DisplayOnly,
        }
    }

    /// A border that resizes when dragged, with a scrollbar on the right and on the bottom.
    pub fn new_resizer_with_scrollbars() -> (p: BorderProperies)
        ensures
            p == (BorderProperies {
                left: Some(PropertyVrt::DragResize),
                right: Some(PropertyVrt::Scrollbar),
                top: Some(PropertyHzt::DragResize),
                bottom: Some(PropertyHzt::Scrollbar),
                top_corner: PropertyCnr::DragResize,
                bottom_corner: PropertyCnr::DragResize,
                left_corner: PropertyCnr::DragResize,
                right_corner: PropertyCnr::DragResize,
            }),
    {
        BorderProperies {
            left: Some(PropertyVrt::DragResize),
            right: Some(PropertyVrt::Scrollbar),
            top: Some(PropertyHzt::DragResize),
            bottom: Some(PropertyHzt::Scrollbar),
            top_corner: PropertyCnr::DragResize,
            bottom_corner: PropertyCnr::DragResize,
            left_corner: PropertyCnr::DragResize,
            right_corner: PropertyCnr::DragResize,
        }
    }
}

// ------------------------------------------------------------------------------------------
// Where the parts of a border go

/// A position along one axis of the bordered element: `offset` cells from its start, or, where
/// `from_end`, `offset` cells before its end (its full size).
#[derive(Clone, Copy, PartialEq, Eq, Debug, Structural)]
pub struct Edge {
    pub from_end: bool,
    pub offset: i32,
}

/// The value of the edge `e` along an axis of `size` cells.
pub open spec fn edge_at(e: Edge, size: int) -> int {
    if e.from_end {
        size - e.offset
    } else {
        e.offset as int
    }
}

/// `n` cells from the start.
pub open spec fn start_edge(n: i32) -> Edge {
    Edge { from_end: false, offset: n }
}

/// `n` cells before the end.
pub open spec fn end_edge(n: i32) -> Edge {
    Edge { from_end: true, offset: n }
}

/// A part of a border and where it goes. A corner is one cell at (`x`, `y`); a vertical side is
/// one column wide (the first column on the left, the last on the right) and spans
/// `start_y..end_y`; a horizontal side is one row high (the first row on top, the last at the
/// bottom) and spans `start_x..end_x`.
#[derive(Clone, Copy, PartialEq, Eq, Debug, Structural)]
pub enum BorderPart {
    Corner { pos: CornerPos, property: PropertyCnr, x: Edge, y: Edge },
    Vertical { pos: VerticalPos, property: PropertyVrt, start_y: Edge, end_y: Edge },
    Horizontal { pos: HorizontalPos, property: PropertyHzt, start_x: Edge, end_x: Edge },
}

/// The parts of a border and where its inner element goes: `inner` is (start x, end x,
/// start y, end y); the scrollbar amounts are by how much the horizontal (vertical) scrollbar
/// is shorter than the full width (height).
pub struct BorderLayout {
    pub parts: Vec<BorderPart>,
    pub inner: (Edge, Edge, Edge, Edge),
    pub x_scrollbar_sub_from_full: usize,
    pub y_scrollbar_sub_from_full: usize,
}

/// 1 where `b`, else 0.
pub open spec fn one_if(b: bool) -> i32 {
    if b {
        1
    } else {
        0
    }
}

/// The parts of a border with the properties `p`, in order: the corners where both their
/// sides are present (top left, top right, bottom left, bottom right; the top corners take the
/// top corner property, the bottom ones the bottom corner property), then the left, right, top
/// and bottom sides where present, each between the corners at its ends.
pub open spec fn border_parts(p: BorderProperies) -> Seq<BorderPart> {
    let tl = p.top is Some && p.left is Some;
    let tr = p.top is Some && p.right is Some;
    let bl = p.bottom is Some && p.left is Some;
    let br = p.bottom is Some && p.right is Some;
    let corners = (if tl {
        seq![BorderPart::Corner { pos: CornerPos::TopLeft, property: p.top_corner, x: start_edge(0), y: start_edge(0) }]
    } else {
        Seq::empty()
    }) + (if tr {
        seq![BorderPart::Corner { pos: CornerPos::TopRight, property: p.top_corner, x: end_edge(1), y: start_edge(0) }]
    } else {
        Seq::empty()
    }) + (if bl {
        seq![BorderPart::Corner { pos: CornerPos::BottomLeft, property: p.bottom_corner, x: start_edge(0), y: end_edge(1) }]
    } else {
        Seq::empty()
    }) + (if br {
        seq![BorderPart::Corner { pos: CornerPos::BottomRight, property: p.bottom_corner, x: end_edge(1), y: end_edge(1) }]
    } else {
        Seq::empty()
    });
    let sides = (match p.left {
        Some(v) => seq![BorderPart::Vertical { pos: VerticalPos::Left, property: v, start_y: start_edge(one_if(tl)), end_y: end_edge(one_if(bl)) }],
        None => Seq::empty(),
    }) + (match p.right {
        Some(v) => seq![BorderPart::Vertical { pos: VerticalPos::Right, property: v, start_y: start_edge(one_if(tr)), end_y: end_edge(one_if(br)) }],
        None => Seq::empty(),
    }) + (match p.top {
        Some(h) => seq![BorderPart::Horizontal { pos: HorizontalPos::Top, property: h, start_x: start_edge(one_if(tl)), end_x: end_edge(one_if(tr)) }],
        None => Seq::empty(),
    }) + (match p.bottom {
        Some(h) => seq![BorderPart::Horizontal { pos: HorizontalPos::Bottom, property: h, start_x: start_edge(one_if(bl)), end_x: end_edge(one_if(br)) }],
        None => Seq::empty(),
    });
    corners + sides
}

/// Where the inner element of a border with the properties `p` goes: one cell in from each
/// side that is present.
pub open spec fn inner_span(p: BorderProperies) -> (Edge, Edge, Edge, Edge) {
    (
        start_edge(one_if(p.left is Some)),
        end_edge(one_if(p.right is Some)),
        start_edge(one_if(p.top is Some)),
        end_edge(one_if(p.bottom is Some)),
    )
}

/// How many of the two corners at the ends of a side are present.
pub open spec fn corners_of(a: bool, b: bool) -> int {
    (if a { 1int } else { 0int }) + (if b { 1int } else { 0int })
}

/// Lays out a border with the properties `p`: its parts (see `border_parts`), where its inner
/// element goes (see `inner_span`), and by how much its scrollbars are shorter than the full
/// size, as the last side along each axis sets it (the right side after the left, the bottom
/// after the top; 0 where no side sets it).
pub fn border_layout(p: &BorderProperies) -> (l: BorderLayout)
    ensures
        l.parts@ == border_parts(*p),
        l.inner == inner_span(*p),
        l.y_scrollbar_sub_from_full == (if p.right is Some {
            corners_of(p.top is Some, p.bottom is Some)
        } else if p.left is Some {
            corners_of(p.top is Some, p.bottom is Some)
        } else {
            0
        }),
        l.x_scrollbar_sub_from_full == (if p.bottom is Some {
            corners_of(p.left is Some, p.right is Some)
        } else if p.top is Some {
            corners_of(p.left is Some, p.right is Some)
        } else {
            0
        }),
{
    let tl = p.top.is_some() && p.left.is_some();
    let tr = p.top.is_some() && p.right.is_some();
    let bl = p.bottom.is_some() && p.left.is_some();
    let br = p.bottom.is_some() && p.right.is_some();
    let zero = Edge { from_end: false, offset: 0 };
    let one_in = Edge { from_end: false, offset: 1 };
    let full = Edge { from_end: true, offset: 0 };
    let last = Edge { from_end: true, offset: 1 };
    let mut parts: Vec<BorderPart> = Vec::new();
    if tl {
        parts.push(BorderPart::Corner { pos: CornerPos::TopLeft, property: p.top_corner, x: zero, y: zero });
    }
    if tr {
        parts.push(BorderPart::Corner { pos: CornerPos::TopRight, property: p.top_corner, x: last, y: zero });
    }
    if bl {
        parts.push(BorderPart::Corner { pos: CornerPos::BottomLeft, property: p.bottom_corner, x: zero, y: last });
    }
    if br {
        parts.push(BorderPart::Corner { pos: CornerPos::BottomRight, property: p.bottom_corner, x: last, y: last });
    }
    let ghost corners = parts@;
    let mut x_less: usize = 0;
    let mut y_less: usize = 0;
    if let Some(v) = p.left {
        y_less = (if tl { 1 } else { 0 }) + (if bl { 1 } else { 0 });
        parts.push(BorderPart::Vertical {
            pos: VerticalPos::Left,
            property: v,
            start_y: if tl { one_in } else { zero },
            end_y: if bl { last } else { full },
        });
    }
    if let Some(v) = p.right {
        y_less = (if tr { 1 } else { 0 }) + (if br { 1 } else { 0 });
        parts.push(BorderPart::Vertical {
            pos: VerticalPos::Right,
            property: v,
            start_y: if tr { one_in } else { zero },
            end_y: if br { last } else { full },
        });
    }
    if let Some(h) = p.top {
        x_less = (if tl { 1 } else { 0 }) + (if tr { 1 } else { 0 });
        parts.push(BorderPart::Horizontal {
            pos: HorizontalPos::Top,
            property: h,
            start_x: if tl { one_in } else { zero },
            end_x: if tr { last } else { full },
        });
    }
    if let Some(h) = p.bottom {
        x_less = (if bl { 1 } else { 0 }) + (if br { 1 } else { 0 });
        parts.push(BorderPart::Horizontal {
            pos: HorizontalPos::Bottom,
            property: h,
            start_x: if bl { one_in } else { zero },
            end_x: if br { last } else { full },
        });
    }
    assert(parts@ =~= border_parts(*p));
    let inner = (
        if p.left.is_some() { one_in } else { zero },
        if p.right.is_some() { last } else { full },
        if p.top.is_some() { one_in } else { zero },
        if p.bottom.is_some() { last } else { full },
    );
    BorderLayout { parts, inner, x_scrollbar_sub_from_full: x_less, y_scrollbar_sub_from_full: y_less }
}

/// On a bordered element of at least 2 by 2 cells, the inner element starts after the left
/// side's column and the top side's row and ends before the right side's column and the bottom
/// side's row, where these sides are present, and otherwise reaches the element's edges; it is
/// never of negative size.
pub proof fn lemma_inner_inside_border(p: BorderProperies, w: int, h: int)
    requires
        w >= 2,
        h >= 2,
    ensures
        ({
            let (sx, ex, sy, ey) = inner_span(p);
            &&& edge_at(sx, w) == (if p.left is Some { 1int } else { 0int })
            &&& edge_at(ex, w) == (if p.right is Some { w - 1 } else { w })
            &&& edge_at(sy, h) == (if p.top is Some { 1int } else { 0int })
            &&& edge_at(ey, h) == (if p.bottom is Some { h - 1 } else { h })
            &&& edge_at(sx, w) <= edge_at(ex, w)
            &&& edge_at(sy, h) <= edge_at(ey, h)
        }),
{
}

} // verus!
