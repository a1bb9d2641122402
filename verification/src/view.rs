use vstd::prelude::*;

verus! {

/// The view of a pane into its content: the size of the content, and the column and row of the
/// content shown at the top left of the view.
#[derive(Clone, Copy, PartialEq, Eq, Debug, Structural)]
pub struct ContentView {
    pub content_width: usize,
    pub content_height: usize,
    pub offset_x: usize,
    pub offset_y: usize,
}

/// The offset `v` kept where the view (of size `view`) shows no more than the content (of size
/// `content`) holds: at most `content - view`, or 0 where the content is smaller.
pub open spec fn clamp_offset(v: int, content: int, view: int) -> int {
    let m = if content >= view { content - view } else { 0 };
    if v > m {
        m
    } else {
        v
    }
}

/// The offset along one axis after bringing the position `pos` into view, from the offset
/// `off`: where `pos` is past the view, the view moves to end at it; where it is before the
/// view, the view moves to start at it. Then, where the view at the former offset went past
/// the end of the content, the offset is set to the size of the view (and kept within the
/// content).
pub open spec fn corrected(off: int, view: int, content: int, pos: int) -> int {
    if off + view > content {
        clamp_offset(view, content, view)
    } else if pos >= off + view {
        clamp_offset(pos - view + 1, content, view)
    } else if pos < off {
        clamp_offset(pos, content, view)
    } else {
        off
    }
}

/// The offset `v` kept within the content (see `clamp_offset`).
fn clamp(v: usize, content: usize, view: usize) -> (r: usize)
    ensures
        r == clamp_offset(v as int, content as int, view as int),
{
    let m = content.saturating_sub(view);
    if v > m {
        m
    } else {
        v
    }
}

impl ContentView {
    /// Shows the content from the column `x` on, as far as the content reaches (see
    /// `clamp_offset`).
    pub fn set_content_x_offset(&mut self, view_width: u16, x: usize)
        ensures
            final(self).offset_x == clamp_offset(x as int, old(self).content_width as int, view_width as int),
            *final(self) == (ContentView { offset_x: final(self).offset_x, ..*old(self) }),
    {
        self.offset_x = clamp(x, self.content_width, view_width as usize);
    }

    /// Shows the content from the row `y` on, as far as the content reaches (see
    /// `clamp_offset`).
    pub fn set_content_y_offset(&mut self, view_height: u16, y: usize)
        ensures
            final(self).offset_y == clamp_offset(y as int, old(self).content_height as int, view_height as int),
            *final(self) == (ContentView { offset_y: final(self).offset_y, ..*old(self) }),
    {
        self.offset_y = clamp(y, self.content_height, view_height as usize);
    }

    /// Moves the view one row up, where it can.
    pub fn scroll_up(&mut self, view_height: u16)
        ensures
            final(self).offset_y == clamp_offset(
                if old(self).offset_y > 0 { old(self).offset_y - 1 } else { 0 },
                old(self).content_height as int,
                view_height as int,
            ),
            *final(self) == (ContentView { offset_y: final(self).offset_y, ..*old(self) }),
    {
        let y = self.offset_y.saturating_sub(1);
        self.set_content_y_offset(view_height, y);
    }

    /// Moves the view one row down, as far as the content reaches.
    pub fn scroll_down(&mut self, view_height: u16)
        requires
            old(self).offset_y < usize::MAX,
        ensures
            final(self).offset_y == clamp_offset(old(self).offset_y + 1, old(self).content_height as int, view_height as int),
            *final(self) == (ContentView { offset_y: final(self).offset_y, ..*old(self) }),
    {
        let y = self.offset_y + 1;
        self.set_content_y_offset(view_height, y);
    }

    /// Moves the view one column left, where it can.
    pub fn scroll_left(&mut self, view_width: u16)
        ensures
            final(self).offset_x == clamp_offset(
                if old(self).offset_x > 0 { old(self).offset_x - 1 } else { 0 },
                old(self).content_width as int,
                view_width as int,
            ),
            *final(self) == (ContentView { offset_x: final(self).offset_x, ..*old(self) }),
    {
        let x = self.offset_x.saturating_sub(1);
        self.set_content_x_offset(view_width, x);
    }

    /// Moves the view one column right, as far as the content reaches.
    pub fn scroll_right(&mut self, view_width: u16)
        requires
            old(self).offset_x < usize::MAX,
        ensures
            final(self).offset_x == clamp_offset(old(self).offset_x + 1, old(self).content_width as int, view_width as int),
            *final(self) == (ContentView { offset_x: final(self).offset_x, ..*old(self) }),
    {
        let x = self.offset_x + 1;
        self.set_content_x_offset(view_width, x);
    }

    /// Moves the view, of the given size, to bring the position (`x`, `y`) of the content into
    /// view (see `corrected`).
    pub fn correct_offsets_to_view_position(&mut self, view_width: u16, view_height: u16, x: usize, y: usize)
        requires
            old(self).offset_x + view_width <= usize::MAX,
            old(self).offset_y + view_height <= usize::MAX,
            view_width > 0 || x < usize::MAX,
            view_height > 0 || y < usize::MAX,
        ensures
            final(self).offset_x == corrected(
                old(self).offset_x as int,
                view_width as int,
                old(self).content_width as int,
                x as int,
            ),
            final(self).offset_y == corrected(
                old(self).offset_y as int,
                view_height as int,
                old(self).content_height as int,
                y as int,
            ),
            final(self).content_width == old(self).content_width,
            final(self).content_height == old(self).content_height,
    {
        let off_y = self.offset_y;
        let off_x = self.offset_x;
        let h = view_height as usize;
        let w = view_width as usize;
        if y >= off_y + h {
            self.set_content_y_offset(view_height, y - h + 1);
        } else if y < off_y {
            self.set_content_y_offset(view_height, y);
        }
        if off_y + h > self.content_height {
            self.set_content_y_offset(view_height, h);
        }
        if x >= off_x + w {
            self.set_content_x_offset(view_width, x - w + 1);
        } else if x < off_x {
            self.set_content_x_offset(view_width, x);
        }
        if off_x + w > self.content_width {
            self.set_content_x_offset(view_width, w);
        }
    }
}

/// The offset always stays within the content.
pub proof fn lemma_clamp_within(v: int, content: int, view: int)
    requires
        0 <= v,
        0 <= content,
        0 <= view,
    ensures
        0 <= clamp_offset(v, content, view),
        content >= view ==> clamp_offset(v, content, view) + view <= content,
        content < view ==> clamp_offset(v, content, view) == 0,
{
}

/// Once the position is brought into view (and the content is at least as large as the view
/// and holds the position), the position is in view, unless the view before went past the end
/// of the content.
pub proof fn lemma_corrected_shows(off: int, view: int, content: int, pos: int)
    requires
        0 <= off,
        0 < view <= content,
        0 <= pos < content,
        off + view <= content,
    ensures
        corrected(off, view, content, pos) <= pos < corrected(off, view, content, pos) + view,
{
}

/// A mouse scroll as a scrollable pane sees it.
#[derive(Clone, Copy, PartialEq, Eq, Debug, Structural)]
pub enum ScrollKind {
    Down,
    Up,
    Left,
    Right,
    /// any other mouse event
    Other,
}

/// The modifier keys held during a mouse event.
#[derive(Clone, Copy, PartialEq, Eq, Debug, Structural)]
pub enum ScrollMods {
    NoMods,
    Shift,
    Other,
}

/// How far a scroll moves the view, `rate` cells at a time: scrolling down or up moves it
/// down or up (sideways while shift is held); scrolling left or right moves it sideways; other
/// events (and scrolling down or up with other modifiers) do not scroll.
pub open spec fn scroll_delta(kind: ScrollKind, mods: ScrollMods, rate: i16) -> Option<(int, int)> {
    match kind {
        ScrollKind::Down => match mods {
            ScrollMods::NoMods => Some((0, rate as int)),
            ScrollMods::Shift => Some((rate as int, 0)),
            ScrollMods::Other => None,
        },
        ScrollKind::Up => match mods {
            ScrollMods::NoMods => Some((0, -rate)),
            ScrollMods::Shift => Some((-rate, 0)),
            ScrollMods::Other => None,
        },
        ScrollKind::Left => Some((-rate, 0)),
        ScrollKind::Right => Some((rate as int, 0)),
        ScrollKind::Other => None,
    }
}

/// The offset `off` moved by `d`, not below 0.
pub open spec fn moved_offset(off: int, d: int) -> int {
    if d < 0 {
        if off + d > 0 { off + d } else { 0 }
    } else {
        off + d
    }
}

/// A pane whose content, of a fixed size, is scrolled with the mouse.
#[derive(Clone, Copy, PartialEq, Eq, Debug, Structural)]
pub struct PaneScrollable {
    pub view: ContentView,
    /// how many cells a scroll moves the view; `None` turns scrolling off
    pub scroll_rate: Option<i16>,
}

/// What a scrollable pane did with a mouse event.
#[derive(Clone, Copy, PartialEq, Eq, Debug, Structural)]
pub enum ScrollOutcome {
    /// the view scrolled
    Scrolled,
    /// the event goes to the content, at this column and row of it
    Pass(u16, u16),
}

impl PaneScrollable {
    /// A pane with content `width` by `height`, viewed from its top left, scrolling three cells
    /// at a time.
    pub fn new(width: usize, height: usize) -> (p: PaneScrollable)
        ensures
            p.view == (ContentView { content_width: width, content_height: height, offset_x: 0, offset_y: 0 }),
            p.scroll_rate == Some(3i16),
    {
        PaneScrollable {
            view: ContentView { content_width: width, content_height: height, offset_x: 0, offset_y: 0 },
            scroll_rate: Some(3),
        }
    }

    /// The part of the content in a view of `view_width` by `view_height`: columns `x1..x2`
    /// and rows `y1..y2`, the offsets taken as 16-bit numbers.
    pub fn visible_region(&self, view_width: u16, view_height: u16) -> (r: (u16, u16, u16, u16))
        requires
            (self.view.offset_x as u16) + view_width <= u16::MAX,
            (self.view.offset_y as u16) + view_height <= u16::MAX,
        ensures
            r.0 == self.view.offset_x as u16 && r.1 == r.0 + view_width,
            r.2 == self.view.offset_y as u16 && r.3 == r.2 + view_height,
    {
        let x1 = self.view.offset_x as u16;
        let y1 = self.view.offset_y as u16;
        (x1, x1 + view_width, y1, y1 + view_height)
    }

    /// Reacts to a mouse event at (`col`, `row`) of a view of `view_width` by `view_height`:
    /// a scroll (see `scroll_delta`) moves the view by the scroll rate, kept within the content
    /// (see `ContentView::set_content_x_offset`); any other event, and every event while
    /// scrolling is off, goes to the content at its position there (the offsets added, taken as
    /// 16-bit numbers).
    pub fn receive_mouse(
        &mut self,
        kind: ScrollKind,
        mods: ScrollMods,
        col: u16,
        row: u16,
        view_width: u16,
        view_height: u16,
    ) -> (r: ScrollOutcome)
        requires
            col + (old(self).view.offset_x as u16) <= u16::MAX,
            row + (old(self).view.offset_y as u16) <= u16::MAX,
            old(self).scroll_rate matches Some(rt) ==> rt != i16::MIN,
            old(self).view.offset_x + i16::MAX <= usize::MAX,
            old(self).view.offset_y + i16::MAX <= usize::MAX,
        ensures
            match old(self).scroll_rate {
                Some(rt) => match scroll_delta(kind, mods, rt) {
                    Some((dx, dy)) => r == ScrollOutcome::Scrolled && final(self).view == (ContentView {
                        offset_x: clamp_offset(
                            moved_offset(old(self).view.offset_x as int, dx),
                            old(self).view.content_width as int,
                            view_width as int,
                        ) as usize,
                        offset_y: clamp_offset(
                            moved_offset(old(self).view.offset_y as int, dy),
                            old(self).view.content_height as int,
                            view_height as int,
                        ) as usize,
                        ..old(self).view
                    }),
                    None => r == ScrollOutcome::Pass(
                        (col + (old(self).view.offset_x as u16)) as u16,
                        (row + (old(self).view.offset_y as u16)) as u16,
                    ) && final(self).view == old(self).view,
                },
                None => r == ScrollOutcome::Pass(
                    (col + (old(self).view.offset_x as u16)) as u16,
                    (row + (old(self).view.offset_y as u16)) as u16,
                ) && final(self).view == old(self).view,
            },
            final(self).scroll_rate == old(self).scroll_rate,
    {
        let c = col + (self.view.offset_x as u16);
        let r = row + (self.view.offset_y as u16);
        let rate = match self.scroll_rate {
            Some(rt) => rt,
            None => return ScrollOutcome::Pass(c, r),
        };
        let delta: Option<(i16, i16)> = match kind {
            ScrollKind::Down => match mods {
                ScrollMods::NoMods => Some((0, rate)),
                ScrollMods::Shift => Some((rate, 0)),
                ScrollMods::Other => None,
            },
            ScrollKind::Up => match mods {
                ScrollMods::NoMods => Some((0, -rate)),
                ScrollMods::Shift => Some((-rate, 0)),
                ScrollMods::Other => None,
            },
            ScrollKind::Left => Some((-rate, 0)),
            ScrollKind::Right => Some((rate, 0)),
            ScrollKind::Other => None,
        };
        match delta {
            Some((dx, dy)) => {
                let x = if dx < 0 {
                    self.view.offset_x.saturating_sub((-dx) as usize)
                } else {
                    self.view.offset_x + dx as usize
                };
                let y = if dy < 0 {
                    self.view.offset_y.saturating_sub((-dy) as usize)
                } else {
                    self.view.offset_y + dy as usize
                };
                self.view.set_content_x_offset(view_width, x);
                self.view.set_content_y_offset(view_height, y);
                ScrollOutcome::Scrolled
            },
            None => ScrollOutcome::Pass(c, r),
        }
    }
}

/// Where a scroll moves the view's column offset `off` (content `cw` wide, view `vw` wide),
/// with a scroll rate `rate` above zero: scrolling right, or down with shift held, moves it
/// `rate` columns right as far as the content leaves room, never left of where it was (for an
/// offset within the content); scrolling left, or up with shift held, moves it `rate` columns
/// left, not past the first column, never right of where it was; the other scrolls leave it
/// (kept within the content).
pub proof fn lemma_scroll_columns(kind: ScrollKind, mods: ScrollMods, rate: i16, off: usize, cw: usize, vw: usize)
    requires
        rate > 0,
    ensures
        ({
            let m = if cw >= vw { cw - vw } else { 0 };
            let after = match scroll_delta(kind, mods, rate) {
                Some((dx, _)) => clamp_offset(moved_offset(off as int, dx), cw as int, vw as int),
                None => off as int,
            };
            &&& (kind is Right || (kind is Down && mods is Shift)) ==> {
                &&& after == if off + rate > m { m } else { off + rate }
                &&& off <= m ==> after >= off
            }
            &&& (kind is Left || (kind is Up && mods is Shift)) ==> {
                &&& after == clamp_offset(if off >= rate { off - rate } else { 0 }, cw as int, vw as int)
                &&& off <= m ==> after <= off
            }
            &&& ((kind is Down || kind is Up) && mods is NoMods) ==> after == clamp_offset(off as int, cw as int, vw as int)
            &&& (kind is Other || ((kind is Down || kind is Up) && mods is Other)) ==> scroll_delta(kind, mods, rate) is None
        }),
{
}

/// Where a scroll moves the view's row offset `off` (content `ch` high, view `vh` high), with a
/// scroll rate above zero: scrolling down (no modifier) moves it `rate` rows down as far as the
/// content leaves room, up moves it `rate` rows up, not past the first row; scrolling sideways,
/// or down or up with shift held, leaves the rows (kept within the content).
pub proof fn lemma_scroll_rows(kind: ScrollKind, mods: ScrollMods, rate: i16, off: usize, ch: usize, vh: usize)
    requires
        rate > 0,
    ensures
        ({
            let m = if ch >= vh { ch - vh } else { 0 };
            let after = match scroll_delta(kind, mods, rate) {
                Some((_, dy)) => clamp_offset(moved_offset(off as int, dy), ch as int, vh as int),
                None => off as int,
            };
            &&& (kind is Down && mods is NoMods) ==> after == if off + rate > m { m } else { off + rate }
            &&& (kind is Up && mods is NoMods) ==> after == clamp_offset(if off >= rate { off - rate } else { 0 }, ch as int, vh as int)
            &&& (kind is Left || kind is Right || ((kind is Down || kind is Up) && mods is Shift)) ==> after == clamp_offset(
                off as int,
                ch as int,
                vh as int,
            )
        }),
{
}

} // verus!
