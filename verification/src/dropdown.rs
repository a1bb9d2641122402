use vstd::prelude::*;
use crate::ch::{longest_line, max_line_len, push_char, split_lines, str_chars, text_lines};
use crate::view::{corrected, ContentView};

verus! {

/// A list of entries of which one is selected, shown on one line while closed and as a list
/// below it while open.
pub struct DropdownList {
    pub entries: Vec<String>,
    pub left_padding: usize,
    /// the width set by the caller, where there is one
    pub specified_width: Option<i32>,
    /// the entry that has been selected
    pub selected: usize,
    /// the entry under the cursor while open
    pub cursor: usize,
    pub open: bool,
    /// the most rows the open list takes
    pub max_expanded_height: usize,
    /// the mouse was pressed down over the closed list
    pub clicked_down: bool,
    /// the view of the list into its text
    pub view: ContentView,
    /// the height of the list: one row while closed
    pub height: i32,
    /// the text is to be drawn anew
    pub dirty: bool,
}

/// `n` spaces.
pub open spec fn spaces(n: nat) -> Seq<char> {
    Seq::new(n, |i: int| ' ')
}

/// The length of the longest entry, 0 for none.
pub open spec fn max_entry_len(entries: Seq<String>) -> nat
    decreases entries.len(),
{
    if entries.len() == 0 {
        0
    } else {
        let m = max_entry_len(entries.drop_last());
        if entries.last()@.len() > m {
            entries.last()@.len()
        } else {
            m
        }
    }
}

/// The entry at `i` with the left padding before it and spaces after it up to `width`.
pub open spec fn padded_entry(entries: Seq<String>, left_padding: usize, width: int, i: int) -> Seq<char> {
    let e = entries[i]@;
    let used = e.len() + left_padding;
    spaces(left_padding as nat) + e + spaces(if width > used { (width - used) as nat } else { 0 })
}

/// The first `n` padded entries, a newline between each two.
pub open spec fn joined_entries(entries: Seq<String>, left_padding: usize, width: int, n: nat) -> Seq<char>
    decreases n,
{
    if n == 0 {
        Seq::empty()
    } else if n == 1 {
        padded_entry(entries, left_padding, width, 0)
    } else {
        joined_entries(entries, left_padding, width, (n - 1) as nat) + seq!['\n'] + padded_entry(
            entries,
            left_padding,
            width,
            n - 1,
        )
    }
}

/// The text of the list (without the arrow): the selected entry while closed, all the entries
/// while open.
pub open spec fn list_text(d: DropdownList, width: int) -> Seq<char> {
    if !d.open {
        padded_entry(d.entries@, d.left_padding, width, d.selected as int)
    } else {
        joined_entries(d.entries@, d.left_padding, width, d.entries@.len())
    }
}

/// The padding of each entry fits in a machine word.
pub open spec fn paddings_fit(d: DropdownList) -> bool {
    forall|i: int| 0 <= i < d.entries@.len() ==> #[trigger] d.entries@[i]@.len() + d.left_padding <= usize::MAX
}

/// The rows the open list takes: all the entries, at most `max_expanded_height`.
pub open spec fn expanded(d: DropdownList) -> usize {
    if d.entries@.len() > d.max_expanded_height {
        d.max_expanded_height
    } else {
        d.entries@.len() as usize
    }
}

/// The view after bringing row `y` (and column 0) into a view of `w` by `h`.
pub open spec fn view_at(v: ContentView, w: u16, h: u16, y: int) -> ContentView {
    ContentView {
        offset_x: corrected(v.offset_x as int, w as int, v.content_width as int, 0) as usize,
        offset_y: corrected(v.offset_y as int, h as int, v.content_height as int, y) as usize,
        ..v
    }
}

/// The view with the text `t` as its content, the offsets kept.
pub open spec fn with_text(v: ContentView, t: Seq<char>) -> ContentView {
    ContentView {
        content_width: max_line_len(text_lines(t)) as usize,
        content_height: text_lines(t).len() as usize,
        ..v
    }
}

/// The list after opening it in a context `w` by `h`: the cursor on the selected entry, the
/// height of the open list, the open text as content, and the cursor brought into view.
pub open spec fn opened(d: DropdownList, w: u16, h: u16) -> DropdownList {
    let o = DropdownList { open: true, ..d };
    DropdownList {
        dirty: true,
        open: true,
        cursor: d.selected,
        height: expanded(d) as i32,
        view: view_at(with_text(d.view, list_text(o, w as int)), w, h, d.selected as int),
        ..d
    }
}

/// The list after closing it: one row high, its view at the top, and, unless it is closed with
/// escape, the entry under the cursor selected.
pub open spec fn closed(d: DropdownList, escaped: bool) -> DropdownList {
    DropdownList {
        dirty: true,
        open: false,
        height: 1,
        view: ContentView { offset_y: 0, ..d.view },
        selected: if !escaped && d.selected != d.cursor { d.cursor } else { d.selected },
        ..d
    }
}

/// The list after moving the cursor one entry up (or down), where it can, and bringing it into
/// a view of `w` by `h`.
pub open spec fn cursor_moved(d: DropdownList, up: bool, w: u16, h: u16) -> DropdownList {
    let last = if d.entries@.len() > 0 { d.entries@.len() - 1 } else { 0 };
    let c = if up {
        if d.cursor > 0 { d.cursor - 1 } else { d.cursor as int }
    } else {
        if d.cursor < last { d.cursor + 1 } else { d.cursor as int }
    };
    DropdownList { dirty: true, cursor: c as usize, view: view_at(d.view, w, h, c), ..d }
}

/// The offsets of the view leave room for a context of `w` by `h` and the cursor.
pub open spec fn offsets_fit(d: DropdownList, w: u16, h: u16) -> bool {
    &&& d.view.offset_x + w <= usize::MAX
    &&& d.view.offset_y + h <= usize::MAX
    &&& d.cursor < usize::MAX
    &&& d.selected < usize::MAX
}

/// Appends `n` spaces.
fn push_spaces(s: &mut String, n: usize)
    ensures
        final(s)@ == old(s)@ + spaces(n as nat),
{
    let mut i: usize = 0;
    while i < n
        invariant
            i <= n,
            s@ == old(s)@ + spaces(i as nat),
        decreases n - i,
    {
        push_char(s, ' ');
        assert(s@ =~= old(s)@ + spaces((i + 1) as nat));
        i = i + 1;
    }
}

/// Appends the characters of `t`.
fn push_all(s: &mut String, t: &str)
    ensures
        final(s)@ == old(s)@ + t@,
{
    let cs = str_chars(t);
    let mut i: usize = 0;
    while i < cs.len()
        invariant
            cs@ == t@,
            i <= cs@.len(),
            s@ == old(s)@ + cs@.take(i as int),
        decreases cs@.len() - i,
    {
        push_char(s, cs[i]);
        assert(cs@.take(i + 1) =~= cs@.take(i as int).push(cs@[i as int]));
        i = i + 1;
    }
    assert(cs@.take(cs@.len() as int) =~= cs@);
}

impl DropdownList {
    /// A closed list of `entries`, the first selected, with a padding of one, opening to at
    /// most ten rows.
    pub fn new(entries: Vec<String>) -> (d: DropdownList)
        ensures
            d.entries == entries,
            d.left_padding == 1 && d.specified_width is None,
            d.selected == 0 && d.cursor == 0 && !d.open && !d.clicked_down && d.dirty,
            d.max_expanded_height == 10,
            d.height == 1,
            d.view == (ContentView { content_width: 0, content_height: 0, offset_x: 0, offset_y: 0 }),
    {
        DropdownList {
            entries,
            left_padding: 1,
            specified_width: None,
            selected: 0,
            cursor: 0,
            open: false,
            max_expanded_height: 10,
            clicked_down: false,
            view: ContentView { content_width: 0, content_height: 0, offset_x: 0, offset_y: 0 },
            height: 1,
            dirty: true,
        }
    }

    /// This list with the width `width`.
    pub fn with_width(self, width: i32) -> (d: DropdownList)
        ensures
            d == (DropdownList { specified_width: Some(width), ..self }),
    {
        DropdownList { specified_width: Some(width), ..self }
    }

    /// This list with the left padding `padding`.
    pub fn with_left_padding(self, padding: usize) -> (d: DropdownList)
        ensures
            d == (DropdownList { left_padding: padding, ..self }),
    {
        DropdownList { left_padding: padding, ..self }
    }

    /// This list opening to at most `height` rows.
    pub fn with_max_expanded_height(self, height: usize) -> (d: DropdownList)
        ensures
            d == (DropdownList { max_expanded_height: height, ..self }),
    {
        DropdownList { max_expanded_height: height, ..self }
    }

    /// The width of the list: the width set, else the padding, the longest entry and the
    /// arrow.
    pub fn calculate_dyn_width(&self) -> (w: i32)
        requires
            self.specified_width is None ==> self.left_padding + max_entry_len(self.entries@) + 1 <= i32::MAX,
        ensures
            w == match self.specified_width {
                Some(v) => v as int,
                None => self.left_padding + max_entry_len(self.entries@) + 1,
            },
    {
        if let Some(v) = self.specified_width {
            return v;
        }
        let mut m: usize = 0;
        let mut i: usize = 0;
        while i < self.entries.len()
            invariant
                i <= self.entries@.len(),
                m == max_entry_len(self.entries@.take(i as int)),
            decreases self.entries@.len() - i,
        {
            proof {
                let t = self.entries@.take(i + 1);
                assert(t.drop_last() =~= self.entries@.take(i as int));
            }
            let n = self.entries[i].unicode_len();
            if n > m {
                m = n;
            }
            i = i + 1;
        }
        proof {
            assert(self.entries@.take(self.entries@.len() as int) =~= self.entries@);
        }
        (self.left_padding as i32) + (m as i32) + 1
    }

    /// The entry at `i` padded to `width` (see `padded_entry`).
    pub fn padded_entry_text(&self, width: u16, i: usize) -> (s: String)
        requires
            i < self.entries@.len(),
            self.entries@[i as int]@.len() + self.left_padding <= usize::MAX,
        ensures
            s@ == padded_entry(self.entries@, self.left_padding, width as int, i as int),
    {
        let entry = self.entries[i].as_str();
        let used = entry.unicode_len() + self.left_padding;
        let right = (width as usize).saturating_sub(used);
        let mut out = String::new();
        push_spaces(&mut out, self.left_padding);
        push_all(&mut out, entry);
        push_spaces(&mut out, right);
        out
    }

    /// The text of the list, without the arrow (see `list_text`).
    pub fn text(&self, width: u16) -> (s: String)
        requires
            paddings_fit(*self),
            !self.open ==> self.selected < self.entries@.len(),
        ensures
            s@ == list_text(*self, width as int),
    {
        if !self.open {
            return self.padded_entry_text(width, self.selected);
        }
        let n = self.entries.len();
        let mut out = String::new();
        let mut i: usize = 0;
        while i < n
            invariant
                n == self.entries@.len(),
                self.open,
                paddings_fit(*self),
                i <= n,
                out@ == joined_entries(self.entries@, self.left_padding, width as int, i as nat),
            decreases n - i,
        {
            assert(self.entries@[i as int]@.len() + self.left_padding <= usize::MAX);
            let p = self.padded_entry_text(width, i);
            if i > 0 {
                push_char(&mut out, '\n');
            }
            push_all(&mut out, p.as_str());
            i = i + 1;
        }
        out
    }

    /// The rows the open list takes (see `expanded`).
    pub fn expanded_height(&self) -> (h: usize)
        ensures
            h == expanded(*self),
    {
        if self.entries.len() > self.max_expanded_height {
            self.max_expanded_height
        } else {
            self.entries.len()
        }
    }

    /// Whether the open list shows a scrollbar: it has more entries than rows.
    pub fn display_scrollbar(&self) -> (b: bool)
        ensures
            b == (self.entries@.len() > expanded(*self)),
    {
        self.entries.len() > self.expanded_height()
    }

    /// Makes the text `t` the content of the view.
    fn set_content_text(&mut self, t: &String)
        ensures
            *final(self) == (DropdownList { view: with_text(old(self).view, t@), ..*old(self) }),
    {
        let cs = str_chars(t.as_str());
        let lines = split_lines(&cs);
        let w = longest_line(&lines);
        self.view.content_width = w;
        self.view.content_height = lines.len();
    }

    /// Brings the entry under the cursor into a view of `w` by `h`.
    pub fn correct_offsets(&mut self, w: u16, h: u16)
        requires
            offsets_fit(*old(self), w, h),
        ensures
            *final(self) == (DropdownList { view: view_at(old(self).view, w, h, old(self).cursor as int), ..*old(self) }),
    {
        let c = self.cursor;
        let mut v = self.view;
        v.correct_offsets_to_view_position(w, h, 0, c);
        self.view = v;
    }

    /// Opens the list in a context of `w` by `h` (see `opened`).
    pub fn perform_open(&mut self, w: u16, h: u16)
        requires
            paddings_fit(*old(self)),
            offsets_fit(*old(self), w, h),
        ensures
            *final(self) == opened(*old(self), w, h),
    {
        self.dirty = true;
        self.open = true;
        self.cursor = self.selected;
        let eh = self.expanded_height();
        self.height = #[verifier::truncate] (eh as i32);
        let t = self.text(w);
        self.set_content_text(&t);
        self.correct_offsets(w, h);
    }

    /// Closes the list without choosing (see `closed`).
    pub fn perform_close_escape(&mut self)
        ensures
            *final(self) == closed(*old(self), true),
    {
        self.dirty = true;
        self.open = false;
        let mut v = self.view;
        v.set_content_y_offset(0, 0);
        self.view = v;
        self.height = 1;
    }

    /// Closes the list (see `closed`). Returns the entry newly selected, where one is: its
    /// action is to run.
    pub fn perform_close(&mut self, h: u16, escaped: bool) -> (r: Option<usize>)
        ensures
            *final(self) == closed(*old(self), escaped),
            r == (if !escaped && old(self).selected != old(self).cursor {
                Some(old(self).cursor)
            } else {
                None::<usize>
            }),
    {
        self.dirty = true;
        self.open = false;
        let mut v = self.view;
        v.set_content_y_offset(h, 0);
        self.view = v;
        self.height = 1;
        if !escaped && self.selected != self.cursor {
            self.selected = self.cursor;
            Some(self.selected)
        } else {
            None
        }
    }

    /// Moves the cursor one entry up, where it can (see `cursor_moved`).
    pub fn cursor_up(&mut self, w: u16, h: u16)
        requires
            offsets_fit(*old(self), w, h),
        ensures
            *final(self) == cursor_moved(*old(self), true, w, h),
    {
        self.dirty = true;
        if self.cursor > 0 {
            self.cursor = self.cursor - 1;
        }
        self.correct_offsets(w, h);
    }

    /// Moves the cursor one entry down, where it can (see `cursor_moved`).
    pub fn cursor_down(&mut self, w: u16, h: u16)
        requires
            offsets_fit(*old(self), w, h),
        ensures
            *final(self) == cursor_moved(*old(self), false, w, h),
    {
        self.dirty = true;
        if self.cursor < self.entries.len().saturating_sub(1) {
            self.cursor = self.cursor + 1;
        }
        self.correct_offsets(w, h);
    }
}

/// A key as a dropdown list sees it: enter, down (or `j`), up (or `k`), space, or another one.
#[derive(Clone, Copy, PartialEq, Eq, Debug, Structural)]
pub enum DropdownKey {
    Enter,
    Down,
    Up,
    Space,
    Other,
}

/// A mouse event as a dropdown list sees it.
#[derive(Clone, Copy, PartialEq, Eq, Debug, Structural)]
pub enum DropdownMouse {
    LeftDown,
    LeftDrag,
    LeftUp,
    ScrollUp,
    ScrollDown,
    Other,
}

/// An event as a dropdown list sees it.
#[derive(Clone, Copy, PartialEq, Eq, Debug, Structural)]
pub enum DropdownEvent {
    /// a key combination, with its first key (none for an empty one)
    Keys(Option<DropdownKey>),
    /// a mouse event at column `x` and row `y` of the list
    Mouse { kind: DropdownMouse, x: usize, y: usize },
    /// the screen was resized
    Resize,
    /// anything else
    Other,
}

/// What a dropdown list did with an event.
#[derive(Clone, Copy, PartialEq, Eq, Debug, Structural)]
pub enum DropdownOutcome {
    /// the event was not taken
    Ignored,
    /// the event was taken
    Taken,
    /// the event was taken and the entry at this index newly selected: its action is to run
    Selected(usize),
    /// the event is for the scrollbar of the open list (a mouse event moved to its column 0
    /// and one row up)
    Scrollbar,
}

/// The list marked to be drawn anew.
pub open spec fn dirtied(d: DropdownList) -> DropdownList {
    DropdownList { dirty: true, ..d }
}

/// The outcome of closing the list (see `closed`).
pub open spec fn close_outcome(d: DropdownList, escaped: bool) -> DropdownOutcome {
    if !escaped && d.selected != d.cursor {
        DropdownOutcome::Selected(d.cursor)
    } else {
        DropdownOutcome::Taken
    }
}

/// What the list does with `ev` (see `DropdownList::receive_event`), in a context of `w` by
/// `h`, `width` being the width of the list, `is_selected` whether it is the selected element
/// and `pane_captured` whether its pane captured the event already (nothing then changes).
/// Keys count only while it is selected: enter, down or up open the closed list; on the open
/// list enter closes it choosing the entry under the cursor, down and up move the cursor, and
/// space goes to the scrollbar. A left press on the closed list holds it; releasing the mouse
/// over a held closed list opens it. On the open list scrolling moves the cursor; moving the
/// mouse over an entry puts the cursor on it; a release on the arrow closes it without
/// choosing, elsewhere it chooses the entry under the mouse; in the last column below the arrow
/// (where there is a scrollbar) presses and drags go to the scrollbar.
pub open spec fn dropdown_step(
    d: DropdownList,
    ev: DropdownEvent,
    is_selected: bool,
    pane_captured: bool,
    width: usize,
    w: u16,
    h: u16,
) -> (DropdownList, DropdownOutcome) {
    if pane_captured {
        (d, DropdownOutcome::Taken)
    } else {
        match ev {
            DropdownEvent::Keys(k) => match k {
                None => (d, DropdownOutcome::Ignored),
                Some(key) => if !is_selected {
                    (d, DropdownOutcome::Ignored)
                } else if !d.open && (key is Enter || key is Down || key is Up) {
                    (opened(d, w, h), DropdownOutcome::Taken)
                } else if d.open && key is Enter {
                    (closed(d, false), close_outcome(d, false))
                } else if d.open && key is Down {
                    (cursor_moved(d, false, w, h), DropdownOutcome::Taken)
                } else if d.open && key is Up {
                    (cursor_moved(d, true, w, h), DropdownOutcome::Taken)
                } else if d.open && key is Space {
                    (dirtied(d), DropdownOutcome::Scrollbar)
                } else {
                    (d, DropdownOutcome::Ignored)
                },
            },
            DropdownEvent::Mouse { kind, x, y } => {
                let cd = d.clicked_down;
                if !d.open && kind is LeftDown {
                    (DropdownList { clicked_down: true, ..d }, DropdownOutcome::Taken)
                } else {
                    let d1 = if !d.open && !(kind is LeftDrag && cd) {
                        DropdownList { clicked_down: false, ..d }
                    } else {
                        d
                    };
                    let clicked = kind is LeftUp && (cd || d.open);
                    let dragging = kind is LeftDrag;
                    let last_col = if width > 0 { width - 1 } else { 0 };
                    let on_arrow = y == 0 && x == last_col;
                    let on_bar = y > 0 && x == last_col && d.entries@.len() > expanded(d);
                    let hovered = DropdownList { cursor: (y + d.view.offset_y) as usize, ..d1 };
                    if !d.open && clicked {
                        (opened(d1, w, h), DropdownOutcome::Taken)
                    } else if d.open && kind is ScrollUp {
                        (cursor_moved(d1, true, w, h), DropdownOutcome::Taken)
                    } else if d.open && kind is ScrollDown {
                        (cursor_moved(d1, false, w, h), DropdownOutcome::Taken)
                    } else if d.open && (!clicked || dragging) {
                        if on_arrow {
                            (dirtied(d1), DropdownOutcome::Taken)
                        } else if on_bar {
                            if dragging {
                                (d1, DropdownOutcome::Scrollbar)
                            } else {
                                (dirtied(d1), DropdownOutcome::Taken)
                            }
                        } else {
                            (dirtied(hovered), DropdownOutcome::Taken)
                        }
                    } else if d.open && clicked {
                        if on_bar {
                            (dirtied(d1), DropdownOutcome::Scrollbar)
                        } else if on_arrow {
                            (closed(d1, true), DropdownOutcome::Taken)
                        } else {
                            (closed(hovered, false), close_outcome(hovered, false))
                        }
                    } else {
                        (d1, DropdownOutcome::Ignored)
                    }
                }
            },
            DropdownEvent::Resize => (dirtied(d), DropdownOutcome::Taken),
            DropdownEvent::Other => (d, DropdownOutcome::Ignored),
        }
    }
}

impl DropdownList {
    /// Reacts to the list becoming the selected element or not: an open list that is no
    /// longer selected closes without choosing; either way it is drawn anew.
    pub fn on_selectability_change(&mut self, is_selected: bool)
        ensures
            *final(self) == (if !is_selected && old(self).open {
                closed(*old(self), true)
            } else {
                dirtied(*old(self))
            }),
    {
        if !is_selected && self.open {
            self.perform_close_escape();
        }
        self.dirty = true;
    }

    /// Reacts to `ev` in a context of `w` by `h`, `width` being the width of the list (see
    /// `dropdown_step`).
    pub fn receive_event(
        &mut self,
        ev: DropdownEvent,
        is_selected: bool,
        pane_captured: bool,
        width: usize,
        w: u16,
        h: u16,
    ) -> (r: DropdownOutcome)
        requires
            paddings_fit(*old(self)),
            offsets_fit(*old(self), w, h),
            ev matches DropdownEvent::Mouse { y, .. } ==> y + old(self).view.offset_y < usize::MAX,
        ensures
            (*final(self), r) == dropdown_step(*old(self), ev, is_selected, pane_captured, width, w, h),
    {
        if pane_captured {
            return DropdownOutcome::Taken;
        }
        match ev {
            DropdownEvent::Keys(k) => match k {
                None => DropdownOutcome::Ignored,
                Some(key) => {
                    if !is_selected {
                        return DropdownOutcome::Ignored;
                    }
                    let open = self.open;
                    let opens = match key {
                        DropdownKey::Enter | DropdownKey::Down | DropdownKey::Up => true,
                        _ => false,
                    };
                    if !open && opens {
                        self.perform_open(w, h);
                        return DropdownOutcome::Taken;
                    }
                    if !open {
                        return DropdownOutcome::Ignored;
                    }
                    match key {
                        DropdownKey::Enter => match self.perform_close(h, false) {
                            Some(c) => DropdownOutcome::Selected(c),
                            None => DropdownOutcome::Taken,
                        },
                        DropdownKey::Down => {
                            self.cursor_down(w, h);
                            DropdownOutcome::Taken
                        },
                        DropdownKey::Up => {
                            self.cursor_up(w, h);
                            DropdownOutcome::Taken
                        },
                        DropdownKey::Space => {
                            self.dirty = true;
                            DropdownOutcome::Scrollbar
                        },
                        DropdownKey::Other => DropdownOutcome::Ignored,
                    }
                },
            },
            DropdownEvent::Mouse { kind, x, y } => {
                let cd = self.clicked_down;
                let open = self.open;
                if !open {
                    match kind {
                        DropdownMouse::LeftDown => {
                            self.clicked_down = true;
                            return DropdownOutcome::Taken;
                        },
                        DropdownMouse::LeftDrag => {
                            if !cd {
                                self.clicked_down = false;
                            }
                        },
                        _ => {
                            self.clicked_down = false;
                        },
                    }
                }
                let clicked = match kind {
                    DropdownMouse::LeftUp => cd || open,
                    _ => false,
                };
                let dragging = match kind {
                    DropdownMouse::LeftDrag => true,
                    _ => false,
                };
                let last_col = width.saturating_sub(1);
                if !open && clicked {
                    self.perform_open(w, h);
                    return DropdownOutcome::Taken;
                }
                if !open {
                    return DropdownOutcome::Ignored;
                }
                match kind {
                    DropdownMouse::ScrollUp => {
                        self.cursor_up(w, h);
                        return DropdownOutcome::Taken;
                    },
                    DropdownMouse::ScrollDown => {
                        self.cursor_down(w, h);
                        return DropdownOutcome::Taken;
                    },
                    _ => {},
                }
                let on_arrow = y == 0 && x == last_col;
                let on_bar = y > 0 && x == last_col && self.display_scrollbar();
                if !clicked || dragging {
                    if on_arrow {
                        self.dirty = true;
                        return DropdownOutcome::Taken;
                    }
                    if on_bar {
                        if dragging {
                            return DropdownOutcome::Scrollbar;
                        }
                        self.dirty = true;
                        return DropdownOutcome::Taken;
                    }
                    self.cursor = y + self.view.offset_y;
                    self.dirty = true;
                    return DropdownOutcome::Taken;
                }
                if on_bar {
                    self.dirty = true;
                    return DropdownOutcome::Scrollbar;
                }
                if on_arrow {
                    self.perform_close(h, true);
                    return DropdownOutcome::Taken;
                }
                self.cursor = y + self.view.offset_y;
                match self.perform_close(h, false) {
                    Some(c) => DropdownOutcome::Selected(c),
                    None => DropdownOutcome::Taken,
                }
            },
            DropdownEvent::Resize => {
                self.dirty = true;
                DropdownOutcome::Taken
            },
            DropdownEvent::Other => DropdownOutcome::Ignored,
        }
    }
}

/// Opening a closed list with enter and pressing enter again closes it with the same entry
/// selected, choosing nothing.
pub proof fn lemma_open_then_enter_keeps_selection(d: DropdownList, width: usize, w: u16, h: u16)
    requires
        !d.open,
    ensures
        ({
            let enter = DropdownEvent::Keys(Some(DropdownKey::Enter));
            let (d1, r1) = dropdown_step(d, enter, true, false, width, w, h);
            let (d2, r2) = dropdown_step(d1, enter, true, false, width, w, h);
            &&& r1 == DropdownOutcome::Taken && d1.open
            &&& r2 == DropdownOutcome::Taken && !d2.open
            &&& d2.selected == d.selected
        }),
{
}

/// Moving the cursor keeps it on an entry.
pub proof fn lemma_cursor_stays_on_entries(d: DropdownList, up: bool, w: u16, h: u16)
    requires
        d.cursor < d.entries@.len(),
    ensures
        cursor_moved(d, up, w, h).cursor < d.entries@.len(),
{
}

/// Moving the cursor down and then up brings it back, where it could move down.
pub proof fn lemma_down_then_up(d: DropdownList, w: u16, h: u16)
    requires
        d.cursor + 1 < d.entries@.len(),
        d.cursor < usize::MAX,
    ensures
        cursor_moved(cursor_moved(d, false, w, h), true, w, h).cursor == d.cursor,
{
}

/// Closing with escape keeps the selection.
pub proof fn lemma_escape_keeps_selection(d: DropdownList)
    ensures
        closed(d, true).selected == d.selected,
        !closed(d, true).open,
{
}

/// On an open list, a mouse event on an entry row (not the arrow on the first row, nor the
/// scrollbar in the last column) concerns the entry shown there, `y` rows below the top of the
/// view: the view's offset counts. Moving or pressing there puts the cursor on that entry and
/// keeps the list open; releasing there closes the list with that entry selected, reported as
/// newly selected where it was not selected before.
pub proof fn lemma_mouse_on_entry(
    d: DropdownList,
    kind: DropdownMouse,
    x: usize,
    y: usize,
    is_selected: bool,
    width: usize,
    w: u16,
    h: u16,
)
    requires
        d.open,
        y + d.view.offset_y <= usize::MAX,
        !(kind is ScrollUp || kind is ScrollDown),
        !(y == 0 && x + 1 == width),
        !(x + 1 == width && y > 0 && d.entries@.len() > expanded(d)),
        !(width == 0 && x == 0),
    ensures
        ({
            let (n, out) = dropdown_step(d, DropdownEvent::Mouse { kind, x, y }, is_selected, false, width, w, h);
            let e = y + d.view.offset_y;
            &&& n.entries == d.entries
            &&& kind is LeftUp ==> {
                &&& !n.open
                &&& n.selected == e
                &&& out == if d.selected != e { DropdownOutcome::Selected(e as usize) } else { DropdownOutcome::Taken }
            }
            &&& !(kind is LeftUp) ==> n.open && n.cursor == e && n.selected == d.selected && out == DropdownOutcome::Taken
        }),
{
}

/// Keys on the selected list: on the closed list enter, down and up open it with the cursor
/// on the selected entry; on the open list down moves the cursor to the next entry and up to
/// the one before (staying at the last or first), and enter closes it selecting the entry
/// under the cursor, reported as newly selected where it was not selected before. Scrolling the
/// mouse over the open list moves the cursor as down and up do. Keys while the list is not the
/// selected element change nothing.
pub proof fn lemma_keys_move_cursor(
    d: DropdownList,
    key: DropdownKey,
    is_selected: bool,
    width: usize,
    w: u16,
    h: u16,
    x: usize,
    y: usize,
)
    ensures
        ({
            let (n, out) = dropdown_step(d, DropdownEvent::Keys(Some(key)), is_selected, false, width, w, h);
            let len = d.entries@.len();
            &&& !is_selected ==> n == d && out == DropdownOutcome::Ignored
            &&& is_selected && !d.open && (key is Enter || key is Down || key is Up) ==> n.open && n.cursor == d.selected
                && n.selected == d.selected && out == DropdownOutcome::Taken
            &&& is_selected && d.open && key is Down ==> n.open && n.cursor == (if d.cursor + 1 < len {
                d.cursor + 1
            } else {
                d.cursor as int
            })
            &&& is_selected && d.open && key is Up ==> n.open && n.cursor == (if d.cursor > 0 {
                d.cursor - 1
            } else {
                d.cursor as int
            })
            &&& is_selected && d.open && key is Enter ==> !n.open && n.selected == d.cursor && out == (if d.selected
                != d.cursor {
                DropdownOutcome::Selected(d.cursor)
            } else {
                DropdownOutcome::Taken
            })
        }),
        ({
            let (n, _) = dropdown_step(d, DropdownEvent::Mouse { kind: DropdownMouse::ScrollDown, x, y }, is_selected, false, width, w, h);
            let (m, _) = dropdown_step(d, DropdownEvent::Keys(Some(DropdownKey::Down)), true, false, width, w, h);
            d.open ==> n.cursor == m.cursor && n.open
        }),
        ({
            let (n, _) = dropdown_step(d, DropdownEvent::Mouse { kind: DropdownMouse::ScrollUp, x, y }, is_selected, false, width, w, h);
            let (m, _) = dropdown_step(d, DropdownEvent::Keys(Some(DropdownKey::Up)), true, false, width, w, h);
            d.open ==> n.cursor == m.cursor && n.open
        }),
{
    assert(d.entries@.len() == d.entries.len());
}

/// The mouse on the closed list: a left press holds it (and takes the event); releasing the
/// left button over the held list opens it with the cursor on the selected entry; on the open
/// list a release on the arrow (the last column of the first row) closes it without changing
/// the selected entry.
pub proof fn lemma_mouse_opens_and_arrow_closes(
    d: DropdownList,
    x: usize,
    y: usize,
    is_selected: bool,
    width: usize,
    w: u16,
    h: u16,
)
    ensures
        ({
            let (n, out) = dropdown_step(d, DropdownEvent::Mouse { kind: DropdownMouse::LeftDown, x, y }, is_selected, false, width, w, h);
            !d.open ==> n.clicked_down && !n.open && n.selected == d.selected && out == DropdownOutcome::Taken
        }),
        ({
            let (n, out) = dropdown_step(d, DropdownEvent::Mouse { kind: DropdownMouse::LeftUp, x, y }, is_selected, false, width, w, h);
            &&& !d.open && d.clicked_down ==> n.open && n.cursor == d.selected && n.selected == d.selected && out
                == DropdownOutcome::Taken
            &&& !d.open && !d.clicked_down ==> !n.open && n.selected == d.selected && out == DropdownOutcome::Ignored
            &&& d.open && y == 0 && x + 1 == width ==> !n.open && n.selected == d.selected && out == DropdownOutcome::Taken
        }),
{
}

} // verus!
