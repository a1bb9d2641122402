use vstd::prelude::*;
use crate::color::{rgb, SolidColor};
use crate::text_style::{plain_style, TextStyle};

verus! {

/// A key as a toggle sees it: enter, left (or `h`), right (or `l`), or another one.
#[derive(Clone, Copy, PartialEq, Eq, Debug, Structural)]
pub enum ToggleKey {
    Enter,
    Left,
    Right,
    Other,
}

/// An event as a toggle sees it.
#[derive(Clone, Copy, PartialEq, Eq, Debug, Structural)]
pub enum ToggleEvent {
    /// a key combination, with its first key (none for an empty one)
    Keys(Option<ToggleKey>),
    /// the left mouse button went down on the toggle
    LeftDown,
    /// the mouse moved over the toggle with the left button down
    LeftDrag,
    /// the left mouse button went up on the toggle, at this column of it
    LeftUp(usize),
    /// any other mouse event on the toggle
    OtherMouse,
    /// anything else
    Other,
}

/// A switch between two texts, `left` and `right`, one of them selected.
pub struct Toggle {
    pub left: String,
    pub right: String,
    /// otherwise the right one is selected
    pub left_selected: bool,
    /// the mouse was pressed down over the toggle
    pub clicked_down: bool,
    /// the style of the selected text
    pub selected_sty: TextStyle,
}

/// What a toggle does with `ev` (see `Toggle::receive_event`), `left_len` being the length of
/// its left text: whether the left text is selected afterwards, whether it is held down,
/// whether it captures the event, and whether it toggled. Where its pane captured the event
/// already, nothing changes. Keys count only while the toggle is selected: enter toggles, left
/// selects the left text and right the right one (each capturing the key). A left press holds
/// it down; releasing a held toggle over the text that is not selected toggles it (capturing
/// the event); a drag while held changes nothing; any other mouse event releases it.
pub open spec fn toggle_step(
    left_selected: bool,
    clicked_down: bool,
    left_len: int,
    selected: bool,
    pane_captured: bool,
    ev: ToggleEvent,
) -> (bool, bool, bool, bool) {
    if pane_captured {
        (left_selected, clicked_down, true, false)
    } else {
        match ev {
            ToggleEvent::Keys(k) => match k {
                None => (left_selected, clicked_down, false, false),
                Some(key) => if !selected {
                    (left_selected, clicked_down, false, false)
                } else {
                    match key {
                        ToggleKey::Enter => (!left_selected, clicked_down, true, true),
                        ToggleKey::Left => (true, clicked_down, true, !left_selected),
                        ToggleKey::Right => (false, clicked_down, true, left_selected),
                        ToggleKey::Other => (left_selected, clicked_down, false, false),
                    }
                },
            },
            ToggleEvent::LeftDown => (left_selected, true, true, false),
            ToggleEvent::LeftDrag => (left_selected, clicked_down, false, false),
            ToggleEvent::LeftUp(x) => if clicked_down {
                let flip = (!left_selected && x < left_len) || (left_selected && x >= left_len);
                (if flip { !left_selected } else { left_selected }, false, flip, flip)
            } else {
                (left_selected, false, false, false)
            },
            ToggleEvent::OtherMouse => (left_selected, false, false, false),
            ToggleEvent::Other => (left_selected, clicked_down, false, false),
        }
    }
}

/// Releasing the mouse on a held toggle selects the text under the mouse: afterwards the left
/// text is selected exactly where the release is left of `left_len` (on the left text). The
/// toggle changes, and takes the event, exactly where that text was not selected; it is no
/// longer held either way. A release on a toggle that is not held changes nothing.
pub proof fn lemma_release_selects_text_under_mouse(
    left_selected: bool,
    clicked_down: bool,
    left_len: int,
    selected: bool,
    x: usize,
)
    ensures
        ({
            let r = toggle_step(left_selected, clicked_down, left_len, selected, false, ToggleEvent::LeftUp(x));
            &&& clicked_down ==> {
                &&& r.0 == (x < left_len)
                &&& r.3 == (left_selected != (x < left_len))
                &&& r.2 == r.3
            }
            &&& !clicked_down ==> r.0 == left_selected && !r.2 && !r.3
            &&& !r.1
        }),
{
}

/// Keys switch a selected toggle: enter selects the other text, left the left text and right
/// the right text, each taking the event, and changing the toggle exactly where it selects the
/// text that was not selected; other keys, and keys while the toggle is not selected, change
/// nothing. A left press holds the toggle and takes the event.
pub proof fn lemma_toggle_keys_and_press(left_selected: bool, clicked_down: bool, left_len: int, selected: bool, key: ToggleKey)
    ensures
        ({
            let r = toggle_step(left_selected, clicked_down, left_len, selected, false, ToggleEvent::Keys(Some(key)));
            &&& selected && key is Enter ==> r.0 == !left_selected && r.2 && r.3
            &&& selected && key is Left ==> r.0 && r.2 && r.3 == !left_selected
            &&& selected && key is Right ==> !r.0 && r.2 && r.3 == left_selected
            &&& (!selected || key is Other) ==> r.0 == left_selected && !r.2 && !r.3
            &&& r.1 == clicked_down
        }),
        ({
            let p = toggle_step(left_selected, clicked_down, left_len, selected, false, ToggleEvent::LeftDown);
            p.0 == left_selected && p.1 && p.2 && !p.3
        }),
{
}

/// Other mouse events on the toggle release it without switching it or taking the event;
/// a drag changes nothing.
pub proof fn lemma_toggle_other_mouse(left_selected: bool, clicked_down: bool, left_len: int, selected: bool)
    ensures
        toggle_step(left_selected, clicked_down, left_len, selected, false, ToggleEvent::OtherMouse) == (
            left_selected,
            false,
            false,
            false,
        ),
        toggle_step(left_selected, clicked_down, left_len, selected, false, ToggleEvent::LeftDrag) == (
            left_selected,
            clicked_down,
            false,
            false,
        ),
{
}

impl Toggle {
    /// A toggle between `left` and `right`, the left one selected, drawn black on light blue.
    pub fn new(left: String, right: String) -> (t: Toggle)
        ensures
            t.left == left && t.right == right,
            t.left_selected && !t.clicked_down,
            t.selected_sty == (TextStyle { fg: Some(rgb(0, 0, 0)), bg: Some(rgb(173, 216, 230)), ..plain_style() }),
    {
        Toggle {
            left,
            right,
            left_selected: true,
            clicked_down: false,
            selected_sty: TextStyle::default_const().with_bg(SolidColor::new(173, 216, 230)).with_fg(
                SolidColor::new(0, 0, 0),
            ),
        }
    }

    /// The width of the toggle: both texts side by side.
    pub fn width(&self) -> (w: i32)
        requires
            self.left@.len() + self.right@.len() <= i32::MAX,
        ensures
            w == self.left@.len() + self.right@.len(),
    {
        let l = self.left.unicode_len();
        let r = self.right.unicode_len();
        (l + r) as i32
    }

    /// The selected text.
    pub fn selected(&self) -> (s: String)
        ensures
            s@ == (if self.left_selected { self.left@ } else { self.right@ }),
    {
        if self.left_selected {
            self.left.clone()
        } else {
            self.right.clone()
        }
    }

    /// Switches to the other text and returns it.
    pub fn perform_toggle(&mut self) -> (s: String)
        ensures
            *final(self) == (Toggle { left_selected: !old(self).left_selected, ..*old(self) }),
            s@ == (if final(self).left_selected { final(self).left@ } else { final(self).right@ }),
    {
        self.left_selected = !self.left_selected;
        self.selected()
    }

    /// Reacts to `ev`, `selected` telling whether the toggle is the selected element and
    /// `pane_captured` whether its pane captured the event already (see `toggle_step`).
    /// Returns whether the event is captured and, where the toggle switched, the text now
    /// selected.
    pub fn receive_event(&mut self, ev: ToggleEvent, selected: bool, pane_captured: bool) -> (r: (bool, Option<String>))
        ensures
            ({
                let (ls, cd, cap, tog) = toggle_step(
                    old(self).left_selected,
                    old(self).clicked_down,
                    old(self).left@.len() as int,
                    selected,
                    pane_captured,
                    ev,
                );
                &&& *final(self) == (Toggle { left_selected: ls, clicked_down: cd, ..*old(self) })
                &&& r.0 == cap
                &&& r.1 is Some <==> tog
                &&& r.1 matches Some(s) ==> s@ == (if ls { old(self).left@ } else { old(self).right@ })
            }),
    {
        if pane_captured {
            return (true, None);
        }
        match ev {
            ToggleEvent::Keys(k) => match k {
                None => (false, None),
                Some(key) => {
                    if !selected {
                        return (false, None);
                    }
                    match key {
                        ToggleKey::Enter => (true, Some(self.perform_toggle())),
                        ToggleKey::Left => {
                            if !self.left_selected {
                                (true, Some(self.perform_toggle()))
                            } else {
                                (true, None)
                            }
                        },
                        ToggleKey::Right => {
                            if self.left_selected {
                                (true, Some(self.perform_toggle()))
                            } else {
                                (true, None)
                            }
                        },
                        ToggleKey::Other => (false, None),
                    }
                },
            },
            ToggleEvent::LeftDown => {
                self.clicked_down = true;
                (true, None)
            },
            ToggleEvent::LeftDrag => (false, None),
            ToggleEvent::LeftUp(x) => {
                if !self.clicked_down {
                    return (false, None);
                }
                self.clicked_down = false;
                let left_len = self.left.unicode_len();
                if (!self.left_selected && x < left_len) || (self.left_selected && x >= left_len) {
                    (true, Some(self.perform_toggle()))
                } else {
                    (false, None)
                }
            },
            ToggleEvent::OtherMouse => {
                self.clicked_down = false;
                (false, None)
            },
            ToggleEvent::Other => (false, None),
        }
    }

    /// The style of each column of the toggle: the selected text in `selected_sty`, the other
    /// in `base`.
    pub fn column_styles(&self, base: TextStyle) -> (v: Vec<TextStyle>)
        ensures
            v@.len() == self.left@.len() + self.right@.len(),
            forall|i: int|
                0 <= i < v@.len() ==> #[trigger] v@[i] == (if (i < self.left@.len()) == self.left_selected {
                    self.selected_sty
                } else {
                    base
                }),
    {
        let l = self.left.unicode_len();
        let r = self.right.unicode_len();
        let mut v: Vec<TextStyle> = Vec::new();
        let mut i: usize = 0;
        while i < l
            invariant
                l == self.left@.len(),
                i <= l,
                v@.len() == i,
                forall|k: int|
                    0 <= k < i ==> #[trigger] v@[k] == (if self.left_selected { self.selected_sty } else { base }),
            decreases l - i,
        {
            v.push(if self.left_selected { self.selected_sty } else { base });
            i = i + 1;
        }
        let mut j: usize = 0;
        while j < r
            invariant
                l == self.left@.len(),
                r == self.right@.len(),
                j <= r,
                v@.len() == l + j,
                forall|k: int|
                    0 <= k < v@.len() ==> #[trigger] v@[k] == (if (k < l) == self.left_selected {
                        self.selected_sty
                    } else {
                        base
                    }),
            decreases r - j,
        {
            v.push(if self.left_selected { base } else { self.selected_sty });
            j = j + 1;
        }
        v
    }
}

/// Enter pressed twice on a selected toggle brings it back to the text it had selected, each
/// press toggling it.
pub proof fn lemma_enter_twice_restores(left_selected: bool, clicked_down: bool, left_len: int)
    ensures
        ({
            let ev = ToggleEvent::Keys(Some(ToggleKey::Enter));
            let (l1, c1, cap1, t1) = toggle_step(left_selected, clicked_down, left_len, true, false, ev);
            let (l2, c2, cap2, t2) = toggle_step(l1, c1, left_len, true, false, ev);
            &&& l2 == left_selected && c2 == clicked_down
            &&& cap1 && cap2 && t1 && t2
        }),
{
}

/// Left and right keys select their own side, whatever was selected before.
pub proof fn lemma_side_keys_select_their_side(left_selected: bool, clicked_down: bool, left_len: int)
    ensures
        toggle_step(left_selected, clicked_down, left_len, true, false, ToggleEvent::Keys(Some(ToggleKey::Left))).0,
        !toggle_step(left_selected, clicked_down, left_len, true, false, ToggleEvent::Keys(Some(ToggleKey::Right))).0,
{
}

} // verus!
