use vstd::prelude::*;
use crate::ch::{clone_of, DrawCh, DrawChPos};

verus! {

/// The characters of a shadow to the right of and below an element.
pub struct ShadowSty<S> {
    pub bottom_left: DrawCh<S>,
    pub bottom_middle: DrawCh<S>,
    pub bottom_right: DrawCh<S>,
    pub right: DrawCh<S>,
    pub top_right: DrawCh<S>,
}

/// A part of a shadow.
#[derive(Clone, Copy, PartialEq, Eq, Debug, Structural)]
pub enum ShadowPart {
    BottomLeft,
    BottomMiddle,
    BottomRight,
    Right,
    TopRight,
}

/// The character of a part.
pub open spec fn part_ch<S>(sty: ShadowSty<S>, p: ShadowPart) -> DrawCh<S> {
    match p {
        ShadowPart::BottomLeft => sty.bottom_left,
        ShadowPart::BottomMiddle => sty.bottom_middle,
        ShadowPart::BottomRight => sty.bottom_right,
        ShadowPart::Right => sty.right,
        ShadowPart::TopRight => sty.top_right,
    }
}

/// The parts of the shadow of an element `w` by `h` and where they go, in drawing order: the
/// bottom left corner at (0, `h`), the top right one at (`w`, 0), the bottom right one at
/// (`w`, `h`), then the bottom row from column 1 to `w - 1`, then the right column from row 1
/// to `h - 1`.
pub open spec fn shadow_spots(w: u16, h: u16) -> Seq<(ShadowPart, u16, u16)> {
    let bottom = if w > 0 { (w - 1) as nat } else { 0nat };
    let right = if h > 0 { (h - 1) as nat } else { 0nat };
    seq![(ShadowPart::BottomLeft, 0u16, h), (ShadowPart::TopRight, w, 0u16), (ShadowPart::BottomRight, w, h)]
        + Seq::new(bottom, |i: int| (ShadowPart::BottomMiddle, (i + 1) as u16, h))
        + Seq::new(right, |i: int| (ShadowPart::Right, w, (i + 1) as u16))
}

impl<S: Clone> ShadowSty<S> {
    /// The shadow of an element `w` by `h` (see `shadow_spots`), each character a clone of
    /// its part's.
    pub fn set_shadow_content(&self, w: u16, h: u16) -> (v: Vec<DrawChPos<S>>)
        ensures
            v@.len() == shadow_spots(w, h).len(),
            forall|i: int|
                0 <= i < v@.len() ==> {
                    let (p, x, y) = #[trigger] shadow_spots(w, h)[i];
                    &&& clone_of(part_ch(*self, p), v@[i].ch)
                    &&& v@[i].x == x
                    &&& v@[i].y == y
                },
    {
        let ghost spots = shadow_spots(w, h);
        let mut out: Vec<DrawChPos<S>> = Vec::new();
        out.push(DrawChPos::new(self.bottom_left.clone(), 0, h));
        out.push(DrawChPos::new(self.top_right.clone(), w, 0));
        out.push(DrawChPos::new(self.bottom_right.clone(), w, h));
        let mut x: u16 = 1;
        while x < w
            invariant
                spots == shadow_spots(w, h),
                1 <= x <= w || (w == 0 && x == 1),
                out@.len() == 2 + x,
                forall|i: int|
                    0 <= i < out@.len() ==> {
                        let (p, px, py) = #[trigger] spots[i];
                        &&& clone_of(part_ch(*self, p), out@[i].ch)
                        &&& out@[i].x == px
                        &&& out@[i].y == py
                    },
            decreases w - x,
        {
            out.push(DrawChPos::new(self.bottom_middle.clone(), x, h));
            x = x + 1;
        }
        let ghost base = out@.len();
        assert(base == 3 + (if w > 0 { w - 1 } else { 0 }));
        let mut y: u16 = 1;
        while y < h
            invariant
                spots == shadow_spots(w, h),
                base == 3 + (if w > 0 { w - 1 } else { 0 }),
                1 <= y <= h || (h == 0 && y == 1),
                out@.len() == base + y - 1,
                forall|i: int|
                    0 <= i < out@.len() ==> {
                        let (p, px, py) = #[trigger] spots[i];
                        &&& clone_of(part_ch(*self, p), out@[i].ch)
                        &&& out@[i].x == px
                        &&& out@[i].y == py
                    },
            decreases h - y,
        {
            out.push(DrawChPos::new(self.right.clone(), w, y));
            y = y + 1;
        }
        out
    }
}

} // verus!
