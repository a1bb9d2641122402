use vstd::prelude::*;
use crate::geom::{Loc, Size};

verus! {

/// The draw region is passed to elements during key function calls where the element may need to
/// know information relevant to its rendering.
#[derive(Clone, Copy, Debug, PartialEq, Eq, Structural)]
pub struct DrawRegion {
    /// The size of the element; (0, 0) while the element is being initialized.
    pub size: Size,
    /// The visible region of the element; for very large elements this may be a subset of the
    /// entire element.
    pub visible_region: Option<Loc>,
}

/// `v - by`, bounded below at zero, as `u16::saturating_sub` computes it.
pub open spec fn sat_sub(v: u16, by: u16) -> u16 {
    if v >= by { (v - by) as u16 } else { 0 }
}

/// The visible region `vr` seen from a child whose top-left corner is at (`sx`, `sy`) in the
/// parent: every bound is moved by the child's start and held at zero.
pub open spec fn rebase_loc(vr: Loc, sx: u16, sy: u16) -> Loc {
    Loc {
        start_x: sat_sub(vr.start_x, sx),
        end_x: sat_sub(vr.end_x, sx),
        start_y: sat_sub(vr.start_y, sy),
        end_y: sat_sub(vr.end_y, sy),
    }
}

impl Default for DrawRegion {
    fn default() -> (d: DrawRegion)
        ensures
            d.size == (Size { width: 0, height: 0 }),
            d.visible_region.is_none(),
    {
        DrawRegion { size: Size { width: 0, height: 0 }, visible_region: None }
    }
}

impl DrawRegion {
    /// A region of 1000x1000 cells with no visible region, for testing.
    pub fn new_large() -> (d: DrawRegion)
        ensures
            d.size == (Size { width: 1000, height: 1000 }),
            d.visible_region.is_none(),
    {
        DrawRegion { size: Size { width: 1000, height: 1000 }, visible_region: None }
    }

    /// The region of a child element, given the child's size and start position as evaluated
    /// against this region. The visible region, where there is one, is made relative to the
    /// child; the start positions are taken as `u16` the way `as` casts them, and a bound left
    /// of (or above) the child's start is held at zero.
    pub fn child_region(&self, child_size: Size, child_start_x: i32, child_start_y: i32) -> (d:
        DrawRegion)
        ensures
            d.size == child_size,
            d.visible_region == (match self.visible_region {
                Some(vr) => Some(rebase_loc(vr, child_start_x as u16, child_start_y as u16)),
                None => None,
            }),
    {
        let visible_region = match self.visible_region {
            Some(vr) => {
                let start_x = child_start_x as u16;
                let start_y = child_start_y as u16;
                Some(
                    Loc {
                        start_x: vr.start_x.saturating_sub(start_x),
                        end_x: vr.end_x.saturating_sub(start_x),
                        start_y: vr.start_y.saturating_sub(start_y),
                        end_y: vr.end_y.saturating_sub(start_y),
                    },
                )
            },
            None => None,
        };
        DrawRegion { size: child_size, visible_region }
    }

    pub fn with_visible_region(self, vr: Option<Loc>) -> (d: DrawRegion)
        ensures
            d.size == self.size,
            d.visible_region == vr,
    {
        DrawRegion { visible_region: vr, ..self }
    }

    pub fn with_size(self, s: Size) -> (d: DrawRegion)
        ensures
            d.size == s,
            d.visible_region == self.visible_region,
    {
        DrawRegion { size: s, ..self }
    }

    pub fn with_height(self, h: u16) -> (d: DrawRegion)
        ensures
            d.size.height == h,
            d.size.width == self.size.width,
            d.visible_region == self.visible_region,
    {
        DrawRegion { size: Size { width: self.size.width, height: h }, ..self }
    }

    pub fn with_width(self, w: u16) -> (d: DrawRegion)
        ensures
            d.size.width == w,
            d.size.height == self.size.height,
            d.visible_region == self.visible_region,
    {
        DrawRegion { size: Size { width: w, height: self.size.height }, ..self }
    }

    pub fn get_width(&self) -> (w: u16)
        ensures
            w == self.size.width,
    {
        self.size.width
    }

    pub fn get_height(&self) -> (h: u16)
        ensures
            h == self.size.height,
    {
        self.size.height
    }
}

} // verus!
