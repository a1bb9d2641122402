use vstd::prelude::*;

verus! {

/// A width and height measured in terminal cells.
#[derive(Clone, Copy, Debug, PartialEq, Eq, Structural)]
pub struct Size {
    pub width: u16,
    pub height: u16,
}

impl Size {
    pub fn new(width: u16, height: u16) -> (s: Size)
        ensures
            s.width == width,
            s.height == height,
    {
        Size { width, height }
    }
}

impl Default for Size {
    fn default() -> (s: Size)
        ensures
            s.width == 0,
            s.height == 0,
    {
        Size { width: 0, height: 0 }
    }
}

/// A rectangular region given by its inclusive start and end cells.
#[derive(Clone, Copy, Debug, PartialEq, Eq, Structural)]
pub struct Loc {
    pub start_x: u16,
    pub end_x: u16,
    pub start_y: u16,
    pub end_y: u16,
}

impl Loc {
    pub fn new(start_x: u16, end_x: u16, start_y: u16, end_y: u16) -> (l: Loc)
        ensures
            l.start_x == start_x,
            l.end_x == end_x,
            l.start_y == start_y,
            l.end_y == end_y,
    {
        Loc { start_x, end_x, start_y, end_y }
    }
}

} // verus!
