use vstd::prelude::*;
use crate::border::ResizeResponse;

verus! {

/// The direction in which a stack lays out its elements.
#[derive(Clone, Copy, PartialEq, Eq, Debug, Structural)]
pub enum StackAxis {
    /// elements one above the other
    Vertical,
    /// elements side by side
    Horizontal,
}

/// What a stack does with a resize request that one of its elements sent up.
#[derive(Clone, Copy, PartialEq, Eq, Debug, Structural)]
pub enum StackResize {
    /// the request only moves sides across the stack: it goes on up as a request of the stack
    PassUp,
    /// the request is answered with nothing
    Drop,
    /// the request is left as it is (its element is not one of the stack's)
    Keep,
    /// the boundary between the element at `first` and the element after it moves by `change`
    Boundary { first: usize, change: i32 },
}

/// The moves of a resize request along the stack's axis: towards its start, towards its end.
pub open spec fn along(axis: StackAxis, r: ResizeResponse) -> (i32, i32) {
    match axis {
        StackAxis::Vertical => (r.top_dy, r.bottom_dy),
        StackAxis::Horizontal => (r.left_dx, r.right_dx),
    }
}

/// The moves of a resize request across the stack's axis.
pub open spec fn across(axis: StackAxis, r: ResizeResponse) -> (i32, i32) {
    match axis {
        StackAxis::Vertical => (r.left_dx, r.right_dx),
        StackAxis::Horizontal => (r.top_dy, r.bottom_dy),
    }
}

/// What a stack of `len` elements does with the resize request `r` of the element at `index`
/// (`None` where the element is not in the stack). A request that moves neither side along the
/// axis goes up where it moves a side across, and is dropped where it moves nothing. A move of
/// the start side resizes the element against the one before it, a move of the end side (only
/// where the start side stays) against the one after it; the stack's own outer sides never
/// move this way, so such a request of its first (last) element is dropped.
pub open spec fn stack_resize_decision(
    axis: StackAxis,
    len: nat,
    index: Option<nat>,
    r: ResizeResponse,
) -> StackResize {
    let (start, end) = along(axis, r);
    let (a, b) = across(axis, r);
    if start == 0 && end == 0 {
        if a != 0 || b != 0 {
            StackResize::PassUp
        } else {
            StackResize::Drop
        }
    } else {
        match index {
            None => StackResize::Keep,
            Some(i) => if start != 0 {
                if i == 0 {
                    StackResize::Drop
                } else {
                    StackResize::Boundary { first: (i - 1) as usize, change: start }
                }
            } else {
                if i + 1 == len {
                    StackResize::Drop
                } else {
                    StackResize::Boundary { first: i as usize, change: end }
                }
            },
        }
    }
}

/// Decides what a stack of `len` elements does with the resize request `r` of its element at
/// `index` (see `stack_resize_decision`).
pub fn stack_resize_target(axis: StackAxis, len: usize, index: Option<usize>, r: ResizeResponse) -> (d:
    StackResize)
    requires
        index matches Some(i) ==> i < len,
    ensures
        d == stack_resize_decision(
            axis,
            len as nat,
            match index {
                Some(i) => Some(i as nat),
                None => None,
            },
            r,
        ),
        d matches StackResize::Boundary { first, change } ==> first + 1 < len && change != 0,
{
    let (start, end) = match axis {
        StackAxis::Vertical => (r.top_dy, r.bottom_dy),
        StackAxis::Horizontal => (r.left_dx, r.right_dx),
    };
    let (a, b) = match axis {
        StackAxis::Vertical => (r.left_dx, r.right_dx),
        StackAxis::Horizontal => (r.top_dy, r.bottom_dy),
    };
    if start == 0 && end == 0 {
        if a != 0 || b != 0 {
            StackResize::PassUp
        } else {
            StackResize::Drop
        }
    } else {
        match index {
            None => StackResize::Keep,
            Some(i) => {
                if start != 0 {
                    if i == 0 {
                        StackResize::Drop
                    } else {
                        StackResize::Boundary { first: i - 1, change: start }
                    }
                } else {
                    if i + 1 == len {
                        StackResize::Drop
                    } else {
                        StackResize::Boundary { first: i, change: end }
                    }
                }
            },
        }
    }
}

/// Moves the boundary between two neighbouring elements of a stack, the first spanning
/// `first_start..first_end` and the second `second_start..second_end` along the axis, by
/// `change`: the first element's end and the second's start move together. The move is refused
/// (`None`) where either element would become smaller than `min_size` or the second would start
/// before zero; otherwise the new end of the first and new start of the second are returned.
pub fn stack_boundary_move(
    first_start: i32,
    first_end: i32,
    second_start: i32,
    second_end: i32,
    change: i32,
    min_size: i32,
) -> (r: Option<(i32, i32)>)
    requires
        i32::MIN <= first_end + change <= i32::MAX,
        i32::MIN <= second_start + change <= i32::MAX,
        i32::MIN <= first_end + change - first_start <= i32::MAX,
        i32::MIN <= second_end - (second_start + change) <= i32::MAX,
    ensures
        r is None <==> (first_end + change - first_start < min_size || second_end - (second_start
            + change) < min_size || second_start + change < 0),
        r matches Some((e, s)) ==> e == first_end + change && s == second_start + change,
        // what the two elements span together stays the same
        r matches Some((e, s)) ==> (e - first_start) + (second_end - s) == (first_end - first_start)
            + (second_end - second_start),
        r matches Some((e, s)) ==> e - first_start >= min_size && second_end - s >= min_size,
{
    let second_start_adj = second_start + change;
    let first_end_adj = first_end + change;
    if first_end_adj - first_start < min_size || second_end - second_start_adj < min_size
        || second_start_adj < 0 {
        None
    } else {
        Some((first_end_adj, second_start_adj))
    }
}

} // verus!
