use yeehaw::border::ResizeResponse;
use yeehaw::stack::{stack_boundary_move, stack_resize_target, StackAxis, StackResize};

fn rr(left_dx: i32, right_dx: i32, top_dy: i32, bottom_dy: i32) -> ResizeResponse {
    ResizeResponse { left_dx, right_dx, top_dy, bottom_dy }
}

#[test]
fn stack_passes_up_resizes_across_its_axis() {
    assert_eq!(stack_resize_target(StackAxis::Vertical, 3, Some(1), rr(2, 0, 0, 0)), StackResize::PassUp);
    assert_eq!(stack_resize_target(StackAxis::Horizontal, 3, Some(1), rr(0, 0, 0, -1)), StackResize::PassUp);
    assert_eq!(stack_resize_target(StackAxis::Vertical, 3, None, rr(0, 1, 0, 0)), StackResize::PassUp);
}

#[test]
fn stack_drops_empty_resizes_and_outer_edges() {
    assert_eq!(stack_resize_target(StackAxis::Vertical, 3, Some(1), rr(0, 0, 0, 0)), StackResize::Drop);
    assert_eq!(stack_resize_target(StackAxis::Vertical, 3, Some(0), rr(0, 0, 2, 0)), StackResize::Drop);
    assert_eq!(stack_resize_target(StackAxis::Vertical, 3, Some(2), rr(0, 0, 0, 2)), StackResize::Drop);
    assert_eq!(stack_resize_target(StackAxis::Horizontal, 3, Some(0), rr(-1, 0, 0, 0)), StackResize::Drop);
    assert_eq!(stack_resize_target(StackAxis::Horizontal, 3, Some(2), rr(0, 4, 0, 0)), StackResize::Drop);
}

#[test]
fn stack_keeps_resizes_of_unknown_elements() {
    assert_eq!(stack_resize_target(StackAxis::Vertical, 3, None, rr(0, 0, 1, 0)), StackResize::Keep);
    assert_eq!(stack_resize_target(StackAxis::Horizontal, 3, None, rr(0, 1, 0, 0)), StackResize::Keep);
}

#[test]
fn stack_moves_the_boundary_next_to_the_element() {
    assert_eq!(
        stack_resize_target(StackAxis::Vertical, 3, Some(1), rr(0, 0, -2, 5)),
        StackResize::Boundary { first: 0, change: -2 }
    );
    assert_eq!(
        stack_resize_target(StackAxis::Vertical, 3, Some(1), rr(0, 0, 0, 5)),
        StackResize::Boundary { first: 1, change: 5 }
    );
    assert_eq!(
        stack_resize_target(StackAxis::Horizontal, 4, Some(2), rr(3, 0, 0, 0)),
        StackResize::Boundary { first: 1, change: 3 }
    );
}

#[test]
fn stack_boundary_move_keeps_the_minimum() {
    // first spans 0..10, second 10..20
    assert_eq!(stack_boundary_move(0, 10, 10, 20, 3, 2), Some((13, 13)));
    assert_eq!(stack_boundary_move(0, 10, 10, 20, -8, 2), Some((2, 2)));
    assert_eq!(stack_boundary_move(0, 10, 10, 20, -9, 2), None);
    assert_eq!(stack_boundary_move(0, 10, 10, 20, 9, 2), None);
    assert_eq!(stack_boundary_move(-5, -1, -1, 20, -1, 1), None);
}
