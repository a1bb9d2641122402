use yeehaw::border::{
    border_layout, BorderPart, BorderProperies, CornerPos, Edge, HorizontalPos, PropertyCnr,
    PropertyHzt, PropertyVrt, VerticalPos,
};

fn start(n: i32) -> Edge {
    Edge { from_end: false, offset: n }
}

fn end(n: i32) -> Edge {
    Edge { from_end: true, offset: n }
}

#[test]
fn full_border_layout() {
    let l = border_layout(&BorderProperies::new_resizer());
    assert_eq!(l.parts.len(), 8);
    assert_eq!(
        l.parts[0],
        BorderPart::Corner { pos: CornerPos::TopLeft, property: PropertyCnr::DragResize, x: start(0), y: start(0) }
    );
    assert_eq!(
        l.parts[3],
        BorderPart::Corner { pos: CornerPos::BottomRight, property: PropertyCnr::DragResize, x: end(1), y: end(1) }
    );
    assert_eq!(
        l.parts[4],
        BorderPart::Vertical {
            pos: VerticalPos::Left,
            property: PropertyVrt::DragResize,
            start_y: start(1),
            end_y: end(1)
        }
    );
    assert_eq!(
        l.parts[7],
        BorderPart::Horizontal {
            pos: HorizontalPos::Bottom,
            property: PropertyHzt::DragResize,
            start_x: start(1),
            end_x: end(1)
        }
    );
    assert_eq!(l.inner, (start(1), end(1), start(1), end(1)));
    assert_eq!(l.x_scrollbar_sub_from_full, 2);
    assert_eq!(l.y_scrollbar_sub_from_full, 2);
}

#[test]
fn borderless_with_scrollbars_layout() {
    let l = border_layout(&BorderProperies::new_borderless_with_scrollbars());
    // the two scrollbars meet at a bottom right corner
    assert_eq!(
        l.parts,
        vec![
            BorderPart::Corner {
                pos: CornerPos::BottomRight,
                property: PropertyCnr::DisplayOnly,
                x: end(1),
                y: end(1)
            },
            BorderPart::Vertical {
                pos: VerticalPos::Right,
                property: PropertyVrt::Scrollbar,
                start_y: start(0),
                end_y: end(1)
            },
            BorderPart::Horizontal {
                pos: HorizontalPos::Bottom,
                property: PropertyHzt::Scrollbar,
                start_x: start(0),
                end_x: end(1)
            },
        ]
    );
    assert_eq!(l.inner, (start(0), end(1), start(0), end(1)));
    assert_eq!(l.x_scrollbar_sub_from_full, 1);
    assert_eq!(l.y_scrollbar_sub_from_full, 1);
}

#[test]
fn corners_take_the_top_and_bottom_corner_properties() {
    let mut p = BorderProperies::new_basic_with_scrollbars();
    p.top_corner = PropertyCnr::DragMove;
    p.left_corner = PropertyCnr::DragResize;
    p.top = None;
    let l = border_layout(&p);
    // without a top side there are only the two bottom corners
    assert_eq!(
        l.parts[0],
        BorderPart::Corner { pos: CornerPos::BottomLeft, property: PropertyCnr::DisplayOnly, x: start(0), y: end(1) }
    );
    assert_eq!(
        l.parts[2],
        BorderPart::Vertical {
            pos: VerticalPos::Left,
            property: PropertyVrt::DisplayOnly,
            start_y: start(0),
            end_y: end(1)
        }
    );
    assert_eq!(l.parts.len(), 5);
    assert_eq!(l.y_scrollbar_sub_from_full, 1);
    assert_eq!(l.x_scrollbar_sub_from_full, 2);
    assert_eq!(BorderProperies::new_resizer_with_scrollbars().right, Some(PropertyVrt::Scrollbar));
}
