use yeehaw::geom::Size;
use yeehaw::gradient::{
    repeater_stops, right_angle_pos, rotations, time_loop_stops, two_color_repeater_stops,
    RightAngle,
};

#[test]
fn repeater_stops_are_evenly_spaced_and_loop() {
    assert_eq!(repeater_stops::<char>(&vec![], 5), None);
    assert_eq!(
        repeater_stops(&vec!['r', 'g', 'b'], 4),
        Some(vec![(0, 'r'), (4, 'g'), (8, 'b'), (12, 'r')])
    );
    assert_eq!(repeater_stops(&vec!['x'], 0), Some(vec![(0, 'x'), (0, 'x')]));
    assert_eq!(two_color_repeater_stops('a', 'b', 3), vec![(0, 'a'), (3, 'b'), (6, 'a')]);
}

#[test]
fn time_loop_stops_cover_each_color_then_loop() {
    assert_eq!(time_loop_stops::<u8>(10, &vec![]), None);
    assert_eq!(time_loop_stops(10, &vec![7u8]), Some((10, vec![(10, 7)])));
    assert_eq!(
        time_loop_stops(10, &vec![1u8, 2, 3]),
        Some((30, vec![(0, 1), (10, 2), (20, 3), (30, 1)]))
    );
}

#[test]
fn rotations_start_at_each_color() {
    assert_eq!(
        rotations(&vec![1, 2, 3]),
        vec![vec![1, 2, 3], vec![2, 3, 1], vec![3, 1, 2]]
    );
    assert!(rotations::<u8>(&vec![]).is_empty());
    assert_eq!(rotations(&vec![9]), vec![vec![9]]);
}

#[test]
fn right_angle_positions() {
    let s = Size::new(5, 3);
    assert_eq!(right_angle_pos(RightAngle::Deg0, 7, 0, (2, 0), s), Some(0));
    assert_eq!(right_angle_pos(RightAngle::Deg0, 8, 0, (2, 0), s), Some(1));
    assert_eq!(right_angle_pos(RightAngle::Deg180, 8, 0, (2, 0), s), Some(-1));
    assert_eq!(right_angle_pos(RightAngle::Deg0, 0, 0, (3, 0), s), Some(-3));
    assert_eq!(right_angle_pos(RightAngle::Deg90, 0, 7, (0, 0), s), Some(1));
    assert_eq!(right_angle_pos(RightAngle::Deg270, 0, 7, (0, 0), s), Some(-1));
    assert_eq!(right_angle_pos(RightAngle::Deg90, 0, 7, (0, 0), Size::new(5, 0)), None);
}

#[test]
fn right_angle_gradients_are_the_same_along_each_line() {
    let s = Size::new(4, 6);
    for y in 0..6u16 {
        assert_eq!(right_angle_pos(RightAngle::Deg0, 9, y, (1, 2), s), Some(0));
        assert_eq!(right_angle_pos(RightAngle::Deg180, 10, y, (1, 2), s), Some(-1));
    }
    for x in 0..4u16 {
        assert_eq!(right_angle_pos(RightAngle::Deg90, x, 1, (1, 2), s), Some(-1));
        assert_eq!(right_angle_pos(RightAngle::Deg270, x, 11, (1, 2), s), Some(-3));
    }
}
