use yeehaw::color_store::{gradient_time_effected, pattern_time_effected, ColorStore};

fn same<T: PartialEq>(a: &T, b: &T) -> bool {
    a == b
}

/// Colors of 9 change with time.
fn timed(c: &u8) -> bool {
    *c == 9
}

#[test]
fn store_interns_equal_items() {
    let mut cs: ColorStore<i32, u64, u8> = ColorStore::default();
    let p1 = vec![vec![1u8, 2], vec![3, 4]];
    let p2 = vec![vec![1u8, 9]];
    let te1 = pattern_time_effected(&p1, &timed);
    let te2 = pattern_time_effected(&p2, &timed);
    assert!(!te1);
    assert!(te2);
    assert_eq!(cs.add_pattern(p1.clone(), te1, &same), 0);
    assert_eq!(cs.add_pattern(p2.clone(), te2, &same), 1);
    assert_eq!(cs.add_pattern(p1.clone(), te1, &same), 0);
    assert_eq!(cs.patterns.len(), 2);
    assert!(!cs.is_pattern_time_effected(0));
    assert!(cs.is_pattern_time_effected(1));
    assert!(!cs.is_pattern_time_effected(7));

    let g = vec![(0i32, 1u8), (10, 9)];
    let te = gradient_time_effected(&g, &timed);
    assert!(te);
    assert_eq!(cs.add_pos_gradient(g.clone(), te, &same), 0);
    assert_eq!(cs.add_pos_gradient(g, te, &same), 0);
    assert_eq!(cs.add_pos_gradient(vec![(0, 1)], false, &same), 1);
    assert!(cs.is_gradient_time_effected(0));
    assert!(!cs.is_gradient_time_effected(1));
    assert!(!cs.is_gradient_time_effected(2));

    assert_eq!(cs.add_time_gradient(vec![(5u64, 1u8)], &same), 0);
    assert_eq!(cs.add_time_gradient(vec![(6u64, 1u8)], &same), 1);
    assert_eq!(cs.add_time_gradient(vec![(5u64, 1u8)], &same), 0);
    assert_eq!(cs.time_gradients.len(), 2);
    assert_eq!(cs.patterns.len(), 2);
}

#[test]
fn empty_pattern_and_gradient_do_not_change_with_time() {
    assert!(!pattern_time_effected::<u8, _>(&vec![], &timed));
    assert!(!pattern_time_effected(&vec![vec![], vec![9u8]], &|_c: &u8| false));
    assert!(!gradient_time_effected::<i32, u8, _>(&vec![], &timed));
}
