use tiny_sdl2_gui::layout::linear::{hand_out_round_ups, round_up_order};

#[test]
fn round_up_order_above_min_first() {
    // above their minimum: 0, 2, 3; at it: 1, 4
    let order = round_up_order(&[false, true, false, false, true]);
    assert_eq!(order, vec![2, 0, 3, 1, 4]);
    assert!(round_up_order(&[]).is_empty());
    assert_eq!(round_up_order(&[true]), vec![0]);
}

#[test]
fn round_ups_go_to_children_that_can_grow() {
    let order = vec![2, 0, 3, 1, 4];
    let can_grow = [true, true, false, true, true];
    assert_eq!(hand_out_round_ups(&order, &can_grow, 0), Vec::<usize>::new());
    assert_eq!(hand_out_round_ups(&order, &can_grow, 2), vec![0, 3]);
    assert_eq!(hand_out_round_ups(&order, &can_grow, 3), vec![0, 3, 1]);
    // more pixels left over than children that can grow: one each
    assert_eq!(hand_out_round_ups(&order, &can_grow, 10), vec![0, 3, 1, 4]);
    assert_eq!(hand_out_round_ups(&order, &[false; 5], 3), Vec::<usize>::new());
}
