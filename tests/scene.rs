use raytracer::scene::nearest_hit;

#[test]
fn empty_scene_is_missed() {
    let keys: Vec<Option<u64>> = Vec::new();
    assert_eq!(nearest_hit(&keys), None);
}

#[test]
fn scene_missed_by_every_member() {
    assert_eq!(nearest_hit(&vec![None, None, None]), None);
}

#[test]
fn nearest_not_first_hit() {
    // The first member hit is not the nearest one.
    assert_eq!(nearest_hit(&vec![Some(90), None, Some(20), Some(50)]), Some(2));
}

#[test]
fn equal_hits_report_the_earlier_member() {
    assert_eq!(nearest_hit(&vec![None, Some(7), Some(7), Some(8)]), Some(1));
}

#[test]
fn single_member_hit() {
    assert_eq!(nearest_hit(&vec![Some(u64::MAX)]), Some(0));
    assert_eq!(nearest_hit(&vec![None, Some(0)]), Some(1));
}

#[test]
fn member_order_does_not_change_nearest_key() {
    let keys = vec![Some(40), None, Some(15), Some(33), None, Some(71)];
    let mut orders = vec![keys.clone()];
    let mut reversed = keys.clone();
    reversed.reverse();
    orders.push(reversed);
    let mut rotated = keys.clone();
    rotated.rotate_left(3);
    orders.push(rotated);
    let mut swapped = keys.clone();
    swapped.swap(0, 2);
    orders.push(swapped);
    for order in orders {
        let i = nearest_hit(&order).unwrap();
        assert_eq!(order[i], Some(15));
    }
}
