use coursework::collection_ops::{drain_deque_front, drain_map, drain_vec_front, fill_deque, fill_map, fill_vec};

#[test]
fn vectors_fill_and_drain() {
    let mut v = fill_vec(5);
    assert_eq!(v, vec![0, 1, 2, 3, 4]);
    drain_vec_front(&mut v, 2);
    assert_eq!(v, vec![2, 3, 4]);
    drain_vec_front(&mut v, 3);
    assert!(v.is_empty());
}

#[test]
fn deques_fill_and_drain() {
    let mut d = fill_deque(4);
    assert_eq!(d.iter().cloned().collect::<Vec<_>>(), vec![0, 1, 2, 3]);
    drain_deque_front(&mut d, 6);
    assert!(d.is_empty());
}

#[test]
fn maps_fill_and_drain() {
    let mut m = fill_map(4);
    assert_eq!(m.len(), 4);
    assert_eq!(m.get(&3), Some(&3));
    drain_map(&mut m, 2);
    assert_eq!(m.len(), 2);
    assert!(m.get(&1).is_none());
}
