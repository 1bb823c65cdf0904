use coursework::fun_types::{MyOption, MyVec};
use std::cell::RefCell;

#[test]
fn option_map_applies_to_a_value() {
    assert_eq!(MyOption::Just(1).map(|x| x + 1), MyOption::Just(2));
    assert_eq!(MyOption::Nothing.map(|x| x + 1), MyOption::Nothing);
}

#[test]
fn vec_map_applies_in_order_with_state() {
    let mut b = MyVec::new(vec![1, 2, 3]);
    let mut a = 1;
    b.map(|x| {
        a += 1;
        x * a
    });
    assert_eq!(b.items(), &vec![2, 6, 12]);
    assert_eq!(b, MyVec::new(vec![2, 6, 12]));
}

#[test]
fn vec_for_each_visits_in_order() {
    let b = MyVec::new(vec![1, 2, 3]);
    let seen = RefCell::new(Vec::new());
    b.for_each(|x| seen.borrow_mut().push(x));
    assert_eq!(seen.into_inner(), vec![1, 2, 3]);
}
