use coursework::myrc::MyRc;

#[test]
fn clones_share_the_value() {
    let a = MyRc::new(String::from("shared"));
    let b = a.clone();
    assert_eq!(*a, "shared");
    assert_eq!(*b, "shared");
    assert!(std::ptr::eq(a.get(), b.get()));
    drop(a);
    assert_eq!(b.get(), "shared");
}
