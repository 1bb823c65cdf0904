use coursework::lights::{average_brightness, build_lights, traversal};
use coursework::lights::Instruction::{Left, Reset, Right, SetBrightness};

fn brightnesses(root: &coursework::lights::Light) -> Vec<i32> {
    let mut out = vec![root.brightness];
    if let Some(l) = &root.left {
        out.extend(brightnesses(l));
    }
    if let Some(r) = &root.right {
        out.extend(brightnesses(r));
    }
    out
}

#[test]
fn builds_a_tree_and_averages_it() {
    let root = build_lights(&vec![SetBrightness(5), Left, SetBrightness(3), Reset, Right, SetBrightness(10)]);
    assert_eq!(brightnesses(&root), vec![5, 3, 10]);
    assert_eq!(average_brightness(&root), Some(6));
}

#[test]
fn growing_a_side_again_replaces_it() {
    let root = build_lights(&vec![Left, SetBrightness(4), Left, SetBrightness(8), Reset, Left]);
    assert_eq!(brightnesses(&root), vec![0, 0]);
    assert_eq!(average_brightness(&root), Some(0));
}

#[test]
fn average_rounds_toward_zero() {
    let root = build_lights(&vec![SetBrightness(-7), Left, SetBrightness(2)]);
    assert_eq!(average_brightness(&root), Some(-2));
}

#[test]
fn overflow_of_the_running_total_is_reported() {
    let root = build_lights(&vec![SetBrightness(i32::MAX), Left, SetBrightness(1)]);
    assert_eq!(average_brightness(&root), None);
    let root = build_lights(&vec![SetBrightness(i32::MAX), Left, SetBrightness(-1)]);
    assert_eq!(average_brightness(&root), Some((i32::MAX - 1) / 2));
}

#[test]
fn traversal_adds_sum_and_count() {
    let root = build_lights(&vec![SetBrightness(2), Right, SetBrightness(3), Right, SetBrightness(4)]);
    let mut data = (10, 1);
    traversal(&Some(&root), &mut data);
    assert_eq!(data, (19, 4));
    let mut data = (0, 0);
    traversal(&None, &mut data);
    assert_eq!(data, (0, 0));
}
