//! A tree of lights grown by a list of instructions, and its average brightness.
//!
//! A cursor starts at the root. `Left` and `Right` give the light under the cursor a
//! new, dark child on that side (replacing whatever hung there) and move the cursor
//! to it; `Set` changes the brightness under the cursor; `Reset` moves the cursor
//! back to the root.

use vstd::prelude::*;

verus! {

/// One light of the tree.
pub struct Light {
    pub left: Option<Box<Light>>,
    pub right: Option<Box<Light>>,
    pub brightness: i32,
}

/// One instruction of the list that grows the tree.
pub enum Instruction {
    SetBrightness(i32),
    Left,
    Right,
    Reset,
}

/// A step from a light to one of its children.
#[derive(Clone, Copy)]
pub enum Side {
    Left,
    Right,
}

/// A light with no children and brightness 0.
pub open spec fn dark() -> Light {
    Light { left: None, right: None, brightness: 0 }
}

/// The subtree reached from `l` by following `path`, if every step exists.
pub open spec fn node_at(l: Light, path: Seq<Side>) -> Option<Light>
    decreases path.len(),
{
    if path.len() == 0 {
        Some(l)
    } else {
        let child = match path[0] {
            Side::Left => l.left,
            Side::Right => l.right,
        };
        match child {
            Some(c) => node_at(*c, path.drop_first()),
            None => None,
        }
    }
}

/// `l` with the light at `path` changed by `f`; unchanged when the path leads nowhere.
pub open spec fn update_at(l: Light, path: Seq<Side>, f: spec_fn(Light) -> Light) -> Light
    decreases path.len(),
{
    if path.len() == 0 {
        f(l)
    } else {
        match path[0] {
            Side::Left => match l.left {
                Some(c) => Light { left: Some(Box::new(update_at(*c, path.drop_first(), f))), ..l },
                None => l,
            },
            Side::Right => match l.right {
                Some(c) => Light { right: Some(Box::new(update_at(*c, path.drop_first(), f))), ..l },
                None => l,
            },
        }
    }
}

/// The light with its brightness set to `b`.
pub open spec fn with_brightness(b: i32) -> spec_fn(Light) -> Light {
    |l: Light| Light { brightness: b, ..l }
}

/// The light with a new dark child on `side`.
pub open spec fn with_new_child(side: Side) -> spec_fn(Light) -> Light {
    |l: Light|
        match side {
            Side::Left => Light { left: Some(Box::new(dark())), ..l },
            Side::Right => Light { right: Some(Box::new(dark())), ..l },
        }
}

/// The tree and the cursor after one more instruction.
pub open spec fn step(state: (Light, Seq<Side>), ins: Instruction) -> (Light, Seq<Side>) {
    let (tree, cursor) = state;
    match ins {
        Instruction::SetBrightness(b) => (update_at(tree, cursor, with_brightness(b)), cursor),
        Instruction::Left => (update_at(tree, cursor, with_new_child(Side::Left)), cursor.push(Side::Left)),
        Instruction::Right => (update_at(tree, cursor, with_new_child(Side::Right)), cursor.push(Side::Right)),
        Instruction::Reset => (tree, Seq::empty()),
    }
}

/// The tree and the cursor after a list of instructions, starting from a single dark light.
pub open spec fn run(instrs: Seq<Instruction>) -> (Light, Seq<Side>)
    decreases instrs.len(),
{
    if instrs.len() == 0 {
        (dark(), Seq::empty())
    } else {
        step(run(instrs.drop_last()), instrs.last())
    }
}

/// Sum of the brightness of every light in a subtree.
pub open spec fn brightness_sum(node: Option<Box<Light>>) -> int
    decreases node,
{
    match node {
        None => 0,
        Some(n) => brightness_sum(n.left) + brightness_sum(n.right) + n.brightness,
    }
}

/// Number of lights in a subtree.
pub open spec fn light_count(node: Option<Box<Light>>) -> nat
    decreases node,
{
    match node {
        None => 0,
        Some(n) => light_count(n.left) + light_count(n.right) + 1,
    }
}

pub open spec fn in_i32(x: int) -> bool {
    i32::MIN <= x <= i32::MAX
}

/// Adding the brightness of a subtree to `start` in post-order (left subtree, right
/// subtree, then the light itself) keeps every running total inside `i32`.
pub open spec fn sum_fits(node: Option<Box<Light>>, start: int) -> bool
    decreases node,
{
    match node {
        None => true,
        Some(n) => {
            &&& sum_fits(n.left, start)
            &&& sum_fits(n.right, start + brightness_sum(n.left))
            &&& in_i32(start + brightness_sum(n.left) + brightness_sum(n.right) + n.brightness)
        },
    }
}

/// The subtree that a borrowed node stands for.
pub open spec fn owned(node: Option<&Box<Light>>) -> Option<Box<Light>> {
    match node {
        Some(b) => Some(*b),
        None => None,
    }
}

/// Integer division rounding toward zero, as Rust's `/` does.
pub open spec fn div_toward_zero(a: int, b: int) -> int {
    if a >= 0 {
        a / b
    } else {
        -((-a) / b)
    }
}

/// Sets the brightness of the light at `path[from..]`.
fn set_at(node: &mut Light, path: &Vec<Side>, from: usize, b: i32)
    requires
        from <= path@.len(),
    ensures
        *final(node) == update_at(*old(node), path@.skip(from as int), with_brightness(b)),
    decreases path@.len() - from,
{
    if from == path.len() {
        node.brightness = b;
    } else {
        let ghost rest = path@.skip(from as int);
        assert(rest.drop_first() =~= path@.skip(from + 1));
        match path[from] {
            Side::Left => {
                if let Some(mut child) = node.left.take() {
                    set_at(&mut *child, path, from + 1, b);
                    node.left = Some(child);
                }
            },
            Side::Right => {
                if let Some(mut child) = node.right.take() {
                    set_at(&mut *child, path, from + 1, b);
                    node.right = Some(child);
                }
            },
        }
    }
}

/// Gives the light at `path[from..]` a new dark child on `side`.
fn grow_at(node: &mut Light, path: &Vec<Side>, from: usize, side: Side)
    requires
        from <= path@.len(),
    ensures
        *final(node) == update_at(*old(node), path@.skip(from as int), with_new_child(side)),
    decreases path@.len() - from,
{
    if from == path.len() {
        match side {
            Side::Left => {
                node.left = Some(Box::new(Light { left: None, right: None, brightness: 0 }));
            },
            Side::Right => {
                node.right = Some(Box::new(Light { left: None, right: None, brightness: 0 }));
            },
        }
    } else {
        let ghost rest = path@.skip(from as int);
        assert(rest.drop_first() =~= path@.skip(from + 1));
        match path[from] {
            Side::Left => {
                if let Some(mut child) = node.left.take() {
                    grow_at(&mut *child, path, from + 1, side);
                    node.left = Some(child);
                }
            },
            Side::Right => {
                if let Some(mut child) = node.right.take() {
                    grow_at(&mut *child, path, from + 1, side);
                    node.right = Some(child);
                }
            },
        }
    }
}

/// Grows the tree that a list of instructions describes.
pub fn build_lights(instructions: &Vec<Instruction>) -> (root: Box<Light>)
    ensures
        *root == run(instructions@).0,
{
    let mut root = Box::new(Light { left: None, right: None, brightness: 0 });
    let mut cursor: Vec<Side> = Vec::new();
    let mut i: usize = 0;
    while i < instructions.len()
        invariant
            i <= instructions@.len(),
            (*root, cursor@) == run(instructions@.subrange(0, i as int)),
        decreases instructions@.len() - i,
    {
        let ghost before = instructions@.subrange(0, i as int);
        assert(instructions@.subrange(0, i + 1).drop_last() =~= before);
        assert(cursor@.skip(0) =~= cursor@);
        match &instructions[i] {
            Instruction::SetBrightness(b) => {
                set_at(&mut *root, &cursor, 0, *b);
            },
            Instruction::Left => {
                grow_at(&mut *root, &cursor, 0, Side::Left);
                cursor.push(Side::Left);
            },
            Instruction::Right => {
                grow_at(&mut *root, &cursor, 0, Side::Right);
                cursor.push(Side::Right);
            },
            Instruction::Reset => {
                cursor = Vec::new();
            },
        }
        i = i + 1;
    }
    assert(instructions@.subrange(0, instructions@.len() as int) =~= instructions@);
    root
}

/// Adds the brightness of every light under `node` to `num.0` and the number of
/// lights to `num.1`, visiting left subtree, right subtree, then the light.
pub fn traversal(node: &Option<&Box<Light>>, num: &mut (i32, i32))
    requires
        sum_fits(owned(*node), old(num).0 as int),
        old(num).1 + light_count(owned(*node)) <= i32::MAX,
        old(num).1 >= 0,
    ensures
        final(num).0 == old(num).0 + brightness_sum(owned(*node)),
        final(num).1 == old(num).1 + light_count(owned(*node)),
    decreases owned(*node),
{
    if let Some(nd) = node {
        traversal(&nd.left.as_ref(), num);
        traversal(&nd.right.as_ref(), num);
        num.0 = num.0 + nd.brightness;
        num.1 = num.1 + 1;
    }
}

/// The running total ends where the post-order additions end.
proof fn lemma_sum_fits_total(node: Option<Box<Light>>, start: int)
    requires
        sum_fits(node, start),
        in_i32(start),
    ensures
        in_i32(start + brightness_sum(node)),
{
}

/// `start` plus the brightness of every light under `node`, or `None` when a running
/// total of the post-order additions leaves `i32`.
fn checked_brightness_sum(node: &Option<&Box<Light>>, start: i32) -> (r: Option<i32>)
    ensures
        r == (if sum_fits(owned(*node), start as int) {
            Some((start + brightness_sum(owned(*node))) as i32)
        } else {
            None::<i32>
        }),
    decreases owned(*node),
{
    match node {
        None => Some(start),
        Some(nd) => {
            let after_left = match checked_brightness_sum(&nd.left.as_ref(), start) {
                Some(v) => v,
                None => return None,
            };
            proof { lemma_sum_fits_total(nd.left, start as int); }
            let after_right = match checked_brightness_sum(&nd.right.as_ref(), after_left) {
                Some(v) => v,
                None => return None,
            };
            after_right.checked_add(nd.brightness)
        },
    }
}

/// `start` plus the number of lights under `node`, or `None` when it exceeds `i32::MAX`.
fn checked_light_count(node: &Option<&Box<Light>>, start: i32) -> (r: Option<i32>)
    requires
        start >= 0,
    ensures
        r == (if start + light_count(owned(*node)) <= i32::MAX {
            Some((start + light_count(owned(*node))) as i32)
        } else {
            None::<i32>
        }),
    decreases owned(*node),
{
    match node {
        None => Some(start),
        Some(nd) => {
            let after_left = match checked_light_count(&nd.left.as_ref(), start) {
                Some(v) => v,
                None => return None,
            };
            let after_right = match checked_light_count(&nd.right.as_ref(), after_left) {
                Some(v) => v,
                None => return None,
            };
            after_right.checked_add(1)
        },
    }
}

/// The average brightness of the tree, rounded toward zero, or `None` when adding up
/// the brightness (in post-order) or counting the lights would overflow `i32`.
pub fn average_brightness(root: &Box<Light>) -> (r: Option<i32>)
    ensures
        r == (if sum_fits(Some(*root), 0) && light_count(Some(*root)) <= i32::MAX {
            Some(div_toward_zero(brightness_sum(Some(*root)), light_count(Some(*root)) as int) as i32)
        } else {
            None::<i32>
        }),
{
    let node = Some(root);
    assert(owned(node) == Some(*root));
    if checked_brightness_sum(&node, 0).is_none() || checked_light_count(&node, 0).is_none() {
        return None;
    }
    let mut data: (i32, i32) = (0, 0);
    traversal(&node, &mut data);
    let (total, count) = data;
    assert(count >= 1);
    if total >= 0 {
        Some(total / count)
    } else {
        let magnitude: i64 = -(total as i64);
        let q: i64 = magnitude / (count as i64);
        Some((-q) as i32)
    }
}

proof fn lemma_node_at_update(t: Light, p: Seq<Side>, f: spec_fn(Light) -> Light)
    requires
        node_at(t, p) is Some,
    ensures
        node_at(update_at(t, p, f), p) == Some(f(node_at(t, p)->Some_0)),
    decreases p.len(),
{
    if p.len() > 0 {
        match p[0] {
            Side::Left => {
                let c = t.left->Some_0;
                lemma_node_at_update(*c, p.drop_first(), f);
            },
            Side::Right => {
                let c = t.right->Some_0;
                lemma_node_at_update(*c, p.drop_first(), f);
            },
        }
    }
}

proof fn lemma_node_at_push(t: Light, p: Seq<Side>, s: Side)
    ensures
        node_at(t, p.push(s)) == match node_at(t, p) {
            Some(n) => node_at(n, seq![s]),
            None => None,
        },
    decreases p.len(),
{
    if p.len() == 0 {
        assert(p.push(s) =~= seq![s]);
    } else {
        assert(p.push(s).drop_first() =~= p.drop_first().push(s));
        assert(p.push(s)[0] == p[0]);
        match p[0] {
            Side::Left => {
                if let Some(c) = t.left {
                    lemma_node_at_push(*c, p.drop_first(), s);
                }
            },
            Side::Right => {
                if let Some(c) = t.right {
                    lemma_node_at_push(*c, p.drop_first(), s);
                }
            },
        }
    }
}

/// However the instructions go, the cursor always rests on a light of the tree.
pub proof fn lemma_cursor_on_tree(instrs: Seq<Instruction>)
    ensures
        node_at(run(instrs).0, run(instrs).1) is Some,
    decreases instrs.len(),
{
    if instrs.len() > 0 {
        lemma_cursor_on_tree(instrs.drop_last());
        let (t, p) = run(instrs.drop_last());
        match instrs.last() {
            Instruction::SetBrightness(b) => {
                lemma_node_at_update(t, p, with_brightness(b));
            },
            Instruction::Left => {
                lemma_node_at_update(t, p, with_new_child(Side::Left));
                lemma_node_at_push(update_at(t, p, with_new_child(Side::Left)), p, Side::Left);
                let n = (with_new_child(Side::Left))(node_at(t, p)->Some_0);
                assert(seq![Side::Left].drop_first() =~= Seq::<Side>::empty());
                assert(node_at(dark(), Seq::<Side>::empty()) == Some(dark()));
                assert(n.left == Some(Box::new(dark())));
                assert(node_at(n, seq![Side::Left]) == Some(dark()));
            },
            Instruction::Right => {
                lemma_node_at_update(t, p, with_new_child(Side::Right));
                lemma_node_at_push(update_at(t, p, with_new_child(Side::Right)), p, Side::Right);
                let n = (with_new_child(Side::Right))(node_at(t, p)->Some_0);
                assert(seq![Side::Right].drop_first() =~= Seq::<Side>::empty());
                assert(node_at(dark(), Seq::<Side>::empty()) == Some(dark()));
                assert(n.right == Some(Box::new(dark())));
                assert(node_at(n, seq![Side::Right]) == Some(dark()));
            },
            Instruction::Reset => {},
        }
    }
}

} // verus!
