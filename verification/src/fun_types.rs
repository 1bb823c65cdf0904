//! An optional integer and a vector of integers that can be mapped over.

use vstd::prelude::*;

verus! {

/// An integer, or nothing.
#[derive(PartialEq, Eq, Structural, Debug)]
pub enum MyOption {
    Just(i32),
    Nothing,
}

impl MyOption {
    /// Applies `f` to the integer, if there is one.
    pub fn map<F: FnOnce(i32) -> i32>(self, f: F) -> (r: MyOption)
        requires
            self matches MyOption::Just(x) ==> f.requires((x,)),
        ensures
            match self {
                MyOption::Just(x) => r matches MyOption::Just(y) && f.ensures((x,), y),
                MyOption::Nothing => r == MyOption::Nothing,
            },
    {
        match self {
            MyOption::Just(x) => MyOption::Just(f(x)),
            MyOption::Nothing => MyOption::Nothing,
        }
    }
}

/// A vector of integers.
#[derive(PartialEq, Eq, Debug)]
pub struct MyVec {
    items: Vec<i32>,
}

impl View for MyVec {
    type V = Seq<i32>;

    closed spec fn view(&self) -> Seq<i32> {
        self.items@
    }
}

/// Some state of the closure type `F` sends `x` to `y`.
pub open spec fn maps_to<F: FnMut(i32) -> i32>(x: i32, y: i32) -> bool {
    exists|g: F| #[trigger] g.ensures((x,), y)
}

impl MyVec {
    /// A vector holding `items`.
    pub fn new(items: Vec<i32>) -> (r: MyVec)
        ensures
            r@ == items@,
    {
        MyVec { items }
    }

    /// The items, in order.
    pub fn items(&self) -> (r: &Vec<i32>)
        ensures
            r@ == self@,
    {
        &self.items
    }

    /// Replaces every item by what `f` gives for it, from the first item to the last.
    pub fn map<F: FnMut(i32) -> i32>(&mut self, f: F)
        requires
            forall|g: F, x: i32| #[trigger] g.requires((x,)),
        ensures
            final(self)@.len() == old(self)@.len(),
            forall|i: int|
                0 <= i < old(self)@.len() ==> #[trigger] maps_to::<F>(old(self)@[i], final(self)@[i]),
    {
        let mut f = f;
        let ghost mut states: Seq<F> = Seq::empty();
        let mut i: usize = 0;
        while i < self.items.len()
            invariant
                i <= self.items@.len(),
                states.len() == i,
                self.items@.len() == old(self).items@.len(),
                forall|j: int| i <= j < self.items@.len() ==> self.items@[j] == old(self).items@[j],
                forall|g: F, x: i32| #[trigger] g.requires((x,)),
                forall|j: int|
                    0 <= j < i ==> #[trigger] states[j].ensures((old(self).items@[j],), self.items@[j]),
            decreases self.items@.len() - i,
        {
            let ghost before = f;
            let y = f(self.items[i]);
            self.items.set(i, y);
            proof {
                states = states.push(before);
            }
            i = i + 1;
        }
        assert forall|j: int| 0 <= j < old(self)@.len() implies #[trigger] maps_to::<F>(old(self)@[j], self@[j]) by {
            assert(states[j].ensures((old(self).items@[j],), self.items@[j]));
        }
    }

    /// Calls `f` on every item, from the first to the last.
    pub fn for_each<F: Fn(i32)>(&self, f: F)
        requires
            forall|x: i32| f.requires((x,)),
    {
        let mut i: usize = 0;
        while i < self.items.len()
            invariant
                i <= self.items@.len(),
                forall|x: i32| f.requires((x,)),
            decreases self.items@.len() - i,
        {
            f(self.items[i]);
            i = i + 1;
        }
    }
}

} // verus!
