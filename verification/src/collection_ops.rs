//! The insertions and removals whose speed the collections benchmark measures:
//! the numbers `0..n` go in at the back and come out at the front (or by key).

use vstd::prelude::*;
use std::collections::{HashMap, VecDeque};

verus! {

/// The numbers `0..n` in order.
pub open spec fn first_numbers(n: int) -> Seq<i32> {
    Seq::new(n as nat, |i: int| i as i32)
}

/// A vector of the numbers `0..n`, pushed one by one.
pub fn fill_vec(n: i32) -> (v: Vec<i32>)
    requires
        n >= 0,
    ensures
        v@ == first_numbers(n as int),
{
    let mut v: Vec<i32> = Vec::new();
    let mut i: i32 = 0;
    while i < n
        invariant
            0 <= i <= n,
            v@ == first_numbers(i as int),
        decreases n - i,
    {
        v.push(i);
        assert(v@ =~= first_numbers(i + 1));
        i = i + 1;
    }
    v
}

/// Removes the first element of the vector `count` times.
pub fn drain_vec_front(v: &mut Vec<i32>, count: i32)
    requires
        0 <= count <= old(v)@.len(),
    ensures
        final(v)@ == old(v)@.subrange(count as int, old(v)@.len() as int),
{
    let mut k: i32 = 0;
    while k < count
        invariant
            0 <= k <= count,
            count <= old(v)@.len(),
            v@ == old(v)@.subrange(k as int, old(v)@.len() as int),
        decreases count - k,
    {
        v.remove(0);
        assert(v@ =~= old(v)@.subrange(k + 1, old(v)@.len() as int));
        k = k + 1;
    }
}

/// A double-ended queue of the numbers `0..n`, pushed at the back one by one.
pub fn fill_deque(n: i32) -> (d: VecDeque<i32>)
    requires
        n >= 0,
    ensures
        d@ == first_numbers(n as int),
{
    let mut d: VecDeque<i32> = VecDeque::new();
    let mut i: i32 = 0;
    while i < n
        invariant
            0 <= i <= n,
            d@ == first_numbers(i as int),
        decreases n - i,
    {
        d.push_back(i);
        assert(d@ =~= first_numbers(i + 1));
        i = i + 1;
    }
    d
}

/// Pops the front of the queue `count` times (an empty queue stays empty).
pub fn drain_deque_front(d: &mut VecDeque<i32>, count: i32)
    requires
        0 <= count,
    ensures
        final(d)@ == if count <= old(d)@.len() {
            old(d)@.subrange(count as int, old(d)@.len() as int)
        } else {
            Seq::empty()
        },
{
    let mut k: i32 = 0;
    while k < count
        invariant
            0 <= k <= count,
            d@ == if k <= old(d)@.len() {
                old(d)@.subrange(k as int, old(d)@.len() as int)
            } else {
                Seq::empty()
            },
        decreases count - k,
    {
        let _ = d.pop_front();
        assert(d@ =~= if k + 1 <= old(d)@.len() {
            old(d)@.subrange(k + 1, old(d)@.len() as int)
        } else {
            Seq::<i32>::empty()
        });
        k = k + 1;
    }
}

/// A map from each number of `0..n` to itself, inserted one by one.
pub fn fill_map(n: i32) -> (m: HashMap<i32, i32>)
    requires
        n >= 0,
    ensures
        m@ == Map::new(|k: i32| 0 <= k < n, |k: i32| k),
{
    let mut m: HashMap<i32, i32> = HashMap::new();
    let mut i: i32 = 0;
    while i < n
        invariant
            0 <= i <= n,
            m@ == Map::new(|k: i32| 0 <= k < i, |k: i32| k),
        decreases n - i,
    {
        m.insert(i, i);
        assert(m@ =~= Map::new(|k: i32| 0 <= k < i + 1, |k: i32| k));
        i = i + 1;
    }
    m
}

/// Removes the keys `0..count` from the map.
pub fn drain_map(m: &mut HashMap<i32, i32>, count: i32)
    requires
        0 <= count,
    ensures
        final(m)@ == old(m)@.remove_keys(Set::new(|k: i32| 0 <= k < count)),
{
    let mut i: i32 = 0;
    while i < count
        invariant
            0 <= i <= count,
            m@ == old(m)@.remove_keys(Set::new(|k: i32| 0 <= k < i)),
        decreases count - i,
    {
        m.remove(&i);
        assert(m@ =~= old(m)@.remove_keys(Set::new(|k: i32| 0 <= k < i + 1)));
        i = i + 1;
    }
}

} // verus!
