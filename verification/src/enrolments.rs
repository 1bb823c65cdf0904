//! Statistics over a list of course enrolments: how many distinct students there
//! are, how many enrolments each course has, and which courses are the most and
//! the least common.

use vstd::prelude::*;
use crate::text::string_views;

verus! {

/// The parts of an enrolment record that the statistics read.
pub struct Enrolment {
    pub course_code: String,
    pub student_number: String,
}

/// Course sizes and the distinct students of a list of enrolments.
pub struct EnrolmentSummary {
    /// Each course code that occurs, once.
    pub course_codes: Vec<String>,
    /// `course_sizes[k]` is the number of enrolments in `course_codes[k]`.
    pub course_sizes: Vec<i32>,
    /// The position of the first enrolment of each distinct student number, in increasing order.
    pub first_enrolments: Vec<usize>,
}

/// The course codes of the enrolments, in order.
pub open spec fn codes(e: Seq<Enrolment>) -> Seq<Seq<char>> {
    e.map_values(|x: Enrolment| x.course_code@)
}

/// The student numbers of the enrolments, in order.
pub open spec fn numbers(e: Seq<Enrolment>) -> Seq<Seq<char>> {
    e.map_values(|x: Enrolment| x.student_number@)
}

/// How many times `x` occurs in `s`.
pub open spec fn occurrences(s: Seq<Seq<char>>, x: Seq<char>) -> nat
    decreases s.len(),
{
    if s.len() == 0 {
        0
    } else {
        occurrences(s.drop_last(), x) + if s.last() == x {
            1nat
        } else {
            0nat
        }
    }
}

/// Position `i` holds the first occurrence of its value.
pub open spec fn is_first_occurrence(s: Seq<Seq<char>>, i: int) -> bool {
    &&& 0 <= i < s.len()
    &&& forall|j: int| 0 <= j < i ==> s[j] != s[i]
}

/// The summary describes exactly the enrolments `e`.
pub open spec fn summarizes(r: EnrolmentSummary, e: Seq<Enrolment>) -> bool {
    let cs = codes(e);
    let ns = numbers(e);
    &&& r.course_codes@.len() == r.course_sizes@.len()
    // every course code once, and no other
    &&& forall|k: int, l: int|
        0 <= k < l < r.course_codes@.len() ==> r.course_codes@[k]@ != r.course_codes@[l]@
    &&& forall|k: int| 0 <= k < r.course_codes@.len() ==> cs.contains(#[trigger] r.course_codes@[k]@)
    &&& forall|i: int| 0 <= i < cs.len() ==> string_views(r.course_codes@).contains(#[trigger] cs[i])
    // the size of each course
    &&& forall|k: int|
        0 <= k < r.course_codes@.len() ==> #[trigger] r.course_sizes@[k] == occurrences(
            cs,
            r.course_codes@[k]@,
        )
    // the first enrolment of each student, in increasing order
    &&& forall|k: int, l: int|
        0 <= k < l < r.first_enrolments@.len() ==> r.first_enrolments@[k] < r.first_enrolments@[l]
    &&& forall|k: int|
        0 <= k < r.first_enrolments@.len() ==> is_first_occurrence(
            ns,
            #[trigger] r.first_enrolments@[k] as int,
        )
    &&& forall|i: int|
        #[trigger] is_first_occurrence(ns, i) ==> r.first_enrolments@.contains(i as usize)
}

/// The position of `key` among `keys`, if it is there.
fn position_of(keys: &Vec<String>, key: &String) -> (r: Option<usize>)
    ensures
        match r {
            Some(k) => k < keys@.len() && keys@[k as int]@ == key@,
            None => forall|k: int| 0 <= k < keys@.len() ==> keys@[k]@ != key@,
        },
{
    let mut k: usize = 0;
    while k < keys.len()
        invariant
            k <= keys@.len(),
            forall|j: int| 0 <= j < k ==> keys@[j]@ != key@,
        decreases keys@.len() - k,
    {
        if keys[k] == *key {
            return Some(k);
        }
        k = k + 1;
    }
    None
}

proof fn lemma_occurrences_push(s: Seq<Seq<char>>, y: Seq<char>, x: Seq<char>)
    ensures
        occurrences(s.push(y), x) == occurrences(s, x) + if y == x {
            1nat
        } else {
            0nat
        },
{
    assert(s.push(y).drop_last() =~= s);
}

proof fn lemma_occurrences_bound(s: Seq<Seq<char>>, x: Seq<char>)
    ensures
        occurrences(s, x) <= s.len(),
        !s.contains(x) ==> occurrences(s, x) == 0,
    decreases s.len(),
{
    if s.len() > 0 {
        lemma_occurrences_bound(s.drop_last(), x);
        if !s.contains(x) {
            assert forall|j: int| 0 <= j < s.drop_last().len() implies s.drop_last()[j] != x by {
                assert(s[j] == s.drop_last()[j]);
            }
            assert(!s.drop_last().contains(x));
            assert(s[s.len() - 1] == s.last());
        }
    }
}

/// Counts the enrolments of each course and finds the first enrolment of each student.
pub fn summarize(enrolments: &Vec<Enrolment>) -> (r: EnrolmentSummary)
    requires
        enrolments@.len() <= i32::MAX,
    ensures
        summarizes(r, enrolments@),
{
    let ghost e = enrolments@;
    let mut course_codes: Vec<String> = Vec::new();
    let mut course_sizes: Vec<i32> = Vec::new();
    let mut first_enrolments: Vec<usize> = Vec::new();
    let mut seen_numbers: Vec<String> = Vec::new();
    let mut i: usize = 0;
    while i < enrolments.len()
        invariant
            e == enrolments@,
            e.len() <= i32::MAX,
            i <= e.len(),
            course_codes@.len() == course_sizes@.len(),
            forall|k: int, l: int|
                0 <= k < l < course_codes@.len() ==> course_codes@[k]@ != course_codes@[l]@,
            forall|k: int|
                0 <= k < course_codes@.len() ==> codes(e).subrange(0, i as int).contains(
                    #[trigger] course_codes@[k]@,
                ),
            forall|j: int| 0 <= j < i ==> string_views(course_codes@).contains(#[trigger] codes(e)[j]),
            forall|k: int|
                0 <= k < course_codes@.len() ==> #[trigger] course_sizes@[k] == occurrences(
                    codes(e).subrange(0, i as int),
                    course_codes@[k]@,
                ),
            seen_numbers@.len() == first_enrolments@.len(),
            forall|k: int|
                0 <= k < first_enrolments@.len() ==> #[trigger] first_enrolments@[k] < i
                    && seen_numbers@[k]@ == numbers(e)[first_enrolments@[k] as int],
            forall|k: int, l: int|
                0 <= k < l < first_enrolments@.len() ==> first_enrolments@[k] < first_enrolments@[l],
            forall|k: int|
                0 <= k < first_enrolments@.len() ==> is_first_occurrence(
                    numbers(e),
                    #[trigger] first_enrolments@[k] as int,
                ),
            forall|j: int|
                0 <= j < i && #[trigger] is_first_occurrence(numbers(e), j) ==> first_enrolments@.contains(j as usize),
            forall|j: int| 0 <= j < i ==> string_views(seen_numbers@).contains(#[trigger] numbers(e)[j]),
        decreases e.len() - i,
    {
        let ghost prefix = codes(e).subrange(0, i as int);
        assert(codes(e).subrange(0, i + 1) =~= prefix.push(codes(e)[i as int]));
        let ghost old_codes = course_codes@;
        let ghost old_seen = seen_numbers@;
        let ghost old_firsts = first_enrolments@;
        let ghost mut code_slot: int = 0;
        let ghost mut number_slot: int = 0;
        let code = &enrolments[i].course_code;
        match position_of(&course_codes, code) {
            Some(k) => {
                proof { code_slot = k as int; }
                proof {
                    lemma_occurrences_bound(prefix, code@);
                    assert forall|m: int| 0 <= m < course_codes@.len() implies
                        #[trigger] course_sizes@[m] + (if m == k { 1int } else { 0int })
                        == occurrences(prefix.push(code@), course_codes@[m]@) by {
                        lemma_occurrences_push(prefix, code@, course_codes@[m]@);
                    }
                }
                let size = course_sizes[k];
                course_sizes.set(k, size + 1);
            },
            None => {
                proof {
                    assert(!prefix.contains(code@)) by {
                        if prefix.contains(code@) {
                            let j = choose|j: int| 0 <= j < prefix.len() && prefix[j] == code@;
                            assert(codes(e)[j] == prefix[j]);
                        }
                    }
                    lemma_occurrences_bound(prefix, code@);
                    lemma_occurrences_push(prefix, code@, code@);
                    assert forall|m: int| 0 <= m < course_codes@.len() implies
                        #[trigger] course_sizes@[m] == occurrences(prefix.push(code@), course_codes@[m]@) by {
                        lemma_occurrences_push(prefix, code@, course_codes@[m]@);
                    }
                }
                proof { code_slot = course_codes@.len() as int; }
                course_codes.push(code.clone());
                course_sizes.push(1);
            },
        }
        let number = &enrolments[i].student_number;
        match position_of(&seen_numbers, number) {
            Some(k) => {
                proof { number_slot = k as int; }
            },
            None => {
                proof {
                    assert forall|j: int| 0 <= j < i implies numbers(e)[j] != numbers(e)[i as int] by {
                        let k = choose|k: int| 0 <= k < string_views(seen_numbers@).len() && string_views(seen_numbers@)[k] == numbers(e)[j];
                        assert(seen_numbers@[k]@ == string_views(seen_numbers@)[k]);
                    }
                }
                proof { number_slot = seen_numbers@.len() as int; }
                seen_numbers.push(number.clone());
                first_enrolments.push(i);
            },
        }
        proof {
            assert forall|j: int| 0 <= j < i + 1 implies string_views(course_codes@).contains(#[trigger] codes(e)[j]) by {
                if j < i {
                    let k = choose|k: int| 0 <= k < string_views(old_codes).len() && string_views(old_codes)[k] == codes(e)[j];
                    assert(string_views(course_codes@)[k] == string_views(old_codes)[k]);
                } else {
                    assert(string_views(course_codes@)[code_slot] == codes(e)[j]);
                }
            }
            assert forall|j: int| 0 <= j < i + 1 implies string_views(seen_numbers@).contains(#[trigger] numbers(e)[j]) by {
                if j < i {
                    let k = choose|k: int| 0 <= k < string_views(old_seen).len() && string_views(old_seen)[k] == numbers(e)[j];
                    assert(string_views(seen_numbers@)[k] == string_views(old_seen)[k]);
                } else {
                    assert(string_views(seen_numbers@)[number_slot] == numbers(e)[j]);
                }
            }
            assert forall|j: int| 0 <= j < i + 1 && #[trigger] is_first_occurrence(numbers(e), j) implies
                first_enrolments@.contains(j as usize) by {
                if j < i {
                    let k = choose|k: int| 0 <= k < old_firsts.len() && old_firsts[k] == j as usize;
                    assert(first_enrolments@[k] == old_firsts[k]);
                } else {
                    if number_slot < old_seen.len() {
                        let m = old_firsts[number_slot] as int;
                        assert(numbers(e)[m] == numbers(e)[j]);
                    }
                    assert(first_enrolments@[number_slot] == j);
                }
            }
            assert forall|k: int| 0 <= k < course_codes@.len() implies
                codes(e).subrange(0, i + 1).contains(#[trigger] course_codes@[k]@) by {
                if k < course_codes@.len() - 1 || prefix.contains(course_codes@[k]@) {
                    if prefix.contains(course_codes@[k]@) {
                        let j = choose|j: int| 0 <= j < prefix.len() && prefix[j] == course_codes@[k]@;
                        assert(codes(e).subrange(0, i + 1)[j] == prefix[j]);
                    }
                } else {
                    assert(codes(e).subrange(0, i + 1)[i as int] == code@);
                }
            }
        }
        i = i + 1;
    }
    assert(codes(e).subrange(0, e.len() as int) =~= codes(e));
    assert(i == e.len());
    EnrolmentSummary { course_codes, course_sizes, first_enrolments }
}

/// The first position of the largest course size, or `None` when there are no courses.
pub fn most_common_course(sizes: &Vec<i32>) -> (r: Option<usize>)
    ensures
        r is None <==> sizes@.len() == 0,
        r matches Some(k) ==> {
            &&& k < sizes@.len()
            &&& forall|j: int| 0 <= j < sizes@.len() ==> sizes@[j] <= sizes@[k as int]
            &&& forall|j: int| 0 <= j < k ==> sizes@[j] < sizes@[k as int]
        },
{
    if sizes.len() == 0 {
        return None;
    }
    let mut best: usize = 0;
    let mut i: usize = 1;
    while i < sizes.len()
        invariant
            0 <= best < i <= sizes@.len(),
            forall|j: int| 0 <= j < i ==> sizes@[j] <= sizes@[best as int],
            forall|j: int| 0 <= j < best ==> sizes@[j] < sizes@[best as int],
        decreases sizes@.len() - i,
    {
        if sizes[i] > sizes[best] {
            best = i;
        }
        i = i + 1;
    }
    Some(best)
}

/// The first position of the smallest course size, or `None` when there are no courses.
pub fn least_common_course(sizes: &Vec<i32>) -> (r: Option<usize>)
    ensures
        r is None <==> sizes@.len() == 0,
        r matches Some(k) ==> {
            &&& k < sizes@.len()
            &&& forall|j: int| 0 <= j < sizes@.len() ==> sizes@[k as int] <= sizes@[j]
            &&& forall|j: int| 0 <= j < k ==> sizes@[k as int] < sizes@[j]
        },
{
    if sizes.len() == 0 {
        return None;
    }
    let mut best: usize = 0;
    let mut i: usize = 1;
    while i < sizes.len()
        invariant
            0 <= best < i <= sizes@.len(),
            forall|j: int| 0 <= j < i ==> sizes@[best as int] <= sizes@[j],
            forall|j: int| 0 <= j < best ==> sizes@[best as int] < sizes@[j],
        decreases sizes@.len() - i,
    {
        if sizes[i] < sizes[best] {
            best = i;
        }
        i = i + 1;
    }
    Some(best)
}

/// The sum of the course sizes.
pub open spec fn sum_sizes(sizes: Seq<i32>) -> int
    decreases sizes.len(),
{
    if sizes.len() == 0 {
        0
    } else {
        sum_sizes(sizes.drop_last()) + sizes.last()
    }
}

/// The number of enrolments in `cs` of all the courses `keys`.
spec fn total_size(keys: Seq<Seq<char>>, cs: Seq<Seq<char>>) -> nat
    decreases keys.len(),
{
    if keys.len() == 0 {
        0
    } else {
        total_size(keys.drop_last(), cs) + occurrences(cs, keys.last())
    }
}

proof fn lemma_total_size_push(keys: Seq<Seq<char>>, cs: Seq<Seq<char>>, y: Seq<char>)
    ensures
        total_size(keys, cs.push(y)) == total_size(keys, cs) + occurrences(keys, y),
    decreases keys.len(),
{
    if keys.len() > 0 {
        lemma_total_size_push(keys.drop_last(), cs, y);
        lemma_occurrences_push(cs, y, keys.last());
    }
}

proof fn lemma_total_size_empty(keys: Seq<Seq<char>>)
    ensures
        total_size(keys, Seq::empty()) == 0,
    decreases keys.len(),
{
    if keys.len() > 0 {
        lemma_total_size_empty(keys.drop_last());
    }
}

proof fn lemma_once_in_distinct(keys: Seq<Seq<char>>, y: Seq<char>)
    requires
        forall|k: int, l: int| 0 <= k < l < keys.len() ==> keys[k] != keys[l],
        keys.contains(y),
    ensures
        occurrences(keys, y) == 1,
    decreases keys.len(),
{
    let rest = keys.drop_last();
    if keys.last() == y {
        assert forall|j: int| 0 <= j < rest.len() implies rest[j] != y by {
            assert(rest[j] == keys[j]);
            assert(keys[keys.len() - 1] == y);
        }
        lemma_occurrences_bound(rest, y);
    } else {
        let i = choose|i: int| 0 <= i < keys.len() && keys[i] == y;
        assert(i < keys.len() - 1);
        assert(rest[i] == y);
        lemma_once_in_distinct(rest, y);
    }
}

proof fn lemma_total_size_covers(keys: Seq<Seq<char>>, cs: Seq<Seq<char>>)
    requires
        forall|k: int, l: int| 0 <= k < l < keys.len() ==> keys[k] != keys[l],
        forall|i: int| 0 <= i < cs.len() ==> keys.contains(#[trigger] cs[i]),
    ensures
        total_size(keys, cs) == cs.len(),
    decreases cs.len(),
{
    if cs.len() == 0 {
        lemma_total_size_empty(keys);
        assert(cs =~= Seq::<Seq<char>>::empty());
    } else {
        let rest = cs.drop_last();
        assert forall|i: int| 0 <= i < rest.len() implies keys.contains(#[trigger] rest[i]) by {
            assert(rest[i] == cs[i]);
        }
        lemma_total_size_covers(keys, rest);
        assert(cs =~= rest.push(cs.last()));
        lemma_total_size_push(keys, rest, cs.last());
        assert(keys.contains(cs[cs.len() - 1]));
        lemma_once_in_distinct(keys, cs.last());
    }
}

proof fn lemma_sum_sizes_total(sizes: Seq<i32>, keys: Seq<Seq<char>>, cs: Seq<Seq<char>>)
    requires
        sizes.len() == keys.len(),
        forall|k: int| 0 <= k < keys.len() ==> #[trigger] sizes[k] == occurrences(cs, keys[k]),
    ensures
        sum_sizes(sizes) == total_size(keys, cs),
    decreases keys.len(),
{
    if keys.len() > 0 {
        assert forall|k: int| 0 <= k < keys.drop_last().len() implies #[trigger] sizes.drop_last()[k]
            == occurrences(cs, keys.drop_last()[k]) by {
            assert(sizes.drop_last()[k] == sizes[k]);
            assert(keys.drop_last()[k] == keys[k]);
        }
        lemma_sum_sizes_total(sizes.drop_last(), keys.drop_last(), cs);
        assert(sizes[sizes.len() - 1] == occurrences(cs, keys[keys.len() - 1]));
    }
}

/// The course sizes of a summary add up to the number of enrolments.
pub proof fn lemma_sizes_add_up(r: EnrolmentSummary, e: Seq<Enrolment>)
    requires
        summarizes(r, e),
    ensures
        sum_sizes(r.course_sizes@) == e.len(),
{
    let keys = string_views(r.course_codes@);
    let cs = codes(e);
    assert forall|k: int, l: int| 0 <= k < l < keys.len() implies keys[k] != keys[l] by {
        assert(keys[k] == r.course_codes@[k]@);
        assert(keys[l] == r.course_codes@[l]@);
    }
    assert forall|k: int| 0 <= k < keys.len() implies #[trigger] r.course_sizes@[k] == occurrences(cs, keys[k]) by {
        assert(keys[k] == r.course_codes@[k]@);
    }
    lemma_sum_sizes_total(r.course_sizes@, keys, cs);
    lemma_total_size_covers(keys, cs);
}

/// There are never more distinct students than enrolments.
pub proof fn lemma_students_at_most_enrolments(r: EnrolmentSummary, e: Seq<Enrolment>)
    requires
        summarizes(r, e),
    ensures
        r.first_enrolments@.len() <= e.len(),
{
    let f = r.first_enrolments@;
    if f.len() > 0 {
        // strictly increasing positions below e.len()
        assert forall|k: int| 0 <= k < f.len() implies #[trigger] f[k] >= k by {
            lemma_increasing_at_least_index(f, k);
        }
        assert(f[f.len() - 1] >= f.len() - 1);
        assert(is_first_occurrence(numbers(e), f[f.len() - 1] as int));
    }
}

proof fn lemma_increasing_at_least_index(f: Seq<usize>, k: int)
    requires
        forall|a: int, b: int| 0 <= a < b < f.len() ==> f[a] < f[b],
        0 <= k < f.len(),
    ensures
        f[k] >= k,
    decreases k,
{
    if k > 0 {
        lemma_increasing_at_least_index(f, k - 1);
    }
}

} // verus!
