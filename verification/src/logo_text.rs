//! Whitespace handling for the Logo interpreter: splitting a line into words and
//! trimming it, with Unicode's White_Space characters as `char::is_whitespace` has them.

use vstd::prelude::*;
use crate::text::{chars_of, string_from_chars, string_views};

verus! {

/// Unicode's White_Space property (the characters that `char::is_whitespace` accepts).
pub open spec fn is_white_space_spec(c: char) -> bool {
    let u = c as u32;
    (0x9 <= u <= 0xd) || u == 0x20 || u == 0x85 || u == 0xa0 || u == 0x1680 || (0x2000 <= u
        <= 0x200a) || u == 0x2028 || u == 0x2029 || u == 0x202f || u == 0x205f || u == 0x3000
}

/// Whether `c` is white space.
pub fn is_white_space(c: char) -> (r: bool)
    ensures
        r == is_white_space_spec(c),
{
    let u = c as u32;
    (0x9 <= u && u <= 0xd) || u == 0x20 || u == 0x85 || u == 0xa0 || u == 0x1680 || (0x2000 <= u
        && u <= 0x200a) || u == 0x2028 || u == 0x2029 || u == 0x202f || u == 0x205f || u == 0x3000
}

/// The words of `s`: its maximal runs of characters that are not white space, in order.
pub open spec fn words(s: Seq<char>) -> Seq<Seq<char>>
    decreases s.len(),
{
    if s.len() == 0 {
        Seq::empty()
    } else {
        let w = words(s.drop_last());
        let c = s.last();
        if is_white_space_spec(c) {
            w
        } else if s.len() >= 2 && !is_white_space_spec(s[s.len() - 2]) {
            w.drop_last().push(w.last().push(c))
        } else {
            w.push(seq![c])
        }
    }
}

/// Splits a line into its words (`str::split_whitespace`).
pub fn line_words(line: &str) -> (r: Vec<String>)
    ensures
        string_views(r@) == words(line@),
{
    let chars = chars_of(line);
    let mut out: Vec<String> = Vec::new();
    let mut cur: Vec<char> = Vec::new();
    let mut i: usize = 0;
    while i < chars.len()
        invariant
            chars@ == line@,
            i <= chars@.len(),
            cur@.len() > 0 <==> (i > 0 && !is_white_space_spec(chars@[i - 1])),
            words(chars@.subrange(0, i as int)) == if cur@.len() > 0 {
                string_views(out@).push(cur@)
            } else {
                string_views(out@)
            },
        decreases chars@.len() - i,
    {
        let c = chars[i];
        let ghost pre = chars@.subrange(0, i as int);
        let ghost post = chars@.subrange(0, i + 1);
        assert(post.drop_last() =~= pre);
        assert(post.last() == c);
        if is_white_space(c) {
            if cur.len() > 0 {
                let ghost before = string_views(out@);
                out.push(string_from_chars(&cur));
                assert(string_views(out@) =~= before.push(cur@));
                cur = Vec::new();
            }
        } else {
            if cur.len() > 0 {
                assert(post[post.len() - 2] == chars@[i - 1]);
                let ghost old_cur = cur@;
                cur.push(c);
                assert(words(post) =~= string_views(out@).push(old_cur).drop_last().push(old_cur.push(c)));
                assert(string_views(out@).push(old_cur).drop_last() =~= string_views(out@));
            } else {
                if i > 0 {
                    assert(post[post.len() - 2] == chars@[i - 1]);
                }
                cur.push(c);
                assert(cur@ =~= seq![c]);
            }
        }
        i = i + 1;
    }
    assert(chars@.subrange(0, chars@.len() as int) =~= line@);
    if cur.len() > 0 {
        let ghost before = string_views(out@);
        out.push(string_from_chars(&cur));
        assert(string_views(out@) =~= before.push(cur@));
    }
    out
}

/// `t` without the white space at its start.
pub open spec fn trim_front(t: Seq<char>) -> Seq<char>
    decreases t.len(),
{
    if t.len() > 0 && is_white_space_spec(t[0]) {
        trim_front(t.drop_first())
    } else {
        t
    }
}

/// `t` without the white space at its end.
pub open spec fn trim_back(t: Seq<char>) -> Seq<char>
    decreases t.len(),
{
    if t.len() > 0 && is_white_space_spec(t.last()) {
        trim_back(t.drop_last())
    } else {
        t
    }
}

/// `t` without white space at either end (`str::trim`).
pub open spec fn trim(t: Seq<char>) -> Seq<char> {
    trim_back(trim_front(t))
}

proof fn lemma_trim_front_index(t: Seq<char>, i: int)
    requires
        0 <= i <= t.len(),
        forall|j: int| 0 <= j < i ==> is_white_space_spec(t[j]),
        i == t.len() || !is_white_space_spec(t[i]),
    ensures
        trim_front(t) == t.subrange(i, t.len() as int),
    decreases i,
{
    if i > 0 {
        assert forall|j: int| 0 <= j < i - 1 implies is_white_space_spec(t.drop_first()[j]) by {
            assert(t.drop_first()[j] == t[j + 1]);
        }
        if i < t.len() {
            assert(t.drop_first()[i - 1] == t[i]);
        }
        lemma_trim_front_index(t.drop_first(), i - 1);
        assert(t.drop_first().subrange(i - 1, t.len() - 1) =~= t.subrange(i, t.len() as int));
    } else {
        assert(t.subrange(0, t.len() as int) =~= t);
    }
}

proof fn lemma_trim_back_index(t: Seq<char>, k: int)
    requires
        0 <= k <= t.len(),
        forall|j: int| k <= j < t.len() ==> is_white_space_spec(t[j]),
        k == 0 || !is_white_space_spec(t[k - 1]),
    ensures
        trim_back(t) == t.subrange(0, k),
    decreases t.len() - k,
{
    if k < t.len() {
        assert forall|j: int| k <= j < t.len() - 1 implies is_white_space_spec(t.drop_last()[j]) by {
            assert(t.drop_last()[j] == t[j]);
        }
        if k > 0 {
            assert(t.drop_last()[k - 1] == t[k - 1]);
        }
        lemma_trim_back_index(t.drop_last(), k);
        assert(t.drop_last().subrange(0, k) =~= t.subrange(0, k));
    } else {
        assert(t.subrange(0, k) =~= t);
    }
}

/// `line` without white space at either end.
pub fn trim_white_space(line: &str) -> (r: String)
    ensures
        r@ == trim(line@),
{
    let n = line.unicode_len();
    let mut a: usize = 0;
    while a < n && is_white_space(line.get_char(a))
        invariant
            n == line@.len(),
            a <= n,
            forall|j: int| 0 <= j < a ==> is_white_space_spec(line@[j]),
        decreases n - a,
    {
        a = a + 1;
    }
    proof { lemma_trim_front_index(line@, a as int); }
    let ghost front = line@.subrange(a as int, n as int);
    let mut b: usize = n;
    while b > a && is_white_space(line.get_char(b - 1))
        invariant
            n == line@.len(),
            a <= b <= n,
            front == line@.subrange(a as int, n as int),
            forall|j: int| b <= j < n ==> is_white_space_spec(line@[j]),
        decreases b - a,
    {
        b = b - 1;
    }
    proof {
        assert forall|j: int| b - a <= j < front.len() implies is_white_space_spec(front[j]) by {
            assert(front[j] == line@[a + j]);
        }
        if b > a {
            assert(front[b - a - 1] == line@[b - 1]);
        }
        lemma_trim_back_index(front, b - a);
        assert(front.subrange(0, b - a) =~= line@.subrange(a as int, b as int));
    }
    String::from_str(line.substring_char(a, b))
}

} // verus!
