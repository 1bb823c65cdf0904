//! Deciding whether a line of input holds a pattern.

use vstd::prelude::*;
use crate::text::chars_of;

verus! {

/// `pattern` occurs in `text` starting at position `i`.
pub open spec fn occurs_at(text: Seq<char>, pattern: Seq<char>, i: int) -> bool {
    0 <= i && i + pattern.len() <= text.len() && text.subrange(i, i + pattern.len()) == pattern
}

/// `pattern` occurs somewhere in `text` (the empty pattern occurs everywhere).
pub open spec fn occurs_in(text: Seq<char>, pattern: Seq<char>) -> bool {
    exists|i: int| occurs_at(text, pattern, i)
}

/// Whether the line holds the pattern, so that the line is to be echoed.
pub fn contains_pattern(input: &str, pattern: &str) -> (r: bool)
    ensures
        r == occurs_in(input@, pattern@),
{
    let text = chars_of(input);
    let pat = chars_of(pattern);
    if pat.len() > text.len() {
        assert forall|i: int| !occurs_at(input@, pattern@, i) by {}
        return false;
    }
    if pat.len() == 0 {
        assert(input@.subrange(0, 0) =~= pattern@);
        assert(occurs_at(input@, pattern@, 0));
        return true;
    }
    let last = text.len() - pat.len();
    let mut i: usize = 0;
    while i <= last
        invariant
            text@ == input@,
            pat@ == pattern@,
            text@.len() <= usize::MAX,
            last == text@.len() - pat@.len(),
            pat@.len() >= 1,
            i <= last + 1,
            forall|k: int| 0 <= k < i ==> !occurs_at(input@, pattern@, k),
        decreases last + 1 - i,
    {
        let mut j: usize = 0;
        let mut same = true;
        while j < pat.len()
            invariant
                text@ == input@,
                pat@ == pattern@,
                text@.len() <= usize::MAX,
                i <= last,
                last == text@.len() - pat@.len(),
                j <= pat@.len(),
                same == (forall|m: int| 0 <= m < j ==> text@[i + m] == pat@[m]),
            decreases pat@.len() - j,
        {
            assert(i + j < text@.len());
            if text[i + j] != pat[j] {
                same = false;
            }
            j = j + 1;
        }
        if same {
            assert(input@.subrange(i as int, i + pattern@.len()) =~= pattern@);
            assert(occurs_at(input@, pattern@, i as int));
            return true;
        }
        assert(!occurs_at(input@, pattern@, i as int)) by {
            if occurs_at(input@, pattern@, i as int) {
                let m = choose|m: int| 0 <= m < pat@.len() && text@[i + m] != pat@[m];
                assert(input@.subrange(i as int, i + pattern@.len())[m] == text@[i + m]);
            }
        }
        i = i + 1;
    }
    assert forall|k: int| !occurs_at(input@, pattern@, k) by {
        if 0 <= k && k + pattern@.len() <= input@.len() {
            assert(k < i);
        }
    }
    false
}

} // verus!
