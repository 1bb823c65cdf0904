//! Caesar cipher: shifts the letters of each line by a number of places.

use vstd::prelude::*;
use crate::text::{chars_of, string_from_chars};

verus! {

/// Shift used when the caller gives none.
pub const DEFAULT_SHIFT: i32 = 13;

/// Code point of uppercase A.
pub const UPPERCASE_A: i32 = 65;

/// Code point of lowercase a.
pub const LOWERCASE_A: i32 = 97;

/// Number of letters in the alphabet.
pub const ALPHABET_SIZE: i32 = 26;

/// A character moved `k` places along the alphabet (wrapping around),
/// when it is an ASCII letter; any other character is left as it is.
pub open spec fn shift_char(c: char, k: int) -> char {
    if 'A' <= c <= 'Z' {
        ((c as int - 65 + k) % 26 + 65) as char
    } else if 'a' <= c <= 'z' {
        ((c as int - 97 + k) % 26 + 97) as char
    } else {
        c
    }
}

/// Every character of `s` shifted by `k`.
pub open spec fn shift_text(s: Seq<char>, k: int) -> Seq<char> {
    s.map_values(|c: char| shift_char(c, k))
}

/// The shift that `caesar_shift` applies for an optional argument.
pub open spec fn effective_shift(shift_by: Option<i32>) -> int {
    match shift_by {
        Some(k) => k as int,
        None => DEFAULT_SHIFT as int,
    }
}

/// Applies a Caesar shift cipher to each line. Without a shift, the shift is 13.
pub fn caesar_shift(shift_by: Option<i32>, lines: Vec<String>) -> (r: Vec<String>)
    ensures
        r.len() == lines.len(),
        forall|i: int|
            0 <= i < lines.len() ==> #[trigger] r[i]@ == shift_text(
                lines[i]@,
                effective_shift(shift_by),
            ),
{
    let shift_number = match shift_by {
        Some(k) => k,
        None => DEFAULT_SHIFT,
    };
    let mut result: Vec<String> = Vec::new();
    let mut i: usize = 0;
    while i < lines.len()
        invariant
            i <= lines.len(),
            shift_number as int == effective_shift(shift_by),
            result.len() == i,
            forall|j: int|
                0 <= j < i ==> #[trigger] result[j]@ == shift_text(lines[j]@, shift_number as int),
        decreases lines.len() - i,
    {
        let line = lines[i].clone();
        result.push(shift(shift_number, line));
        i = i + 1;
    }
    result
}

/// Shifts every ASCII letter of `line` by `shift_by` places.
pub fn shift(shift_by: i32, line: String) -> (r: String)
    ensures
        r@ == shift_text(line@, shift_by as int),
{
    let mut result: Vec<char> = Vec::new();
    // a positive shift, congruent to `shift_by`, between 1 and 51
    let shift_by_pos = shift_by % ALPHABET_SIZE + ALPHABET_SIZE;
    assert((shift_by_pos - shift_by) % 26 == 0);
    let chars = chars_of(line.as_str());
    let mut i: usize = 0;
    while i < chars.len()
        invariant
            chars@ == line@,
            i <= chars.len(),
            1 <= shift_by_pos <= 51,
            (shift_by_pos - shift_by) % 26 == 0,
            result@ == shift_text(line@, shift_by as int).subrange(0, i as int),
        decreases chars.len() - i,
    {
        let c = chars[i];
        let ascii = c as i32;
        if 'A' <= c && c <= 'Z' {
            let m = abs_modulo((ascii - UPPERCASE_A) + shift_by_pos, ALPHABET_SIZE);
            proof { lemma_same_residue(ascii - 65, shift_by_pos as int, shift_by as int); }
            result.push(to_ascii(m + UPPERCASE_A));
        } else if 'a' <= c && c <= 'z' {
            let m = abs_modulo((ascii - LOWERCASE_A) + shift_by_pos, ALPHABET_SIZE);
            proof { lemma_same_residue(ascii - 97, shift_by_pos as int, shift_by as int); }
            result.push(to_ascii(m + LOWERCASE_A));
        } else {
            result.push(c);
        }
        assert(result@ =~= shift_text(line@, shift_by as int).subrange(0, i + 1));
        i = i + 1;
    }
    assert(shift_text(line@, shift_by as int).subrange(0, chars.len() as int) =~= shift_text(
        line@,
        shift_by as int,
    ));
    string_from_chars(&result)
}

/// Two shifts that differ by a multiple of 26 move a letter to the same place.
proof fn lemma_same_residue(x: int, a: int, b: int)
    requires
        (a - b) % 26 == 0,
    ensures
        (x + a) % 26 == (x + b) % 26,
{
    assert((x + a) % 26 == (x + b) % 26) by (nonlinear_arith)
        requires
            (a - b) % 26 == 0,
    {
        vstd::arithmetic::div_mod::lemma_fundamental_div_mod(a - b, 26);
        vstd::arithmetic::div_mod::lemma_mod_add_multiples_vanish(x + b, 26);
    }
}

/// The absolute value of the remainder of `a` divided by `b` (the remainder
/// taking the sign of `a`, as Rust's `%` does).
pub fn abs_modulo(a: i32, b: i32) -> (r: i32)
    requires
        b != 0,
        !(a == i32::MIN && b == -1),
    ensures
        r == vstd::math::abs(a as int) % vstd::math::abs(b as int),
{
    // |a % b| == |a| % |b|, computed on the magnitudes
    let ua: u32 = if a < 0 { (-(a as i64)) as u32 } else { a as u32 };
    let ub: u32 = if b < 0 { (-(b as i64)) as u32 } else { b as u32 };
    (ua % ub) as i32
}

/// The character with code point `i`.
pub fn to_ascii(i: i32) -> (c: char)
    requires
        0 <= i < 128,
    ensures
        c as int == i as int,
{
    (i as u8) as char
}

proof fn lemma_shift_char_compose(c: char, a: int, b: int)
    ensures
        shift_char(shift_char(c, a), b) == shift_char(c, a + b),
{
    if 'A' <= c <= 'Z' {
        let x = c as int - 65;
        let m = (x + a) % 26;
        assert(0 <= m < 26);
        assert(shift_char(c, a) as int == m + 65);
        assert((m + b) % 26 == (x + a + b) % 26) by {
            vstd::arithmetic::div_mod::lemma_add_mod_noop(x + a, b, 26);
            vstd::arithmetic::div_mod::lemma_add_mod_noop(m, b, 26);
            vstd::arithmetic::div_mod::lemma_mod_twice(x + a, 26);
        }
    } else if 'a' <= c <= 'z' {
        let x = c as int - 97;
        let m = (x + a) % 26;
        assert(0 <= m < 26);
        assert(shift_char(c, a) as int == m + 97);
        assert((m + b) % 26 == (x + a + b) % 26) by {
            vstd::arithmetic::div_mod::lemma_add_mod_noop(x + a, b, 26);
            vstd::arithmetic::div_mod::lemma_add_mod_noop(m, b, 26);
            vstd::arithmetic::div_mod::lemma_mod_twice(x + a, 26);
        }
    }
}

/// Shifting by `a` and then by `b` is shifting by `a + b`.
pub proof fn lemma_shift_compose(s: Seq<char>, a: int, b: int)
    ensures
        shift_text(shift_text(s, a), b) == shift_text(s, a + b),
{
    assert forall|i: int| 0 <= i < s.len() implies shift_text(shift_text(s, a), b)[i] == shift_text(s, a + b)[i] by {
        lemma_shift_char_compose(s[i], a, b);
    }
    assert(shift_text(shift_text(s, a), b) =~= shift_text(s, a + b));
}

/// A shift by a multiple of 26 leaves the text as it is.
pub proof fn lemma_shift_full_turn(s: Seq<char>, n: int)
    ensures
        shift_text(s, 26 * n) == s,
{
    assert forall|i: int| 0 <= i < s.len() implies shift_text(s, 26 * n)[i] == s[i] by {
        let c = s[i];
        if 'A' <= c <= 'Z' {
            vstd::arithmetic::div_mod::lemma_mod_multiples_vanish(n, c as int - 65, 26);
            vstd::arithmetic::div_mod::lemma_small_mod((c as int - 65) as nat, 26);
            assert((c as int - 65 + 26 * n) % 26 == c as int - 65) by (nonlinear_arith)
                requires
                    (26 * n + (c as int - 65)) % 26 == (c as int - 65) % 26,
                    (c as int - 65) % 26 == c as int - 65;
        } else if 'a' <= c <= 'z' {
            vstd::arithmetic::div_mod::lemma_mod_multiples_vanish(n, c as int - 97, 26);
            vstd::arithmetic::div_mod::lemma_small_mod((c as int - 97) as nat, 26);
            assert((c as int - 97 + 26 * n) % 26 == c as int - 97) by (nonlinear_arith)
                requires
                    (26 * n + (c as int - 97)) % 26 == (c as int - 97) % 26,
                    (c as int - 97) % 26 == c as int - 97;
        }
    }
    assert(shift_text(s, 26 * n) =~= s);
}

/// Shifting back by the same amount restores the text: the cipher can be undone.
pub proof fn lemma_shift_round_trip(s: Seq<char>, k: int)
    ensures
        shift_text(shift_text(s, k), -k) == s,
{
    lemma_shift_compose(s, k, -k);
    lemma_shift_full_turn(s, 0);
}

} // verus!
