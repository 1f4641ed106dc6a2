//! Small helpers for moving between `str`/`String` and `Vec<char>`, and for
//! ASCII case conversion. All library logic works over character sequences;
//! these helpers sit at that boundary.

use vstd::prelude::*;

verus! {

/// Relies on `String::push`: appends exactly the given character.
#[verifier::external_body]
pub(crate) fn push_char(s: &mut String, c: char)
    ensures
        final(s)@ == old(s)@.push(c),
{
    s.push(c);
}

/// Builds a `String` holding exactly the given characters.
pub(crate) fn string_of_chars(v: &Vec<char>) -> (s: String)
    ensures
        s@ == v@,
{
    let mut s = String::new();
    let mut i: usize = 0;
    while i < v.len()
        invariant
            i <= v.len(),
            s@ == v@.take(i as int),
        decreases v.len() - i,
    {
        push_char(&mut s, v[i]);
        i = i + 1;
        proof {
            assert(s@ =~= v@.take(i as int));
        }
    }
    proof {
        assert(v@.take(v@.len() as int) =~= v@);
    }
    s
}

/// A string holding a single character.
pub(crate) fn char_string(c: char) -> (s: String)
    ensures
        s@ == seq![c],
{
    let mut s = String::new();
    push_char(&mut s, c);
    proof {
        assert(s@ =~= seq![c]);
    }
    s
}

/// The characters of `v` between `from` (inclusive) and `to` (exclusive), as
/// a `String`.
pub(crate) fn string_of_range(v: &Vec<char>, from: usize, to: usize) -> (s: String)
    requires
        from <= to <= v@.len(),
    ensures
        s@ == v@.subrange(from as int, to as int),
{
    let mut s = String::new();
    let mut i = from;
    while i < to
        invariant
            from <= i <= to <= v@.len(),
            s@ == v@.subrange(from as int, i as int),
        decreases to - i,
    {
        push_char(&mut s, v[i]);
        i = i + 1;
        proof {
            assert(s@ =~= v@.subrange(from as int, i as int));
        }
    }
    s
}

/// Collects the characters of a string slice into a vector.
pub(crate) fn chars_of_str(s: &str) -> (v: Vec<char>)
    ensures
        v@ == s@,
{
    let n = s.unicode_len();
    let mut v: Vec<char> = Vec::new();
    let mut i: usize = 0;
    while i < n
        invariant
            n == s@.len(),
            i <= n,
            v@ == s@.take(i as int),
        decreases n - i,
    {
        v.push(s.get_char(i));
        i = i + 1;
        proof {
            assert(v@ =~= s@.take(i as int));
        }
    }
    proof {
        assert(s@.take(n as int) =~= s@);
    }
    v
}

/// Character-by-character string comparison.
pub(crate) fn str_eq(a: &str, b: &str) -> (r: bool)
    ensures
        r == (a@ == b@),
{
    let na = a.unicode_len();
    let nb = b.unicode_len();
    if na != nb {
        return false;
    }
    let mut i: usize = 0;
    while i < na
        invariant
            na == a@.len(),
            na == b@.len(),
            i <= na,
            forall|k: int| 0 <= k < i ==> a@[k] == b@[k],
        decreases na - i,
    {
        if a.get_char(i) != b.get_char(i) {
            return false;
        }
        i = i + 1;
    }
    proof {
        assert(a@ =~= b@);
    }
    true
}

/// ASCII upper-casing of a single character; anything outside `a..=z` is kept.
pub open spec fn spec_upper_char(c: char) -> char {
    if 'a' <= c && c <= 'z' {
        (((c as u32) - 32) as u8) as char
    } else {
        c
    }
}

/// ASCII upper-casing of a character sequence.
pub open spec fn spec_upper(s: Seq<char>) -> Seq<char> {
    s.map_values(|c: char| spec_upper_char(c))
}

pub open spec fn spec_digit_char(d: int) -> char {
    if d == 0 {
        '0'
    } else if d == 1 {
        '1'
    } else if d == 2 {
        '2'
    } else if d == 3 {
        '3'
    } else if d == 4 {
        '4'
    } else if d == 5 {
        '5'
    } else if d == 6 {
        '6'
    } else if d == 7 {
        '7'
    } else if d == 8 {
        '8'
    } else {
        '9'
    }
}

/// The decimal digits of a non-negative integer, most significant first.
pub open spec fn spec_decimal_digits(n: int) -> Seq<char>
    decreases n,
{
    if n <= 9 {
        seq![spec_digit_char(n)]
    } else {
        spec_decimal_digits(n / 10).push(spec_digit_char(n % 10))
    }
}

/// The usual decimal rendering of an integer: a minus sign for negative
/// values, then the digits of the magnitude.
pub open spec fn spec_decimal(n: int) -> Seq<char> {
    if n < 0 {
        seq!['-'] + spec_decimal_digits(-n)
    } else {
        spec_decimal_digits(n)
    }
}

fn digit_char(d: u128) -> (c: char)
    requires
        d <= 9,
    ensures
        c == spec_digit_char(d as int),
{
    if d == 0 {
        '0'
    } else if d == 1 {
        '1'
    } else if d == 2 {
        '2'
    } else if d == 3 {
        '3'
    } else if d == 4 {
        '4'
    } else if d == 5 {
        '5'
    } else if d == 6 {
        '6'
    } else if d == 7 {
        '7'
    } else if d == 8 {
        '8'
    } else {
        '9'
    }
}

/// The decimal digits of a non-negative value, as characters.
pub(crate) fn decimal_chars_u128(n: u128) -> (v: Vec<char>)
    ensures
        v@ == spec_decimal_digits(n as int),
{
    let mut v: Vec<char> = Vec::new();
    if n <= 9 {
        v.push(digit_char(n));
        proof {
            assert(v@ =~= spec_decimal_digits(n as int));
        }
        return v;
    }
    let mut m = n;
    while m > 0
        invariant
            spec_decimal_digits(n as int) == (if m > 0 {
                spec_decimal_digits(m as int)
            } else {
                Seq::<char>::empty()
            }) + v@,
        decreases m,
    {
        let ghost m0 = m as int;
        let d = m % 10;
        v.insert(0, digit_char(d));
        m = m / 10;
        proof {
            if m0 <= 9 {
                assert(spec_decimal_digits(m0) =~= seq![spec_digit_char(m0)]);
                assert(spec_decimal_digits(n as int) =~= Seq::<char>::empty() + v@);
            } else {
                assert(spec_decimal_digits(m0) == spec_decimal_digits(m0 / 10).push(
                    spec_digit_char(m0 % 10),
                ));
                assert(spec_decimal_digits(n as int) =~= spec_decimal_digits(m as int) + v@);
            }
        }
    }
    proof {
        assert(spec_decimal_digits(n as int) =~= v@);
    }
    v
}

/// The decimal rendering of a signed 64-bit value.
pub(crate) fn decimal_string_i64(n: i64) -> (s: String)
    ensures
        s@ == spec_decimal(n as int),
{
    if n < 0 {
        let mag = (-(n as i128)) as u128;
        let digits = decimal_chars_u128(mag);
        let mut v: Vec<char> = Vec::new();
        v.push('-');
        let mut i: usize = 0;
        while i < digits.len()
            invariant
                i <= digits.len(),
                digits@ == spec_decimal_digits(mag as int),
                v@ == seq!['-'] + digits@.take(i as int),
            decreases digits.len() - i,
        {
            v.push(digits[i]);
            i = i + 1;
            proof {
                assert(v@ =~= seq!['-'] + digits@.take(i as int));
            }
        }
        proof {
            assert(digits@.take(digits@.len() as int) =~= digits@);
            assert(v@ =~= spec_decimal(n as int));
        }
        string_of_chars(&v)
    } else {
        let digits = decimal_chars_u128(n as u128);
        string_of_chars(&digits)
    }
}

/// The decimal rendering of a signed 32-bit value.
pub(crate) fn decimal_string_i32(n: i32) -> (s: String)
    ensures
        s@ == spec_decimal(n as int),
{
    decimal_string_i64(n as i64)
}

/// The decimal rendering of an unsigned machine word.
pub(crate) fn decimal_string_usize(n: usize) -> (s: String)
    ensures
        s@ == spec_decimal(n as int),
{
    let digits = decimal_chars_u128(n as u128);
    string_of_chars(&digits)
}

/// `k` copies of one character.
pub open spec fn spec_repeat(c: char, k: int) -> Seq<char>
    decreases k,
{
    if k <= 0 {
        Seq::empty()
    } else {
        spec_repeat(c, k - 1).push(c)
    }
}

pub(crate) fn repeat_char(c: char, k: usize) -> (v: Vec<char>)
    ensures
        v@ == spec_repeat(c, k as int),
{
    let mut v: Vec<char> = Vec::new();
    let mut i: usize = 0;
    while i < k
        invariant
            i <= k,
            v@ == spec_repeat(c, i as int),
        decreases k - i,
    {
        v.push(c);
        i = i + 1;
    }
    v
}

pub(crate) fn upper_char(c: char) -> (r: char)
    ensures
        r == spec_upper_char(c),
{
    if 'a' <= c && c <= 'z' {
        (((c as u32) - 32) as u8) as char
    } else {
        c
    }
}

} // verus!
