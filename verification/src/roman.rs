//! Strict bidirectional Roman-numeral codec.
//!
//! `to_roman` produces the unique canonical encoding of an integer in
//! `1..=3999` by the greedy descending-table algorithm. `from_roman` scans a
//! string right-to-left, enforcing repetition and subtractive-pair rules, and
//! finally re-encodes the computed total, rejecting anything that is not the
//! canonical form of its own value.

use vstd::prelude::*;

use crate::text::{push_char, spec_upper, spec_upper_char, string_of_chars, upper_char};

verus! {

/// The base value of a Roman symbol; 0 for any other character.
pub open spec fn roman_char_value(c: char) -> int {
    if c == 'I' {
        1
    } else if c == 'V' {
        5
    } else if c == 'X' {
        10
    } else if c == 'L' {
        50
    } else if c == 'C' {
        100
    } else if c == 'D' {
        500
    } else if c == 'M' {
        1000
    } else {
        0
    }
}

pub open spec fn is_roman_char(c: char) -> bool {
    roman_char_value(c) != 0
}

/// The six permitted subtractive pairs: I before V or X, X before L or C,
/// C before D or M.
pub open spec fn valid_subtractive_pair(small: int, large: int) -> bool {
    (small == 1 && (large == 5 || large == 10)) || (small == 10 && (large == 50 || large == 100))
        || (small == 100 && (large == 500 || large == 1000))
}

/// The canonical Roman encoding of `n`, by greedy descent over the thirteen
/// (value, symbol) pairs; empty for `n <= 0`.
pub open spec fn spec_to_roman(n: int) -> Seq<char>
    decreases n,
{
    if n >= 1000 {
        seq!['M'] + spec_to_roman(n - 1000)
    } else if n >= 900 {
        seq!['C', 'M'] + spec_to_roman(n - 900)
    } else if n >= 500 {
        seq!['D'] + spec_to_roman(n - 500)
    } else if n >= 400 {
        seq!['C', 'D'] + spec_to_roman(n - 400)
    } else if n >= 100 {
        seq!['C'] + spec_to_roman(n - 100)
    } else if n >= 90 {
        seq!['X', 'C'] + spec_to_roman(n - 90)
    } else if n >= 50 {
        seq!['L'] + spec_to_roman(n - 50)
    } else if n >= 40 {
        seq!['X', 'L'] + spec_to_roman(n - 40)
    } else if n >= 10 {
        seq!['X'] + spec_to_roman(n - 10)
    } else if n >= 9 {
        seq!['I', 'X'] + spec_to_roman(n - 9)
    } else if n >= 5 {
        seq!['V'] + spec_to_roman(n - 5)
    } else if n >= 4 {
        seq!['I', 'V'] + spec_to_roman(n - 4)
    } else if n >= 1 {
        seq!['I'] + spec_to_roman(n - 1)
    } else {
        Seq::empty()
    }
}

/// An error raised while scanning the characters of a numeral, before the
/// final canonical-form check.
pub enum ScanError {
    InvalidChar(char),
    InvalidRep(char),
    TooManyRep(char),
    BadSubtractive,
}

/// One right-to-left scanning step. The state is (total so far, value of the
/// previously scanned character or 0 at the start, current consecutive-run
/// length).
pub open spec fn spec_scan_step(st: (int, int, int), c: char) -> Result<(int, int, int), ScanError> {
    let v = roman_char_value(c);
    if v == 0 {
        Err(ScanError::InvalidChar(c))
    } else {
        let count = if v == st.1 {
            st.2 + 1
        } else {
            1
        };
        if v == st.1 && (c == 'V' || c == 'L' || c == 'D') {
            Err(ScanError::InvalidRep(c))
        } else if v == st.1 && count > 3 {
            Err(ScanError::TooManyRep(c))
        } else if v < st.1 {
            if valid_subtractive_pair(v, st.1) {
                Ok((st.0 - v, v, count))
            } else {
                Err(ScanError::BadSubtractive)
            }
        } else {
            Ok((st.0 + v, v, count))
        }
    }
}

/// The right-to-left scan of a whole numeral: the character at index
/// `len - 1` is processed first, the character at index 0 last.
pub open spec fn spec_scan(s: Seq<char>) -> Result<(int, int, int), ScanError>
    decreases s.len(),
{
    if s.len() == 0 {
        Ok((0, 0, 1))
    } else {
        match spec_scan(s.drop_first()) {
            Err(e) => Err(e),
            Ok(st) => spec_scan_step(st, s[0]),
        }
    }
}

/// Mathematical model of a `RomanError`.
pub enum SpecRomanError {
    NegativeOrZero(int),
    Overflow(int),
    Empty,
    InvalidCharacter(char),
    InvalidRepetition(char),
    TooManyRepetitions(char),
    InvalidSubtractive(Seq<char>),
    NonCanonical(Seq<char>, Seq<char>),
}

/// What `from_roman` returns, as a function of the input characters: scan the
/// upper-cased input, then accept the total only if re-encoding it reproduces
/// the input exactly.
pub open spec fn spec_from_roman(s: Seq<char>) -> Result<int, SpecRomanError> {
    if s.len() == 0 {
        Err(SpecRomanError::Empty)
    } else {
        let u = spec_upper(s);
        match spec_scan(u) {
            Err(ScanError::InvalidChar(c)) => Err(SpecRomanError::InvalidCharacter(c)),
            Err(ScanError::InvalidRep(c)) => Err(SpecRomanError::InvalidRepetition(c)),
            Err(ScanError::TooManyRep(c)) => Err(SpecRomanError::TooManyRepetitions(c)),
            Err(ScanError::BadSubtractive) => Err(SpecRomanError::InvalidSubtractive(u)),
            Ok(st) => {
                let total = st.0;
                if 1 <= total && total <= 3999 {
                    if spec_to_roman(total) == u {
                        Ok(total)
                    } else {
                        Err(SpecRomanError::NonCanonical(u, spec_to_roman(total)))
                    }
                } else {
                    Err(SpecRomanError::NonCanonical(u, Seq::empty()))
                }
            },
        }
    }
}

#[derive(Debug, Clone, PartialEq)]
pub enum RomanError {
    NegativeOrZero(i32),
    Overflow(i32),
    Empty,
    InvalidCharacter(char),
    InvalidRepetition(char),
    TooManyRepetitions(char),
    InvalidSubtractive(String),
    NonCanonical(String, String),
}

impl View for RomanError {
    type V = SpecRomanError;

    open spec fn view(&self) -> SpecRomanError {
        match self {
            RomanError::NegativeOrZero(n) => SpecRomanError::NegativeOrZero(*n as int),
            RomanError::Overflow(n) => SpecRomanError::Overflow(*n as int),
            RomanError::Empty => SpecRomanError::Empty,
            RomanError::InvalidCharacter(c) => SpecRomanError::InvalidCharacter(*c),
            RomanError::InvalidRepetition(c) => SpecRomanError::InvalidRepetition(*c),
            RomanError::TooManyRepetitions(c) => SpecRomanError::TooManyRepetitions(*c),
            RomanError::InvalidSubtractive(s) => SpecRomanError::InvalidSubtractive(s@),
            RomanError::NonCanonical(got, expected) => SpecRomanError::NonCanonical(
                got@,
                expected@,
            ),
        }
    }
}

/// The model of an exec conversion result.
pub open spec fn roman_result_view(r: Result<i32, RomanError>) -> Result<int, SpecRomanError> {
    match r {
        Ok(n) => Ok(n as int),
        Err(e) => Err(e@),
    }
}

/// Convert an integer in `1..=3999` to its canonical Roman numeral string.
pub fn to_roman(n: i32) -> (r: Result<String, RomanError>)
    ensures
        1 <= n <= 3999 ==> (r matches Ok(s) && s@ == spec_to_roman(n as int)),
        n <= 0 ==> r == Err::<String, RomanError>(RomanError::NegativeOrZero(n)),
        n > 3999 ==> r == Err::<String, RomanError>(RomanError::Overflow(n)),
{
    if n <= 0 {
        return Err(RomanError::NegativeOrZero(n));
    }
    if n > 3999 {
        return Err(RomanError::Overflow(n));
    }
    let mut rem = n;
    let mut out = String::new();
    while rem > 0
        invariant
            0 <= rem <= n <= 3999,
            spec_to_roman(n as int) == out@ + spec_to_roman(rem as int),
        decreases rem,
    {
        if rem >= 1000 {
            push_char(&mut out, 'M');
            rem = rem - 1000;
            proof {
                assert(out@ + spec_to_roman(rem as int) =~= spec_to_roman(n as int));
            }
        } else if rem >= 900 {
            push_char(&mut out, 'C');
            push_char(&mut out, 'M');
            rem = rem - 900;
            proof {
                assert(out@ + spec_to_roman(rem as int) =~= spec_to_roman(n as int));
            }
        } else if rem >= 500 {
            push_char(&mut out, 'D');
            rem = rem - 500;
            proof {
                assert(out@ + spec_to_roman(rem as int) =~= spec_to_roman(n as int));
            }
        } else if rem >= 400 {
            push_char(&mut out, 'C');
            push_char(&mut out, 'D');
            rem = rem - 400;
            proof {
                assert(out@ + spec_to_roman(rem as int) =~= spec_to_roman(n as int));
            }
        } else if rem >= 100 {
            push_char(&mut out, 'C');
            rem = rem - 100;
            proof {
                assert(out@ + spec_to_roman(rem as int) =~= spec_to_roman(n as int));
            }
        } else if rem >= 90 {
            push_char(&mut out, 'X');
            push_char(&mut out, 'C');
            rem = rem - 90;
            proof {
                assert(out@ + spec_to_roman(rem as int) =~= spec_to_roman(n as int));
            }
        } else if rem >= 50 {
            push_char(&mut out, 'L');
            rem = rem - 50;
            proof {
                assert(out@ + spec_to_roman(rem as int) =~= spec_to_roman(n as int));
            }
        } else if rem >= 40 {
            push_char(&mut out, 'X');
            push_char(&mut out, 'L');
            rem = rem - 40;
            proof {
                assert(out@ + spec_to_roman(rem as int) =~= spec_to_roman(n as int));
            }
        } else if rem >= 10 {
            push_char(&mut out, 'X');
            rem = rem - 10;
            proof {
                assert(out@ + spec_to_roman(rem as int) =~= spec_to_roman(n as int));
            }
        } else if rem >= 9 {
            push_char(&mut out, 'I');
            push_char(&mut out, 'X');
            rem = rem - 9;
            proof {
                assert(out@ + spec_to_roman(rem as int) =~= spec_to_roman(n as int));
            }
        } else if rem >= 5 {
            push_char(&mut out, 'V');
            rem = rem - 5;
            proof {
                assert(out@ + spec_to_roman(rem as int) =~= spec_to_roman(n as int));
            }
        } else if rem >= 4 {
            push_char(&mut out, 'I');
            push_char(&mut out, 'V');
            rem = rem - 4;
            proof {
                assert(out@ + spec_to_roman(rem as int) =~= spec_to_roman(n as int));
            }
        } else {
            push_char(&mut out, 'I');
            rem = rem - 1;
            proof {
                assert(out@ + spec_to_roman(rem as int) =~= spec_to_roman(n as int));
            }
        }
    }
    proof {
        assert(out@ =~= out@ + spec_to_roman(0));
    }
    Ok(out)
}

/// The base value of a Roman symbol as an executable lookup; 0 when the
/// character is not a Roman symbol.
fn roman_value(c: char) -> (v: u16)
    ensures
        v as int == roman_char_value(c),
{
    if c == 'I' {
        1
    } else if c == 'V' {
        5
    } else if c == 'X' {
        10
    } else if c == 'L' {
        50
    } else if c == 'C' {
        100
    } else if c == 'D' {
        500
    } else if c == 'M' {
        1000
    } else {
        0
    }
}

proof fn lemma_scan_suffix_unfold(s: Seq<char>, j: int)
    requires
        0 <= j < s.len(),
    ensures
        spec_scan(s.skip(j)) == (match spec_scan(s.skip(j + 1)) {
            Err(e) => Err::<(int, int, int), ScanError>(e),
            Ok(st) => spec_scan_step(st, s[j]),
        }),
{
    assert(s.skip(j).len() > 0);
    assert(s.skip(j).drop_first() =~= s.skip(j + 1));
    assert(s.skip(j)[0] == s[j]);
}

proof fn lemma_scan_err_extends(s: Seq<char>, i: int, j: int, e: ScanError)
    requires
        0 <= i <= j <= s.len(),
        spec_scan(s.skip(j)) == Err::<(int, int, int), ScanError>(e),
    ensures
        spec_scan(s.skip(i)) == Err::<(int, int, int), ScanError>(e),
    decreases j - i,
{
    if i < j {
        lemma_scan_suffix_unfold(s, j - 1);
        lemma_scan_err_extends(s, i, j - 1, e);
    }
}

/// Convert a Roman numeral string (case-insensitive for ASCII letters) to its
/// integer value, rejecting every string that is not the canonical encoding
/// of a value in `1..=3999`.
pub fn from_roman(s: &str) -> (r: Result<i32, RomanError>)
    ensures
        roman_result_view(r) == spec_from_roman(s@),
        r matches Ok(n) ==> 1 <= n <= 3999 && spec_upper(s@) == spec_to_roman(n as int),
{
    let n = s.unicode_len();
    if n == 0 {
        return Err(RomanError::Empty);
    }
    // Upper-case the input.
    let mut up: Vec<char> = Vec::new();
    let mut i: usize = 0;
    while i < n
        invariant
            n == s@.len(),
            i <= n,
            up@ == spec_upper(s@).take(i as int),
        decreases n - i,
    {
        up.push(upper_char(s.get_char(i)));
        i = i + 1;
        proof {
            assert(up@ =~= spec_upper(s@).take(i as int));
        }
    }
    proof {
        assert(up@ =~= spec_upper(s@));
    }

    // Scan right-to-left.
    let ghost u = up@;
    let mut total: i128 = 0;
    let mut prev: u16 = 0;
    let mut count: u8 = 1;
    let mut j: usize = n;
    while j > 0
        invariant
            n == u.len(),
            n == s@.len(),
            n > 0,
            u == spec_upper(s@),
            up@ == u,
            j <= n,
            spec_scan(u.skip(j as int)) == Ok::<(int, int, int), ScanError>(
                (total as int, prev as int, count as int),
            ),
            -1000 * (n - j) <= total <= 1000 * (n - j),
            1 <= count <= 3,
        decreases j,
    {
        j = j - 1;
        let c = up[j];
        let v = roman_value(c);
        proof {
            lemma_scan_suffix_unfold(u, j as int);
        }
        if v == 0 {
            proof {
                lemma_scan_err_extends(u, 0, j as int, ScanError::InvalidChar(c));
                assert(u.skip(0) =~= u);
            }
            return Err(RomanError::InvalidCharacter(c));
        }
        if v == prev {
            if c == 'V' || c == 'L' || c == 'D' {
                proof {
                    lemma_scan_err_extends(u, 0, j as int, ScanError::InvalidRep(c));
                    assert(u.skip(0) =~= u);
                }
                return Err(RomanError::InvalidRepetition(c));
            }
            if count + 1 > 3 {
                proof {
                    lemma_scan_err_extends(u, 0, j as int, ScanError::TooManyRep(c));
                    assert(u.skip(0) =~= u);
                }
                return Err(RomanError::TooManyRepetitions(c));
            }
            count = count + 1;
        } else {
            count = 1;
        }
        if v < prev {
            let ok_pair = (v == 1 && (prev == 5 || prev == 10)) || (v == 10 && (prev == 50
                || prev == 100)) || (v == 100 && (prev == 500 || prev == 1000));
            if !ok_pair {
                proof {
                    lemma_scan_err_extends(u, 0, j as int, ScanError::BadSubtractive);
                    assert(u.skip(0) =~= u);
                }
                return Err(RomanError::InvalidSubtractive(string_of_chars(&up)));
            }
            total = total - v as i128;
        } else {
            total = total + v as i128;
        }
        prev = v;
    }
    proof {
        assert(u.skip(0) =~= u);
    }

    // Canonical-form check: the total must re-encode to the input exactly.
    if total < 1 || total > 3999 {
        return Err(RomanError::NonCanonical(string_of_chars(&up), String::new()));
    }
    let t = total as i32;
    match to_roman(t) {
        Ok(re) => {
            let us = string_of_chars(&up);
            if re == us {
                Ok(t)
            } else {
                Err(RomanError::NonCanonical(us, re))
            }
        },
        Err(_) => {
            proof {
                assert(false);
            }
            Err(RomanError::Empty)
        },
    }
}

// ---------------------------------------------------------------------------
// Round-trip: scanning a canonical encoding recovers exactly the encoded value.
// ---------------------------------------------------------------------------

/// The base value of the first character of `spec_to_roman(n)`.
spec fn spec_first_val(n: int) -> int {
    if n >= 1000 {
        1000
    } else if n >= 900 {
        100
    } else if n >= 500 {
        500
    } else if n >= 400 {
        100
    } else if n >= 100 {
        100
    } else if n >= 90 {
        10
    } else if n >= 50 {
        50
    } else if n >= 40 {
        10
    } else if n >= 10 {
        10
    } else if n >= 9 {
        1
    } else if n >= 5 {
        5
    } else if n >= 4 {
        1
    } else if n >= 1 {
        1
    } else {
        0
    }
}

/// The length of the leading run of equal characters in `spec_to_roman(n)`.
spec fn spec_lead_count(n: int) -> int {
    if n >= 1000 {
        if n >= 3000 {
            3
        } else if n >= 2000 {
            2
        } else {
            1
        }
    } else if n >= 400 {
        1
    } else if n >= 100 {
        if n >= 300 {
            3
        } else if n >= 200 {
            2
        } else {
            1
        }
    } else if n >= 40 {
        1
    } else if n >= 10 {
        if n >= 30 {
            3
        } else if n >= 20 {
            2
        } else {
            1
        }
    } else if n >= 4 {
        1
    } else if n >= 1 {
        n
    } else {
        0
    }
}

proof fn lemma_scan_one(ch: char, rest: Seq<char>, st: (int, int, int))
    requires
        spec_scan(rest) == Ok::<(int, int, int), ScanError>(st),
    ensures
        spec_scan(seq![ch] + rest) == spec_scan_step(st, ch),
{
    let s = seq![ch] + rest;
    assert(s.len() > 0);
    assert(s.drop_first() =~= rest);
    assert(s[0] == ch);
}

proof fn lemma_scan_two(ch1: char, ch2: char, rest: Seq<char>, st: (int, int, int))
    requires
        spec_scan(rest) == Ok::<(int, int, int), ScanError>(st),
    ensures
        spec_scan(seq![ch1, ch2] + rest) == (match spec_scan_step(st, ch2) {
            Ok(st2) => spec_scan_step(st2, ch1),
            Err(e) => Err(e),
        }),
{
    let s = seq![ch1, ch2] + rest;
    let s2 = seq![ch2] + rest;
    lemma_scan_one(ch2, rest, st);
    assert(s.len() > 0);
    assert(s.drop_first() =~= s2);
    assert(s[0] == ch1);
}

/// Scanning the canonical encoding of `n` succeeds, computes exactly `n`, and
/// leaves the scanner in the state described by the two helpers above.
proof fn lemma_scan_to_roman(n: int)
    requires
        1 <= n <= 3999,
    ensures
        spec_scan(spec_to_roman(n)) == Ok::<(int, int, int), ScanError>(
            (n, spec_first_val(n), spec_lead_count(n)),
        ),
    decreases n,
{
    let init: (int, int, int) = (0, 0, 1);
    if n >= 1000 {
        let n2 = n - 1000;
        let rest = spec_to_roman(n2);
        if n2 == 0 {
            lemma_scan_one('M', rest, init);
        } else {
            lemma_scan_to_roman(n2);
            lemma_scan_one('M', rest, (n2, spec_first_val(n2), spec_lead_count(n2)));
        }
    } else if n >= 900 {
        let n2 = n - 900;
        let rest = spec_to_roman(n2);
        if n2 == 0 {
            lemma_scan_two('C', 'M', rest, init);
        } else {
            lemma_scan_to_roman(n2);
            lemma_scan_two('C', 'M', rest, (n2, spec_first_val(n2), spec_lead_count(n2)));
        }
    } else if n >= 500 {
        let n2 = n - 500;
        let rest = spec_to_roman(n2);
        if n2 == 0 {
            lemma_scan_one('D', rest, init);
        } else {
            lemma_scan_to_roman(n2);
            lemma_scan_one('D', rest, (n2, spec_first_val(n2), spec_lead_count(n2)));
        }
    } else if n >= 400 {
        let n2 = n - 400;
        let rest = spec_to_roman(n2);
        if n2 == 0 {
            lemma_scan_two('C', 'D', rest, init);
        } else {
            lemma_scan_to_roman(n2);
            lemma_scan_two('C', 'D', rest, (n2, spec_first_val(n2), spec_lead_count(n2)));
        }
    } else if n >= 100 {
        let n2 = n - 100;
        let rest = spec_to_roman(n2);
        if n2 == 0 {
            lemma_scan_one('C', rest, init);
        } else {
            lemma_scan_to_roman(n2);
            lemma_scan_one('C', rest, (n2, spec_first_val(n2), spec_lead_count(n2)));
        }
    } else if n >= 90 {
        let n2 = n - 90;
        let rest = spec_to_roman(n2);
        if n2 == 0 {
            lemma_scan_two('X', 'C', rest, init);
        } else {
            lemma_scan_to_roman(n2);
            lemma_scan_two('X', 'C', rest, (n2, spec_first_val(n2), spec_lead_count(n2)));
        }
    } else if n >= 50 {
        let n2 = n - 50;
        let rest = spec_to_roman(n2);
        if n2 == 0 {
            lemma_scan_one('L', rest, init);
        } else {
            lemma_scan_to_roman(n2);
            lemma_scan_one('L', rest, (n2, spec_first_val(n2), spec_lead_count(n2)));
        }
    } else if n >= 40 {
        let n2 = n - 40;
        let rest = spec_to_roman(n2);
        if n2 == 0 {
            lemma_scan_two('X', 'L', rest, init);
        } else {
            lemma_scan_to_roman(n2);
            lemma_scan_two('X', 'L', rest, (n2, spec_first_val(n2), spec_lead_count(n2)));
        }
    } else if n >= 10 {
        let n2 = n - 10;
        let rest = spec_to_roman(n2);
        if n2 == 0 {
            lemma_scan_one('X', rest, init);
        } else {
            lemma_scan_to_roman(n2);
            lemma_scan_one('X', rest, (n2, spec_first_val(n2), spec_lead_count(n2)));
        }
    } else if n >= 9 {
        let rest = spec_to_roman(0);
        lemma_scan_two('I', 'X', rest, init);
    } else if n >= 5 {
        let n2 = n - 5;
        let rest = spec_to_roman(n2);
        if n2 == 0 {
            lemma_scan_one('V', rest, init);
        } else {
            lemma_scan_to_roman(n2);
            lemma_scan_one('V', rest, (n2, spec_first_val(n2), spec_lead_count(n2)));
        }
    } else if n >= 4 {
        let rest = spec_to_roman(0);
        lemma_scan_two('I', 'V', rest, init);
    } else {
        let n2 = n - 1;
        let rest = spec_to_roman(n2);
        if n2 == 0 {
            lemma_scan_one('I', rest, init);
        } else {
            lemma_scan_to_roman(n2);
            lemma_scan_one('I', rest, (n2, spec_first_val(n2), spec_lead_count(n2)));
        }
    }
}

proof fn lemma_roman_concat(a: Seq<char>, b: Seq<char>)
    requires
        forall|i: int| 0 <= i < a.len() ==> #[trigger] is_roman_char(a[i]),
        forall|i: int| 0 <= i < b.len() ==> #[trigger] is_roman_char(b[i]),
    ensures
        forall|i: int| 0 <= i < (a + b).len() ==> #[trigger] is_roman_char((a + b)[i]),
{
    assert forall|i: int| 0 <= i < (a + b).len() implies #[trigger] is_roman_char((a + b)[i]) by {
        if i < a.len() {
            assert((a + b)[i] == a[i]);
        } else {
            assert((a + b)[i] == b[i - a.len()]);
        }
    }
}

proof fn lemma_roman_prefix1(a: Seq<char>, c: char)
    requires
        a == seq![c],
        is_roman_char(c),
    ensures
        forall|i: int| 0 <= i < a.len() ==> #[trigger] is_roman_char(a[i]),
{
    assert forall|i: int| 0 <= i < a.len() implies #[trigger] is_roman_char(a[i]) by {
        assert(a[i] == c);
    }
}

proof fn lemma_roman_prefix2(a: Seq<char>, c1: char, c2: char)
    requires
        a == seq![c1, c2],
        is_roman_char(c1),
        is_roman_char(c2),
    ensures
        forall|i: int| 0 <= i < a.len() ==> #[trigger] is_roman_char(a[i]),
{
    assert forall|i: int| 0 <= i < a.len() implies #[trigger] is_roman_char(a[i]) by {
        if i == 0 {
            assert(a[i] == c1);
        } else {
            assert(a[i] == c2);
        }
    }
}

/// Every character of a canonical encoding is one of the seven Roman symbols.
pub proof fn lemma_to_roman_chars(n: int)
    ensures
        forall|i: int|
            0 <= i < spec_to_roman(n).len() ==> #[trigger] is_roman_char(spec_to_roman(n)[i]),
    decreases n,
{
    if n >= 1 {
        if n >= 1000 {
            lemma_to_roman_chars(n - 1000);
            lemma_roman_prefix1(seq!['M'], 'M');
            lemma_roman_concat(seq!['M'], spec_to_roman(n - 1000));
        } else if n >= 900 {
            lemma_to_roman_chars(n - 900);
            lemma_roman_prefix2(seq!['C', 'M'], 'C', 'M');
            lemma_roman_concat(seq!['C', 'M'], spec_to_roman(n - 900));
        } else if n >= 500 {
            lemma_to_roman_chars(n - 500);
            lemma_roman_prefix1(seq!['D'], 'D');
            lemma_roman_concat(seq!['D'], spec_to_roman(n - 500));
        } else if n >= 400 {
            lemma_to_roman_chars(n - 400);
            lemma_roman_prefix2(seq!['C', 'D'], 'C', 'D');
            lemma_roman_concat(seq!['C', 'D'], spec_to_roman(n - 400));
        } else if n >= 100 {
            lemma_to_roman_chars(n - 100);
            lemma_roman_prefix1(seq!['C'], 'C');
            lemma_roman_concat(seq!['C'], spec_to_roman(n - 100));
        } else if n >= 90 {
            lemma_to_roman_chars(n - 90);
            lemma_roman_prefix2(seq!['X', 'C'], 'X', 'C');
            lemma_roman_concat(seq!['X', 'C'], spec_to_roman(n - 90));
        } else if n >= 50 {
            lemma_to_roman_chars(n - 50);
            lemma_roman_prefix1(seq!['L'], 'L');
            lemma_roman_concat(seq!['L'], spec_to_roman(n - 50));
        } else if n >= 40 {
            lemma_to_roman_chars(n - 40);
            lemma_roman_prefix2(seq!['X', 'L'], 'X', 'L');
            lemma_roman_concat(seq!['X', 'L'], spec_to_roman(n - 40));
        } else if n >= 10 {
            lemma_to_roman_chars(n - 10);
            lemma_roman_prefix1(seq!['X'], 'X');
            lemma_roman_concat(seq!['X'], spec_to_roman(n - 10));
        } else if n >= 9 {
            lemma_to_roman_chars(n - 9);
            lemma_roman_prefix2(seq!['I', 'X'], 'I', 'X');
            lemma_roman_concat(seq!['I', 'X'], spec_to_roman(n - 9));
        } else if n >= 5 {
            lemma_to_roman_chars(n - 5);
            lemma_roman_prefix1(seq!['V'], 'V');
            lemma_roman_concat(seq!['V'], spec_to_roman(n - 5));
        } else if n >= 4 {
            lemma_to_roman_chars(n - 4);
            lemma_roman_prefix2(seq!['I', 'V'], 'I', 'V');
            lemma_roman_concat(seq!['I', 'V'], spec_to_roman(n - 4));
        } else {
            lemma_to_roman_chars(n - 1);
            lemma_roman_prefix1(seq!['I'], 'I');
            lemma_roman_concat(seq!['I'], spec_to_roman(n - 1));
        }
    }
}

/// Upper-casing fixes a sequence made of Roman symbols.
proof fn lemma_upper_fixes_roman(s: Seq<char>)
    requires
        forall|i: int| 0 <= i < s.len() ==> #[trigger] is_roman_char(s[i]),
    ensures
        spec_upper(s) == s,
{
    assert forall|i: int| 0 <= i < s.len() implies #[trigger] spec_upper(s)[i] == s[i] by {
        assert(is_roman_char(s[i]));
    }
    assert(spec_upper(s) =~= s);
}

/// Every canonical encoding is accepted by `from_roman`, with exactly its own
/// value: scanning cannot fail on it and the final re-encoding check passes.
pub proof fn lemma_from_roman_accepts_canonical(s: Seq<char>, m: int)
    requires
        1 <= m <= 3999,
        spec_upper(s) == spec_to_roman(m),
    ensures
        spec_from_roman(s) == Ok::<int, SpecRomanError>(m),
{
    assert(spec_to_roman(m).len() >= 1);
    assert(s.len() == spec_upper(s).len());
    lemma_scan_to_roman(m);
}

/// Round-trip: the canonical encoding of any value in `1..=3999` decodes back
/// to exactly that value.
pub proof fn lemma_roman_round_trip(n: int)
    requires
        1 <= n <= 3999,
    ensures
        spec_from_roman(spec_to_roman(n)) == Ok::<int, SpecRomanError>(n),
{
    lemma_to_roman_chars(n);
    lemma_upper_fixes_roman(spec_to_roman(n));
    lemma_from_roman_accepts_canonical(spec_to_roman(n), n);
}

/// A string one of whose characters is not a Roman symbol even after ASCII
/// upper-casing is never accepted by `from_roman`.
pub proof fn lemma_from_roman_rejects_foreign_chars(s: Seq<char>)
    requires
        exists|i: int| 0 <= i < s.len() && !is_roman_char(spec_upper_char(#[trigger] s[i])),
    ensures
        spec_from_roman(s) is Err,
{
    if spec_from_roman(s) is Ok {
        let m = spec_from_roman(s)->Ok_0;
        assert(spec_upper(s) == spec_to_roman(m));
        lemma_to_roman_chars(m);
        let i = choose|i: int| 0 <= i < s.len() && !is_roman_char(spec_upper_char(#[trigger] s[i]));
        assert(spec_upper(s)[i] == spec_upper_char(s[i]));
        assert(is_roman_char(spec_to_roman(m)[i]));
    }
}

/// True iff the string is non-empty and every character is one of the seven
/// upper-case Roman symbols; a cheap pre-filter used by the lexer.
pub fn looks_like_roman(s: &str) -> (r: bool)
    ensures
        r == (s@.len() > 0 && forall|i: int| 0 <= i < s@.len() ==> is_roman_char(s@[i])),
{
    let n = s.unicode_len();
    if n == 0 {
        return false;
    }
    let mut i: usize = 0;
    while i < n
        invariant
            n == s@.len(),
            i <= n,
            forall|k: int| 0 <= k < i ==> is_roman_char(s@[k]),
        decreases n - i,
    {
        let c = s.get_char(i);
        if roman_value(c) == 0 {
            return false;
        }
        i = i + 1;
    }
    true
}

} // verus!
