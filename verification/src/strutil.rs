//! Character and string helpers: ASCII case folding, case-insensitive
//! substring search, and decimal rendering of integers.

use vstd::prelude::*;

verus! {

/// The code point of `c` with an ASCII upper-case letter folded to lower
/// case; other characters are left as they are.
pub open spec fn lower_code(c: char) -> int {
    if 65 <= c as int && c as int <= 90 {
        c as int + 32
    } else {
        c as int
    }
}

/// Two characters are equal up to ASCII case.
pub open spec fn chars_eq_ci(a: char, b: char) -> bool {
    lower_code(a) == lower_code(b)
}

/// The pattern matches the text at offset `off`, up to ASCII case.
pub open spec fn matches_ci_at(text: Seq<char>, pat: Seq<char>, off: int) -> bool {
    forall|i: int| 0 <= i < pat.len() ==> chars_eq_ci(text[off + i], #[trigger] pat[i])
}

/// The text contains the pattern as a substring, up to ASCII case.
pub open spec fn contains_ci(text: Seq<char>, pat: Seq<char>) -> bool {
    exists|off: int| 0 <= off && off + pat.len() <= text.len() && matches_ci_at(text, pat, off)
}

/// The case-folded code point of a character.
pub fn char_lower_code(c: char) -> (r: u32)
    ensures
        r as int == lower_code(c),
{
    let u = c as u32;
    if 65 <= u && u <= 90 {
        u + 32
    } else {
        u
    }
}

/// Whether `text` contains `pat` as a substring, compared up to ASCII
/// case.
pub fn text_contains_ci(text: &str, pat: &str) -> (r: bool)
    ensures
        r == contains_ci(text@, pat@),
{
    let n = text.unicode_len();
    let m = pat.unicode_len();
    if m > n {
        proof {
            assert(!contains_ci(text@, pat@));
        }
        return false;
    }
    let mut off: usize = 0;
    while off <= n - m
        invariant
            m <= n,
            n == text@.len(),
            m == pat@.len(),
            forall|o: int| 0 <= o < off ==> !matches_ci_at(text@, pat@, o),
        decreases n - off,
    {
        let mut i: usize = 0;
        let mut ok: bool = true;
        while i < m
            invariant
                i <= m,
                off + m <= n,
                n == text@.len(),
                m == pat@.len(),
                ok ==> forall|l: int| 0 <= l < i ==> chars_eq_ci(text@[off + l], #[trigger] pat@[l]),
                !ok ==> !matches_ci_at(text@, pat@, off as int),
            decreases m - i,
        {
            let a = char_lower_code(text.get_char(off + i));
            let b = char_lower_code(pat.get_char(i));
            if a != b {
                proof {
                    assert(!chars_eq_ci(text@[off + i], pat@[i as int]));
                }
                ok = false;
            }
            i += 1;
        }
        if ok {
            proof {
                assert(matches_ci_at(text@, pat@, off as int));
            }
            return true;
        }
        off += 1;
    }
    proof {
        assert forall|o: int| 0 <= o && o + pat@.len() <= text@.len() implies !matches_ci_at(
            text@,
            pat@,
            o,
        ) by {
            assert(o < off);
        }
    }
    false
}

/// Whether two texts hold exactly the same characters.
pub fn texts_equal(a: &str, b: &str) -> (r: bool)
    ensures
        r == (a@ == b@),
{
    let na = a.unicode_len();
    let nb = b.unicode_len();
    if na != nb {
        proof {
            assert(a@ != b@);
        }
        return false;
    }
    let mut i: usize = 0;
    while i < na
        invariant
            i <= na,
            na == a@.len(),
            na == b@.len(),
            forall|j: int| 0 <= j < i ==> a@[j] == b@[j],
        decreases na - i,
    {
        if a.get_char(i) != b.get_char(i) {
            proof {
                assert(a@[i as int] != b@[i as int]);
            }
            return false;
        }
        i += 1;
    }
    proof {
        assert(a@ =~= b@);
    }
    true
}

/// The decimal digit character of a value below ten.
pub open spec fn digit_char(d: int) -> char {
    if d == 0 {
        '0'
    } else if d == 1 {
        '1'
    } else if d == 2 {
        '2'
    } else if d == 3 {
        '3'
    } else if d == 4 {
        '4'
    } else if d == 5 {
        '5'
    } else if d == 6 {
        '6'
    } else if d == 7 {
        '7'
    } else if d == 8 {
        '8'
    } else {
        '9'
    }
}

/// The decimal digits of a non-negative value, most significant first.
pub open spec fn dec_digits(n: int) -> Seq<char>
    decreases n,
{
    if n < 10 {
        seq![digit_char(n)]
    } else {
        dec_digits(n / 10).push(digit_char(n % 10))
    }
}

/// The decimal rendering of an integer: a minus sign for a negative
/// value, then its digits.
pub open spec fn dec_i64(n: int) -> Seq<char> {
    if n >= 0 {
        dec_digits(n)
    } else {
        seq!['-'] + dec_digits(-n)
    }
}

/// One decimal digit as text.
fn digit_str(d: u64) -> (r: &'static str)
    requires
        d < 10,
    ensures
        r@ =~= seq![digit_char(d as int)],
{
    proof {
        reveal_strlit("0");
        reveal_strlit("1");
        reveal_strlit("2");
        reveal_strlit("3");
        reveal_strlit("4");
        reveal_strlit("5");
        reveal_strlit("6");
        reveal_strlit("7");
        reveal_strlit("8");
        reveal_strlit("9");
    }
    if d == 0 {
        "0"
    } else if d == 1 {
        "1"
    } else if d == 2 {
        "2"
    } else if d == 3 {
        "3"
    } else if d == 4 {
        "4"
    } else if d == 5 {
        "5"
    } else if d == 6 {
        "6"
    } else if d == 7 {
        "7"
    } else if d == 8 {
        "8"
    } else {
        "9"
    }
}

/// Renders a non-negative value in decimal.
pub fn u64_to_dec(n: u64) -> (r: String)
    ensures
        r@ == dec_digits(n as int),
    decreases n,
{
    if n < 10 {
        digit_str(n).to_owned()
    } else {
        let mut s = u64_to_dec(n / 10);
        s.append(digit_str(n % 10));
        proof {
            assert(s@ =~= dec_digits(n as int));
        }
        s
    }
}

/// Renders a signed value in decimal.
pub fn i64_to_dec(n: i64) -> (r: String)
    ensures
        r@ == dec_i64(n as int),
{
    if n >= 0 {
        u64_to_dec(n as u64)
    } else {
        let mag: u64 = ((-(n + 1)) as u64) + 1;
        proof {
            assert(mag as int == -(n as int));
            reveal_strlit("-");
        }
        let mut s = String::from_str("-");
        s.append(u64_to_dec(mag).as_str());
        proof {
            assert(s@ =~= dec_i64(n as int));
        }
        s
    }
}

/// A value below 100 rendered as exactly two digits.
pub open spec fn pad2_view(n: int) -> Seq<char> {
    if n < 10 {
        seq!['0'] + dec_digits(n)
    } else {
        dec_digits(n)
    }
}

/// A value below 10000 rendered as exactly four digits.
pub open spec fn pad4_view(n: int) -> Seq<char> {
    if n < 10 {
        seq!['0', '0', '0'] + dec_digits(n)
    } else if n < 100 {
        seq!['0', '0'] + dec_digits(n)
    } else if n < 1000 {
        seq!['0'] + dec_digits(n)
    } else {
        dec_digits(n)
    }
}

/// Renders a value below 100 as exactly two digits.
pub fn pad2(n: u64) -> (r: String)
    requires
        n < 100,
    ensures
        r@ == pad2_view(n as int),
{
    if n < 10 {
        proof {
            reveal_strlit("0");
        }
        let mut s = String::from_str("0");
        s.append(u64_to_dec(n).as_str());
        proof {
            assert(s@ =~= seq!['0'] + dec_digits(n as int));
        }
        s
    } else {
        u64_to_dec(n)
    }
}

/// Renders a value below 10000 as exactly four digits.
pub fn pad4(n: u64) -> (r: String)
    requires
        n < 10000,
    ensures
        r@ == pad4_view(n as int),
{
    proof {
        reveal_strlit("000");
        reveal_strlit("00");
        reveal_strlit("0");
    }
    if n < 10 {
        let mut s = String::from_str("000");
        s.append(u64_to_dec(n).as_str());
        proof {
            assert("000"@ =~= seq!['0', '0', '0']);
            assert(s@ =~= seq!['0', '0', '0'] + dec_digits(n as int));
        }
        s
    } else if n < 100 {
        let mut s = String::from_str("00");
        s.append(u64_to_dec(n).as_str());
        proof {
            assert("00"@ =~= seq!['0', '0']);
            assert(s@ =~= seq!['0', '0'] + dec_digits(n as int));
        }
        s
    } else if n < 1000 {
        let mut s = String::from_str("0");
        s.append(u64_to_dec(n).as_str());
        proof {
            assert("0"@ =~= seq!['0']);
            assert(s@ =~= seq!['0'] + dec_digits(n as int));
        }
        s
    } else {
        u64_to_dec(n)
    }
}

} // verus!
