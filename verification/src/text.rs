//! Verified text building and inspection: decimal rendering of integers,
//! fixed-point ("n.d") formatting, padding to a column width, and plain
//! character-wise string comparison.

use vstd::prelude::*;
use vstd::string::{StrSliceExecFns, StringExecFns};

verus! {

/// The character for one decimal digit.
pub open spec fn digit_char(d: int) -> char
    recommends
        0 <= d <= 9,
{
    if d == 0 {
        '0'
    } else if d == 1 {
        '1'
    } else if d == 2 {
        '2'
    } else if d == 3 {
        '3'
    } else if d == 4 {
        '4'
    } else if d == 5 {
        '5'
    } else if d == 6 {
        '6'
    } else if d == 7 {
        '7'
    } else if d == 8 {
        '8'
    } else {
        '9'
    }
}

/// Decimal digit sequence of a non-negative integer, most significant digit
/// first, without leading zeros (a lone zero for 0).
pub open spec fn dec_seq(n: int) -> Seq<char>
    recommends
        n >= 0,
    decreases n,
{
    if n <= 9 {
        seq![digit_char(n)]
    } else {
        dec_seq(n / 10).push(digit_char(n % 10))
    }
}

/// A run of `n` blank cells.
pub open spec fn spaces(n: int) -> Seq<char>
    recommends
        n >= 0,
{
    Seq::new(n as nat, |i: int| ' ')
}

/// `s` in a field `width` wide, left-aligned: blanks follow the text.
pub open spec fn pad_right_spec(s: Seq<char>, width: int) -> Seq<char> {
    if s.len() >= width {
        s
    } else {
        s + spaces(width - s.len())
    }
}

/// `s` in a field `width` wide, right-aligned: blanks precede the text.
pub open spec fn pad_left_spec(s: Seq<char>, width: int) -> Seq<char> {
    if s.len() >= width {
        s
    } else {
        spaces(width - s.len()) + s
    }
}

/// A value in tenths shown with one decimal place, `w.f` style.
pub open spec fn fixed1_seq(tenths: int) -> Seq<char>
    recommends
        tenths >= 0,
{
    dec_seq(tenths / 10) + seq!['.', digit_char(tenths % 10)]
}

/// A value in hundredths shown with two decimal places, `w.ff` style.
pub open spec fn fixed2_seq(hundredths: int) -> Seq<char>
    recommends
        hundredths >= 0,
{
    dec_seq(hundredths / 100) + seq![
        '.',
        digit_char((hundredths / 10) % 10),
        digit_char(hundredths % 10),
    ]
}

/// Append the character of one decimal digit.
fn push_digit(s: &mut String, d: u64)
    requires
        d <= 9,
    ensures
        final(s)@ == old(s)@.push(digit_char(d as int)),
{
    let lit: &str = if d == 0 {
        "0"
    } else if d == 1 {
        "1"
    } else if d == 2 {
        "2"
    } else if d == 3 {
        "3"
    } else if d == 4 {
        "4"
    } else if d == 5 {
        "5"
    } else if d == 6 {
        "6"
    } else if d == 7 {
        "7"
    } else if d == 8 {
        "8"
    } else {
        "9"
    };
    proof {
        reveal_strlit("0");
        reveal_strlit("1");
        reveal_strlit("2");
        reveal_strlit("3");
        reveal_strlit("4");
        reveal_strlit("5");
        reveal_strlit("6");
        reveal_strlit("7");
        reveal_strlit("8");
        reveal_strlit("9");
    }
    s.append(lit);
    proof {
        assert(s@ =~= old(s)@.push(digit_char(d as int)));
    }
}

/// Decimal text of an unsigned integer.
pub fn u64_to_string(n: u64) -> (s: String)
    ensures
        s@ == dec_seq(n as int),
    decreases n,
{
    if n <= 9 {
        let mut s = String::new();
        push_digit(&mut s, n);
        proof {
            assert(s@ =~= dec_seq(n as int));
        }
        s
    } else {
        let mut s = u64_to_string(n / 10);
        push_digit(&mut s, n % 10);
        s
    }
}

/// Text of a value given in tenths, with one decimal place.
pub fn tenths_to_string(tenths: u64) -> (s: String)
    ensures
        s@ == fixed1_seq(tenths as int),
{
    let mut s = u64_to_string(tenths / 10);
    s.append(".");
    push_digit(&mut s, tenths % 10);
    proof {
        reveal_strlit(".");
        assert(s@ =~= fixed1_seq(tenths as int));
    }
    s
}

/// Text of a value given in hundredths, with two decimal places.
pub fn hundredths_to_string(hundredths: u64) -> (s: String)
    ensures
        s@ == fixed2_seq(hundredths as int),
{
    let mut s = u64_to_string(hundredths / 100);
    s.append(".");
    push_digit(&mut s, (hundredths / 10) % 10);
    push_digit(&mut s, hundredths % 10);
    proof {
        reveal_strlit(".");
        assert(s@ =~= fixed2_seq(hundredths as int));
    }
    s
}

/// Append `n` blank cells.
pub fn push_spaces(s: &mut String, n: usize)
    ensures
        final(s)@ == old(s)@ + spaces(n as int),
{
    proof {
        assert(old(s)@ + spaces(0) =~= old(s)@);
    }
    let mut i: usize = 0;
    while i < n
        invariant
            i <= n,
            s@ == old(s)@ + spaces(i as int),
        decreases n - i,
    {
        s.append(" ");
        proof {
            reveal_strlit(" ");
            assert(s@ =~= old(s)@ + spaces(i + 1));
        }
        i = i + 1;
    }
}

/// `s` left-aligned in a field `width` wide.
pub fn pad_right(s: &str, width: usize) -> (r: String)
    ensures
        r@ == pad_right_spec(s@, width as int),
{
    let n = s.unicode_len();
    let mut r = String::from_str(s);
    if n < width {
        push_spaces(&mut r, width - n);
    }
    proof {
        assert(r@ =~= pad_right_spec(s@, width as int));
    }
    r
}

/// `s` right-aligned in a field `width` wide.
pub fn pad_left(s: &str, width: usize) -> (r: String)
    ensures
        r@ == pad_left_spec(s@, width as int),
{
    let n = s.unicode_len();
    let mut r = String::new();
    if n < width {
        push_spaces(&mut r, width - n);
    }
    r.append(s);
    proof {
        assert(r@ =~= pad_left_spec(s@, width as int));
    }
    r
}

/// Character-wise string equality.
pub fn str_eq(a: &str, b: &str) -> (r: bool)
    ensures
        r == (a@ == b@),
{
    let na = a.unicode_len();
    let nb = b.unicode_len();
    if na != nb {
        proof {
            if a@ == b@ {
                assert(a@.len() == b@.len());
            }
        }
        return false;
    }
    let mut i: usize = 0;
    while i < na
        invariant
            i <= na,
            na == a@.len(),
            na == b@.len(),
            forall|j: int| 0 <= j < i ==> a@[j] == b@[j],
        decreases na - i,
    {
        if a.get_char(i) != b.get_char(i) {
            proof {
                if a@ == b@ {
                    assert(a@[i as int] == b@[i as int]);
                }
            }
            return false;
        }
        i = i + 1;
    }
    proof {
        assert(a@ =~= b@);
    }
    true
}

/// Does `s` begin with `prefix`?
pub fn str_starts_with(s: &str, prefix: &str) -> (r: bool)
    ensures
        r == prefix@.is_prefix_of(s@),
{
    let np = prefix.unicode_len();
    let ns = s.unicode_len();
    if np > ns {
        return false;
    }
    let mut i: usize = 0;
    while i < np
        invariant
            i <= np,
            np == prefix@.len(),
            ns == s@.len(),
            np <= ns,
            forall|j: int| 0 <= j < i ==> prefix@[j] == s@[j],
        decreases np - i,
    {
        if prefix.get_char(i) != s.get_char(i) {
            proof {
                if prefix@.is_prefix_of(s@) {
                    assert(prefix@[i as int] == s@.subrange(0, np as int)[i as int]);
                }
            }
            return false;
        }
        i = i + 1;
    }
    proof {
        assert(prefix@ =~= s@.subrange(0, np as int));
    }
    true
}

} // verus!
