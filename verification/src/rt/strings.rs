use vstd::prelude::*;

use crate::text::{append_str, decimal, digit_char, push_char};

verus! {

/// The text of a possibly missing string; a missing one reads as empty.
pub open spec fn text_of(s: Option<&str>) -> Seq<char> {
    match s {
        Some(t) => t@,
        None => Seq::empty(),
    }
}

/// The first string followed by the second, a missing one taken as empty.
pub fn __of_str_concat(a: Option<&str>, b: Option<&str>) -> (r: String)
    ensures
        r@ == text_of(a) + text_of(b),
{
    let mut r = String::new();
    if let Some(x) = a {
        append_str(&mut r, x);
    }
    if let Some(y) = b {
        append_str(&mut r, y);
    }
    proof {
        assert(r@ =~= text_of(a) + text_of(b));
    }
    r
}

/// Whether two possibly missing strings are equal, as bytes: two missing
/// ones are, a missing and a present one are not.
pub open spec fn spec_str_eq(a: Option<Seq<u8>>, b: Option<Seq<u8>>) -> bool {
    match (a, b) {
        (None, None) => true,
        (Some(x), Some(y)) => x == y,
        _ => false,
    }
}

/// 1 when the two strings hold the same bytes (both missing counts), else 0.
pub fn __of_str_eq(a: Option<&[u8]>, b: Option<&[u8]>) -> (r: u8)
    ensures
        r == (if spec_str_eq(
            match a {
                Some(x) => Some(x@),
                None => None,
            },
            match b {
                Some(y) => Some(y@),
                None => None,
            },
        ) {
            1u8
        } else {
            0u8
        }),
{
    match (a, b) {
        (None, None) => 1,
        (Some(x), Some(y)) => {
            if x.len() != y.len() {
                return 0;
            }
            let mut i: usize = 0;
            while i < x.len()
                invariant
                    a == Some(x),
                    b == Some(y),
                    x@.len() == y@.len(),
                    i <= x@.len(),
                    forall|j: int| 0 <= j < i ==> x@[j] == y@[j],
                decreases x@.len() - i,
            {
                if x[i] != y[i] {
                    return 0;
                }
                i = i + 1;
            }
            proof {
                assert(x@ =~= y@);
            }
            1
        },
        _ => 0,
    }
}

/// Decimal representation of `n`.
pub fn u64_decimal(n: u64) -> (r: String)
    ensures
        r@ == decimal(n as nat),
    decreases n,
{
    if n < 10 {
        let mut r = String::new();
        push_char(&mut r, decimal_digit(n));
        assert(r@ =~= decimal(n as nat));
        r
    } else {
        let mut r = u64_decimal(n / 10);
        push_char(&mut r, decimal_digit(n % 10));
        r
    }
}

fn decimal_digit(d: u64) -> (c: char)
    requires
        d < 10,
    ensures
        c == digit_char(d as nat),
{
    let digits: [char; 10] = ['0', '1', '2', '3', '4', '5', '6', '7', '8', '9'];
    proof {
        assert(digits@ =~= seq![
            digit_char(0),
            digit_char(1),
            digit_char(2),
            digit_char(3),
            digit_char(4),
            digit_char(5),
            digit_char(6),
            digit_char(7),
            digit_char(8),
            digit_char(9),
        ]);
    }
    digits[d as usize]
}

/// The text of a signed integer: its decimal digits, after `-` when it is
/// negative.
pub open spec fn spec_i64_text(v: i64) -> Seq<char> {
    if v < 0 {
        seq!['-'] + decimal((-v) as nat)
    } else {
        decimal(v as nat)
    }
}

/// The decimal text of a signed integer.
pub fn __of_i64_to_str(v: i64) -> (r: String)
    ensures
        r@ == spec_i64_text(v),
{
    if v < 0 {
        let magnitude: u64 = if v == i64::MIN {
            9223372036854775808u64
        } else {
            (0 - v) as u64
        };
        let mut r = String::new();
        push_char(&mut r, '-');
        let digits = u64_decimal(magnitude);
        append_str(&mut r, digits.as_str());
        proof {
            assert(r@ =~= spec_i64_text(v));
        }
        r
    } else {
        u64_decimal(v as u64)
    }
}

/// The decimal text of an unsigned integer.
pub fn __of_u64_to_str(v: u64) -> (r: String)
    ensures
        r@ == decimal(v as nat),
{
    u64_decimal(v)
}

/// `true` for a nonzero flag, `false` for zero.
pub fn __of_bool_to_str(v: u8) -> (r: String)
    ensures
        r@ == (if v != 0 {
            "true"@
        } else {
            "false"@
        }),
{
    if v != 0 {
        "true".to_string()
    } else {
        "false".to_string()
    }
}

/// A code point that is a Unicode scalar value, that is, a `char`.
pub open spec fn is_scalar_value(cp: u32) -> bool {
    cp < 0xD800 || (0xE000 <= cp && cp <= 0x10FFFF)
}

/// The char whose code point is `cp`, if there is one.
///
/// Calls `char::from_u32`, which the standard library documents as giving
/// `None` exactly when `cp` is not a valid char (a surrogate, or above
/// U+10FFFF), and else the char with that code point.
#[verifier::external_body]
fn char_from_u32(cp: u32) -> (r: Option<char>)
    ensures
        r is Some <==> is_scalar_value(cp),
        r matches Some(c) ==> c as u32 == cp,
{
    char::from_u32(cp)
}

/// The one-char text of a code point, or the empty text when `codepoint`
/// is not a valid char.
pub fn __of_char_to_str(codepoint: u32) -> (r: String)
    ensures
        is_scalar_value(codepoint) ==> r@.len() == 1 && r@[0] as u32 == codepoint,
        !is_scalar_value(codepoint) ==> r@ == Seq::<char>::empty(),
{
    let mut r = String::new();
    if let Some(c) = char_from_u32(codepoint) {
        push_char(&mut r, c);
    }
    r
}

} // verus!
