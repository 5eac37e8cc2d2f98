//! Decimal serializer: rendering value sequences as space-joined decimal
//! text.
//!
//! Each value is formatted in base 10 with its signedness; values are
//! joined by single ASCII spaces, with no leading or trailing whitespace.
//! An empty value sequence yields the empty string.

use vstd::prelude::*;
use vstd::string::{StrSliceExecFns, StringExecFns};

verus! {

/// The decimal digit character of `d`, for `d < 10`.
pub open spec fn digit_char(d: nat) -> char {
    if d == 0 {
        '0'
    } else if d == 1 {
        '1'
    } else if d == 2 {
        '2'
    } else if d == 3 {
        '3'
    } else if d == 4 {
        '4'
    } else if d == 5 {
        '5'
    } else if d == 6 {
        '6'
    } else if d == 7 {
        '7'
    } else if d == 8 {
        '8'
    } else {
        '9'
    }
}

/// The base-10 digit string of a natural number, most significant digit
/// first, with no leading zeros (`0` itself is the single digit `0`).
pub open spec fn dec_digits(n: nat) -> Seq<char>
    decreases n,
{
    if n < 10 {
        seq![digit_char(n)]
    } else {
        dec_digits(n / 10) + seq![digit_char(n % 10)]
    }
}

/// The base-10 rendering of an integer: a `-` sign for negative values,
/// then the digits of its magnitude.
pub open spec fn dec_string(v: int) -> Seq<char> {
    if v < 0 {
        seq!['-'] + dec_digits((-v) as nat)
    } else {
        dec_digits(v as nat)
    }
}

/// The decimal renderings of `vals` joined by single spaces, with no
/// leading or trailing separator; empty input yields the empty string.
pub open spec fn joined(vals: Seq<int>) -> Seq<char>
    decreases vals.len(),
{
    if vals.len() == 0 {
        Seq::empty()
    } else if vals.len() == 1 {
        dec_string(vals[0])
    } else {
        joined(vals.drop_last()) + seq![' '] + dec_string(vals.last())
    }
}

/// The one-character string of a decimal digit.
fn digit_str(d: u32) -> (r: &'static str)
    requires
        d < 10,
    ensures
        r@ == seq![digit_char(d as nat)],
{
    proof {
        reveal_strlit("0");
        reveal_strlit("1");
        reveal_strlit("2");
        reveal_strlit("3");
        reveal_strlit("4");
        reveal_strlit("5");
        reveal_strlit("6");
        reveal_strlit("7");
        reveal_strlit("8");
        reveal_strlit("9");
    }
    let r = if d == 0 {
        "0"
    } else if d == 1 {
        "1"
    } else if d == 2 {
        "2"
    } else if d == 3 {
        "3"
    } else if d == 4 {
        "4"
    } else if d == 5 {
        "5"
    } else if d == 6 {
        "6"
    } else if d == 7 {
        "7"
    } else if d == 8 {
        "8"
    } else {
        "9"
    };
    proof {
        assert(r@ =~= seq![digit_char(d as nat)]);
    }
    r
}

/// The base-10 digit string of `n`, most significant digit first.
fn dec_digits_exec(n: u32) -> (r: String)
    ensures
        r@ == dec_digits(n as nat),
    decreases n,
{
    if n < 10 {
        digit_str(n).to_owned()
    } else {
        let mut s = dec_digits_exec(n / 10);
        s.append(digit_str(n % 10));
        proof {
            assert(s@ =~= dec_digits(n as nat));
        }
        s
    }
}

/// The base-10 rendering of a signed 16-bit word.
fn dec_string_i16(v: i16) -> (r: String)
    ensures
        r@ == dec_string(v as int),
{
    if v < 0 {
        let m: u32 = (-(v as i32)) as u32;
        proof {
            assert(m as nat == (-(v as int)) as nat);
            reveal_strlit("-");
        }
        let mut s = "-".to_owned();
        let digits = dec_digits_exec(m);
        s.append(digits.as_str());
        proof {
            assert(s@ =~= dec_string(v as int));
        }
        s
    } else {
        dec_digits_exec(v as u32)
    }
}

/// Renders the word values as space-joined decimal text: each value in
/// base 10 with its sign, single spaces between values, no leading or
/// trailing whitespace. An empty value list yields the empty string.
pub fn convert_to_dec_string(hex_vec: &Vec<i16>) -> (r: String)
    ensures
        r@ == joined(hex_vec@.map_values(|x: i16| x as int)),
{
    let ghost vals = hex_vec@.map_values(|x: i16| x as int);
    let len = hex_vec.len();
    let mut out = String::new();
    let mut i: usize = 0;
    proof {
        assert(vals.len() == len);
        assert(out@ =~= joined(vals.take(0)));
    }
    while i < len
        invariant
            len == hex_vec@.len(),
            vals == hex_vec@.map_values(|x: i16| x as int),
            vals.len() == len,
            i <= len,
            out@ == joined(vals.take(i as int)),
        decreases len - i,
    {
        if i > 0 {
            proof {
                reveal_strlit(" ");
            }
            out.append(" ");
        }
        let rendered = dec_string_i16(hex_vec[i]);
        out.append(rendered.as_str());
        proof {
            assert(vals[i as int] == hex_vec@[i as int] as int);
            let t = vals.take(i + 1);
            assert(t.len() == i + 1);
            if i == 0 {
                assert(t[0] == vals[0]);
                assert(joined(t) == dec_string(vals[0]));
                assert(out@ =~= joined(t));
            } else {
                assert(t.drop_last() =~= vals.take(i as int));
                assert(t.last() == vals[i as int]);
                assert(" "@ =~= seq![' ']) by {
                    reveal_strlit(" ");
                }
                assert(out@ =~= joined(t));
            }
        }
        i = i + 1;
    }
    proof {
        assert(vals.take(len as int) =~= vals);
    }
    out
}

/// Renders the unsigned byte values of the alternate single-byte scheme
/// as space-joined decimal text.
pub fn convert_to_dec_string_bytes(byte_vec: &Vec<u8>) -> (r: String)
    ensures
        r@ == joined(byte_vec@.map_values(|x: u8| x as int)),
{
    let ghost vals = byte_vec@.map_values(|x: u8| x as int);
    let len = byte_vec.len();
    let mut words: Vec<i16> = Vec::new();
    let mut i: usize = 0;
    while i < len
        invariant
            len == byte_vec@.len(),
            vals == byte_vec@.map_values(|x: u8| x as int),
            vals.len() == len,
            i <= len,
            words@.len() == i,
            words@.map_values(|x: i16| x as int) == vals.take(i as int),
        decreases len - i,
    {
        let ghost prev = words@;
        words.push(byte_vec[i] as i16);
        proof {
            assert(prev.map_values(|x: i16| x as int).len() == prev.len());
            let m = words@.map_values(|x: i16| x as int);
            let t = vals.take(i + 1);
            assert forall|k: int| 0 <= k < i + 1 implies m[k] == t[k] by {
                if k < i {
                    assert(prev.map_values(|x: i16| x as int)[k] == vals.take(i as int)[k]);
                    assert(vals.take(i as int)[k] == vals[k]);
                }
                assert(t[k] == vals[k]);
            }
            assert(m =~= t);
        }
        i = i + 1;
    }
    proof {
        assert(vals.take(len as int) =~= vals);
    }
    convert_to_dec_string(&words)
}

} // verus!
