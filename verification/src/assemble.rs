//! Hex assembler: decoding tokens into numeric values.
//!
//! The paired scheme groups consecutive tokens pairwise and decodes each
//! pair into a signed 16-bit word, with the second token of a pair
//! supplying the high byte and the first the low byte (little-endian
//! assembly relative to reading order). The alternate single-byte scheme
//! decodes each token independently into an unsigned 8-bit value.

use crate::errors::ConvertError;
use crate::text::{hex_digit_exec, is_hex_digit, is_hex_token};
use vstd::prelude::*;
use vstd::string::StrSliceExecFns;

verus! {

/// The numeric value of a base-16 digit.
pub open spec fn hex_digit_val(c: char) -> nat {
    if 48 <= c as u32 && c as u32 <= 57 {
        (c as u32 - 48) as nat
    } else if 97 <= c as u32 && c as u32 <= 102 {
        (c as u32 - 87) as nat
    } else {
        (c as u32 - 55) as nat
    }
}

/// The byte value of a two-digit hex token.
pub open spec fn token_val(w: Seq<char>) -> nat {
    16 * hex_digit_val(w[0]) + hex_digit_val(w[1])
}

/// Reinterpretation of a 16-bit pattern as a signed two's-complement
/// value, in the range -32768..=32767.
pub open spec fn as_signed_word(n: int) -> int {
    if n < 32768 {
        n
    } else {
        n - 65536
    }
}

/// The signed 16-bit word assembled from a token pair: the second token
/// (`hi`) supplies the high byte, the first (`lo`) the low byte.
pub open spec fn word_val(lo: Seq<char>, hi: Seq<char>) -> int {
    as_signed_word(256 * token_val(hi) + token_val(lo) as int)
}

/// Whether every element of `toks` is a two-digit hex token.
pub open spec fn all_hex_tokens(toks: Seq<Seq<char>>) -> bool {
    forall|i: int| 0 <= i < toks.len() ==> is_hex_token(#[trigger] toks[i])
}

/// The words assembled from a token sequence, pairing consecutive tokens
/// in original order.
pub open spec fn assembled_words(toks: Seq<Seq<char>>) -> Seq<int>
    decreases toks.len(),
{
    if toks.len() < 2 {
        Seq::empty()
    } else {
        seq![word_val(toks[0], toks[1])] + assembled_words(toks.skip(2))
    }
}

/// The byte values decoded from a token sequence, one per token.
pub open spec fn byte_values(toks: Seq<Seq<char>>) -> Seq<int> {
    toks.map_values(|w: Seq<char>| token_val(w) as int)
}

/// The numeric value of a base-16 digit, executably.
fn hex_digit_val_exec(c: char) -> (v: u8)
    requires
        is_hex_digit(c),
    ensures
        v as nat == hex_digit_val(c),
        v < 16,
{
    let u = c as u32;
    if u <= 57 {
        (u - 48) as u8
    } else if u >= 97 {
        (u - 87) as u8
    } else {
        (u - 55) as u8
    }
}

/// Decodes one candidate token: its byte value if it is a two-digit hex
/// token, nothing otherwise.
fn parse_hex_token(s: &str) -> (r: Option<u8>)
    ensures
        r is Some <==> is_hex_token(s@),
        r matches Some(v) ==> v as nat == token_val(s@),
{
    if s.unicode_len() == 2 {
        let c0 = s.get_char(0);
        let c1 = s.get_char(1);
        if hex_digit_exec(c0) && hex_digit_exec(c1) {
            let v0 = hex_digit_val_exec(c0);
            let v1 = hex_digit_val_exec(c1);
            Some(16 * v0 + v1)
        } else {
            None
        }
    } else {
        None
    }
}

/// Assembles the token list into signed 16-bit words, pairing consecutive
/// tokens: in each pair the second token supplies the high byte and the
/// first the low byte, and the 16-bit pattern is read as a signed
/// two's-complement value. Fails with `OddTokenCount` on an odd-length
/// list, and with `MalformedToken` if an even-length list holds a token
/// that is not a two-digit hex pair.
pub fn convert_to_hex(vec: &Vec<String>) -> (r: Result<Vec<i16>, ConvertError>)
    ensures
        r is Ok <==> (vec.deep_view().len() % 2 == 0 && all_hex_tokens(vec.deep_view())),
        vec.deep_view().len() % 2 != 0 ==> r == Err::<Vec<i16>, ConvertError>(
            ConvertError::OddTokenCount,
        ),
        vec.deep_view().len() % 2 == 0 && !all_hex_tokens(vec.deep_view()) ==> r == Err::<
            Vec<i16>,
            ConvertError,
        >(ConvertError::MalformedToken),
        r matches Ok(v) ==> v@.map_values(|x: i16| x as int) == assembled_words(vec.deep_view()),
{
    let ghost toks = vec.deep_view();
    let len = vec.len();
    if len % 2 != 0 {
        return Err(ConvertError::OddTokenCount);
    }
    let mut out: Vec<i16> = Vec::new();
    let mut i: usize = 0;
    proof {
        assert(toks.skip(0) =~= toks);
        assert(out@.map_values(|x: i16| x as int) + assembled_words(toks) =~= assembled_words(
            toks,
        ));
    }
    while i < len
        invariant
            len == toks.len(),
            len == vec@.len(),
            toks == vec.deep_view(),
            len % 2 == 0,
            i % 2 == 0,
            i <= len,
            forall|k: int| 0 <= k < i ==> is_hex_token(#[trigger] toks[k]),
            out@.map_values(|x: i16| x as int) + assembled_words(toks.skip(i as int))
                == assembled_words(toks),
        decreases len - i,
    {
        proof {
            assert(toks[i as int] == vec@[i as int]@);
            assert(toks[i + 1] == vec@[i + 1]@);
        }
        let lo = match parse_hex_token(vec[i].as_str()) {
            Some(v) => v,
            None => {
                proof {
                    assert(!is_hex_token(toks[i as int]));
                }
                return Err(ConvertError::MalformedToken);
            },
        };
        let hi = match parse_hex_token(vec[i + 1].as_str()) {
            Some(v) => v,
            None => {
                proof {
                    assert(!is_hex_token(toks[i + 1]));
                }
                return Err(ConvertError::MalformedToken);
            },
        };
        let n: u32 = (hi as u32) * 256 + (lo as u32);
        let w: i16 = if n >= 32768 {
            ((n as i32) - 65536) as i16
        } else {
            n as i16
        };
        let ghost prev = out@;
        out.push(w);
        proof {
            let rest = toks.skip(i as int);
            assert(rest[0] == toks[i as int]);
            assert(rest[1] == toks[i + 1]);
            assert(rest.skip(2) =~= toks.skip(i + 2));
            assert(w as int == word_val(toks[i as int], toks[i + 1]));
            assert(assembled_words(rest) == seq![word_val(toks[i as int], toks[i + 1])]
                + assembled_words(toks.skip(i + 2)));
            assert(out@.map_values(|x: i16| x as int) =~= prev.map_values(|x: i16| x as int).push(
                w as int,
            ));
            assert(out@.map_values(|x: i16| x as int) + assembled_words(toks.skip(i + 2))
                =~= assembled_words(toks));
        }
        i = i + 2;
    }
    proof {
        assert(toks.skip(len as int) =~= Seq::<Seq<char>>::empty());
        assert(out@.map_values(|x: i16| x as int) =~= assembled_words(toks));
    }
    Ok(out)
}

/// The alternate single-byte scheme: decodes each token independently
/// into an unsigned byte value; no pairing and no parity condition. Fails
/// with `MalformedToken` if any token is not a two-digit hex pair.
pub fn assemble_bytes(vec: &Vec<String>) -> (r: Result<Vec<u8>, ConvertError>)
    ensures
        r is Ok <==> all_hex_tokens(vec.deep_view()),
        !all_hex_tokens(vec.deep_view()) ==> r == Err::<Vec<u8>, ConvertError>(
            ConvertError::MalformedToken,
        ),
        r matches Ok(v) ==> v@.map_values(|x: u8| x as int) == byte_values(vec.deep_view()),
{
    let ghost toks = vec.deep_view();
    let len = vec.len();
    let mut out: Vec<u8> = Vec::new();
    let mut i: usize = 0;
    while i < len
        invariant
            len == toks.len(),
            len == vec@.len(),
            toks == vec.deep_view(),
            i <= len,
            forall|k: int| 0 <= k < i ==> is_hex_token(#[trigger] toks[k]),
            out@.map_values(|x: u8| x as int) == byte_values(toks.take(i as int)),
        decreases len - i,
    {
        proof {
            assert(toks[i as int] == vec@[i as int]@);
        }
        let b = match parse_hex_token(vec[i].as_str()) {
            Some(v) => v,
            None => {
                proof {
                    assert(!is_hex_token(toks[i as int]));
                }
                return Err(ConvertError::MalformedToken);
            },
        };
        let ghost prev = out@;
        out.push(b);
        proof {
            let m1 = out@.map_values(|x: u8| x as int);
            let m2 = byte_values(toks.take(i + 1));
            assert(prev.map_values(|x: u8| x as int).len() == prev.len());
            assert(byte_values(toks.take(i as int)).len() == toks.take(i as int).len());
            assert(prev.len() == i);
            assert(m1.len() == i + 1);
            assert(m2.len() == toks.take(i + 1).len());
            assert forall|k: int| 0 <= k < m1.len() implies m1[k] == m2[k] by {
                assert(m1[k] == out@[k] as int);
                assert(toks.take(i + 1)[k] == toks[k]);
                assert(m2[k] == token_val(toks[k]) as int);
                if k < i {
                    assert(prev.map_values(|x: u8| x as int)[k] == byte_values(
                        toks.take(i as int),
                    )[k]);
                    assert(toks.take(i as int)[k] == toks[k]);
                } else {
                    assert(out@[k] == b);
                }
            }
            assert(m1 =~= m2);
        }
        i = i + 1;
    }
    proof {
        assert(toks.take(len as int) =~= toks);
    }
    Ok(out)
}

} // verus!
