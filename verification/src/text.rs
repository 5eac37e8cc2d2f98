//! Tokenizer: extraction of two-digit hexadecimal tokens from raw text.
//!
//! The raw text is split on whitespace runs; only words of exactly two
//! base-16 digits are kept, in their original order. Words of any other
//! shape are dropped silently: this is a permissive filter, not a
//! validation step.

use vstd::prelude::*;
use vstd::string::StrSliceExecFns;

verus! {

/// Whether a character counts as whitespace for word splitting. This is
/// the Unicode `White_Space` property, a function of the character alone;
/// it is given meaning by the specification of `char::is_whitespace`.
pub uninterp spec fn is_space(c: char) -> bool;

/// Relies on `char::is_whitespace` of std: whether the character has the
/// Unicode `White_Space` property, a pure function of the character.
pub assume_specification[ char::is_whitespace ](c: char) -> (r: bool)
    ensures
        r == is_space(c),
;

/// Whether `c` is a base-16 digit: `0`-`9`, `a`-`f` or `A`-`F`.
pub open spec fn is_hex_digit(c: char) -> bool {
    (48 <= c as u32 && c as u32 <= 57) || (97 <= c as u32 && c as u32 <= 102) || (65 <= c as u32
        && c as u32 <= 70)
}

/// Whether `w` is a hex token: exactly two base-16 digits.
pub open spec fn is_hex_token(w: Seq<char>) -> bool {
    w.len() == 2 && is_hex_digit(w[0]) && is_hex_digit(w[1])
}

/// The number of leading non-whitespace characters of `s`.
pub open spec fn run_len(s: Seq<char>) -> nat
    decreases s.len(),
{
    if s.len() == 0 || is_space(s[0]) {
        0
    } else {
        1 + run_len(s.skip(1))
    }
}

proof fn lemma_run_len_le(s: Seq<char>)
    ensures
        run_len(s) <= s.len(),
    decreases s.len(),
{
    if s.len() != 0 && !is_space(s[0]) {
        lemma_run_len_le(s.skip(1));
    }
}

/// The whitespace-separated words of `s`, in order: the maximal runs of
/// non-whitespace characters.
pub open spec fn words_of(s: Seq<char>) -> Seq<Seq<char>>
    decreases s.len(),
    via words_of_decreases
{
    if s.len() == 0 {
        Seq::empty()
    } else if is_space(s[0]) {
        words_of(s.skip(1))
    } else {
        seq![s.take(run_len(s) as int)] + words_of(s.skip(run_len(s) as int))
    }
}

#[via_fn]
proof fn words_of_decreases(s: Seq<char>) {
    lemma_run_len_le(s);
}

/// The hex tokens among a word sequence: the words that are two base-16
/// digits, in order; every other word is dropped.
pub open spec fn hex_filter(ws: Seq<Seq<char>>) -> Seq<Seq<char>>
    decreases ws.len(),
{
    if ws.len() == 0 {
        Seq::empty()
    } else if is_hex_token(ws[0]) {
        seq![ws[0]] + hex_filter(ws.skip(1))
    } else {
        hex_filter(ws.skip(1))
    }
}

/// The two-digit hexadecimal tokens of raw text `s`: its whitespace-
/// separated words filtered down to the hex tokens, in original order.
pub open spec fn hex_tokens_of(s: Seq<char>) -> Seq<Seq<char>> {
    hex_filter(words_of(s))
}

proof fn lemma_hex_filter_all_hex(ws: Seq<Seq<char>>)
    ensures
        forall|i: int|
            0 <= i < hex_filter(ws).len() ==> is_hex_token(#[trigger] hex_filter(ws)[i]),
    decreases ws.len(),
{
    if ws.len() != 0 {
        lemma_hex_filter_all_hex(ws.skip(1));
        let tail = hex_filter(ws.skip(1));
        assert forall|i: int|
            0 <= i < hex_filter(ws).len() implies is_hex_token(#[trigger] hex_filter(ws)[i]) by {
            if is_hex_token(ws[0]) {
                assert(hex_filter(ws) == seq![ws[0]] + tail);
                if i == 0 {
                    assert(hex_filter(ws)[0] == ws[0]);
                } else {
                    assert(hex_filter(ws)[i] == tail[i - 1]);
                    assert(is_hex_token(tail[i - 1]));
                }
            } else {
                assert(hex_filter(ws) == tail);
                assert(is_hex_token(tail[i]));
            }
        }
    }
}

/// Law of the tokenizer: for all input text, every extracted token is a
/// length-2 string of base-16 digits. Together with the definition of
/// `hex_tokens_of` (a filter of the words of the text), this states that
/// tokens keep their original relative order and that all other words are
/// dropped.
pub proof fn lemma_hex_tokens_all_hex(s: Seq<char>)
    ensures
        forall|i: int|
            0 <= i < hex_tokens_of(s).len() ==> is_hex_token(#[trigger] hex_tokens_of(s)[i]),
{
    lemma_hex_filter_all_hex(words_of(s));
}

/// Whether `c` is a base-16 digit, executably.
pub(crate) fn hex_digit_exec(c: char) -> (r: bool)
    ensures
        r == is_hex_digit(c),
{
    let u = c as u32;
    (48 <= u && u <= 57) || (97 <= u && u <= 102) || (65 <= u && u <= 70)
}

/// Extracts the two-digit hexadecimal tokens of `text`: splits the text on
/// whitespace, keeps exactly the words that are two base-16 digits, in
/// their original order, and drops every other word silently.
pub fn text_trim(text: &str) -> (r: Vec<String>)
    ensures
        r.deep_view() == hex_tokens_of(text@),
{
    let len = text.unicode_len();
    let mut out: Vec<String> = Vec::new();
    let mut i: usize = 0;
    proof {
        assert(text@.skip(0) =~= text@);
        assert(out.deep_view() + hex_tokens_of(text@) =~= hex_tokens_of(text@));
    }
    while i < len
        invariant
            len == text@.len(),
            i <= len,
            out.deep_view() + hex_filter(words_of(text@.skip(i as int))) == hex_tokens_of(text@),
        decreases len - i,
    {
        if text.get_char(i).is_whitespace() {
            proof {
                assert(text@.skip(i as int).skip(1) =~= text@.skip(i + 1));
            }
            i = i + 1;
        } else {
            let start = i;
            let mut j = i + 1;
            while j < len && !text.get_char(j).is_whitespace()
                invariant
                    len == text@.len(),
                    start < j <= len,
                    forall|k: int| start <= k < j ==> !is_space(text@[k]),
                decreases len - j,
            {
                j = j + 1;
            }
            proof {
                let s = text@.skip(start as int);
                assert forall|k: int| 0 <= k < j - start implies !is_space(s[k]) by {
                    assert(s[k] == text@[start + k]);
                }
                lemma_run_len_exact(s, j - start);
                assert(s.take(j - start) =~= text@.subrange(start as int, j as int));
                assert(s.skip(j - start) =~= text@.skip(j as int));
            }
            let word = text.substring_char(start, j);
            let ghost rest = hex_filter(words_of(text@.skip(j as int)));
            if j - start == 2 && hex_digit_exec(text.get_char(start)) && hex_digit_exec(
                text.get_char(start + 1),
            ) {
                proof {
                    assert(is_hex_token(word@));
                    assert((seq![word@] + words_of(text@.skip(j as int))).skip(1) =~= words_of(
                        text@.skip(j as int),
                    ));
                }
                let owned = word.to_owned();
                out.push(owned);
                proof {
                    assert(out.deep_view() + rest =~= hex_tokens_of(text@));
                }
            } else {
                proof {
                    assert(!is_hex_token(word@));
                    assert((seq![word@] + words_of(text@.skip(j as int))).skip(1) =~= words_of(
                        text@.skip(j as int),
                    ));
                }
            }
            i = j;
        }
    }
    proof {
        assert(text@.skip(len as int) =~= Seq::<char>::empty());
        assert(out.deep_view() =~= hex_tokens_of(text@));
    }
    out
}

proof fn lemma_run_len_exact(s: Seq<char>, m: int)
    requires
        0 <= m <= s.len(),
        forall|k: int| 0 <= k < m ==> !is_space(s[k]),
        m == s.len() || is_space(s[m]),
    ensures
        run_len(s) == m,
    decreases m,
{
    if m == 0 {
    } else {
        assert(!is_space(s[0]));
        assert forall|k: int| 0 <= k < m - 1 implies !is_space(s.skip(1)[k]) by {
            assert(s.skip(1)[k] == s[k + 1]);
        }
        lemma_run_len_exact(s.skip(1), m - 1);
    }
}

} // verus!
