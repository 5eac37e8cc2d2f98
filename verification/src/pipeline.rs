//! Pipeline orchestrator: tokenizer, address stripping, assembly and
//! serialization in sequence, and the inline token-list entry point.
//!
//! The file path handling, the interactive prompt and all file reading
//! and writing live outside the library; the pipeline works on decoded
//! text, raw bytes and plain token lists alone.

use crate::assemble::{
    all_hex_tokens, assemble_bytes, assembled_words, byte_values, convert_to_hex,
};
use crate::errors::ConvertError;
use crate::render::{convert_to_dec_string, convert_to_dec_string_bytes, joined};
use crate::text::{hex_tokens_of, is_hex_token, lemma_hex_tokens_all_hex, text_trim};
use vstd::prelude::*;
use vstd::string::StrSliceExecFns;

verus! {

/// The number of tokens of the fixed-width address header row that the
/// dump format places at the top of a dump.
pub const ADDRESS_BLOCK_LEN: usize = 16;

/// The assembly strategy: independent unsigned bytes, or byte-swapped
/// signed 16-bit words.
#[derive(Clone, Copy, Debug, PartialEq, Eq, Structural)]
pub enum AssemblyMode {
    /// Each token is one unsigned 8-bit value.
    UnsignedByte,
    /// Consecutive token pairs form one signed 16-bit word; the second
    /// token of a pair supplies the high byte.
    SignedWordSwap,
}

/// Discards the leading address block when `enabled`: removes exactly the
/// first sixteen tokens. Fails with `InsufficientTokens` if fewer than
/// sixteen tokens are present; it never silently returns a shortened
/// result. When disabled, returns the tokens unchanged.
pub fn strip_address_block(tokens: &Vec<String>, enabled: bool) -> (r: Result<
    Vec<String>,
    ConvertError,
>)
    ensures
        r is Ok <==> (!enabled || tokens.deep_view().len() >= ADDRESS_BLOCK_LEN),
        enabled && tokens.deep_view().len() < ADDRESS_BLOCK_LEN ==> r == Err::<
            Vec<String>,
            ConvertError,
        >(ConvertError::InsufficientTokens),
        !enabled ==> (r matches Ok(v) && v.deep_view() == tokens.deep_view()),
        enabled && tokens.deep_view().len() >= ADDRESS_BLOCK_LEN ==> (r matches Ok(v)
            && v.deep_view() == tokens.deep_view().skip(ADDRESS_BLOCK_LEN as int)),
{
    let ghost toks = tokens.deep_view();
    let len = tokens.len();
    let start: usize = if enabled {
        if len < ADDRESS_BLOCK_LEN {
            return Err(ConvertError::InsufficientTokens);
        }
        ADDRESS_BLOCK_LEN
    } else {
        0
    };
    let mut out: Vec<String> = Vec::new();
    let mut i: usize = start;
    while i < len
        invariant
            len == tokens@.len(),
            toks == tokens.deep_view(),
            start <= i <= len,
            out.deep_view() == toks.subrange(start as int, i as int),
        decreases len - i,
    {
        let ghost prev = out.deep_view();
        out.push(tokens[i].clone());
        proof {
            assert(out.deep_view() =~= prev.push(toks[i as int]));
            assert(out.deep_view() =~= toks.subrange(start as int, i + 1));
        }
        i = i + 1;
    }
    proof {
        if start == 0 {
            assert(toks.subrange(0, len as int) =~= toks);
        } else {
            assert(toks.subrange(start as int, len as int) =~= toks.skip(start as int));
        }
    }
    Ok(out)
}

/// The outcome the file-conversion pipeline owes for decoded text `text`:
/// its hex tokens, less the address block when `strip_address` is set,
/// assembled pairwise into signed words and rendered as space-joined
/// decimal text.
pub open spec fn pipeline_spec(text: Seq<char>, strip_address: bool) -> Result<
    Seq<char>,
    ConvertError,
> {
    let toks = hex_tokens_of(text);
    if strip_address && toks.len() < ADDRESS_BLOCK_LEN {
        Err(ConvertError::InsufficientTokens)
    } else {
        let kept = if strip_address {
            toks.skip(ADDRESS_BLOCK_LEN as int)
        } else {
            toks
        };
        if kept.len() % 2 != 0 {
            Err(ConvertError::OddTokenCount)
        } else {
            Ok(joined(assembled_words(kept)))
        }
    }
}

/// Runs the full pipeline on decoded text: extracts the hex tokens,
/// optionally strips the sixteen-token address block, assembles token
/// pairs into signed 16-bit words and renders them as space-joined
/// decimal text.
pub fn convert_text(text: &str, strip_address: bool) -> (r: Result<String, ConvertError>)
    ensures
        r is Ok <==> pipeline_spec(text@, strip_address) is Ok,
        r matches Ok(s) ==> pipeline_spec(text@, strip_address) == Ok::<Seq<char>, ConvertError>(
            s@,
        ),
        r matches Err(e) ==> pipeline_spec(text@, strip_address) == Err::<Seq<char>, ConvertError>(
            e,
        ),
{
    let tokens = text_trim(text);
    proof {
        lemma_hex_tokens_all_hex(text@);
    }
    let kept = match strip_address_block(&tokens, strip_address) {
        Ok(v) => v,
        Err(e) => {
            return Err(e);
        },
    };
    proof {
        let toks = hex_tokens_of(text@);
        assert forall|i: int| 0 <= i < kept.deep_view().len() implies is_hex_token(
            #[trigger] kept.deep_view()[i],
        ) by {
            if strip_address {
                assert(kept.deep_view()[i] == toks[i + ADDRESS_BLOCK_LEN as int]);
            } else {
                assert(kept.deep_view()[i] == toks[i]);
            }
        }
    }
    let words = match convert_to_hex(&kept) {
        Ok(v) => v,
        Err(e) => {
            return Err(e);
        },
    };
    Ok(convert_to_dec_string(&words))
}

/// The outcome inline conversion owes for a pre-split token list under a
/// given assembly mode.
pub open spec fn inline_spec(toks: Seq<Seq<char>>, mode: AssemblyMode) -> Result<
    Seq<char>,
    ConvertError,
> {
    match mode {
        AssemblyMode::SignedWordSwap => {
            if toks.len() % 2 != 0 {
                Err(ConvertError::OddTokenCount)
            } else if !all_hex_tokens(toks) {
                Err(ConvertError::MalformedToken)
            } else {
                Ok(joined(assembled_words(toks)))
            }
        },
        AssemblyMode::UnsignedByte => {
            if !all_hex_tokens(toks) {
                Err(ConvertError::MalformedToken)
            } else {
                Ok(joined(byte_values(toks)))
            }
        },
    }
}

/// Converts a pre-split token list under the chosen assembly strategy:
/// the tokens are assembled and rendered directly, with no tokenizing and
/// no address stripping.
pub fn convert_tokens(tokens: &Vec<String>, mode: AssemblyMode) -> (r: Result<
    String,
    ConvertError,
>)
    ensures
        r is Ok <==> inline_spec(tokens.deep_view(), mode) is Ok,
        r matches Ok(s) ==> inline_spec(tokens.deep_view(), mode) == Ok::<Seq<char>, ConvertError>(
            s@,
        ),
        r matches Err(e) ==> inline_spec(tokens.deep_view(), mode) == Err::<
            Seq<char>,
            ConvertError,
        >(e),
{
    match mode {
        AssemblyMode::SignedWordSwap => {
            match convert_to_hex(tokens) {
                Ok(words) => Ok(convert_to_dec_string(&words)),
                Err(e) => Err(e),
            }
        },
        AssemblyMode::UnsignedByte => {
            match assemble_bytes(tokens) {
                Ok(bytes) => Ok(convert_to_dec_string_bytes(&bytes)),
                Err(e) => Err(e),
            }
        },
    }
}

/// Converts a list of user-typed hex tokens into decimal text with the
/// paired signed-word scheme, the inline entry point of the pipeline.
pub fn convert_inline(tokens: &Vec<String>) -> (r: Result<String, ConvertError>)
    ensures
        r is Ok <==> inline_spec(tokens.deep_view(), AssemblyMode::SignedWordSwap) is Ok,
        r matches Ok(s) ==> inline_spec(tokens.deep_view(), AssemblyMode::SignedWordSwap) == Ok::<
            Seq<char>,
            ConvertError,
        >(s@),
        r matches Err(e) ==> inline_spec(tokens.deep_view(), AssemblyMode::SignedWordSwap) == Err::<
            Seq<char>,
            ConvertError,
        >(e),
{
    convert_tokens(tokens, AssemblyMode::SignedWordSwap)
}

/// The modes the interactive command surface can select.
#[derive(Clone, Copy, Debug, PartialEq, Eq, Structural)]
pub enum ModeSelector {
    /// `f`: convert a file of dump text into a file of decimal text.
    FileConversion,
    /// `d`: convert typed hex tokens into decimal text directly.
    InlineConversion,
}

/// Interprets the first word of an interactive command line: `f` selects
/// file conversion, `d` inline conversion; any other word is rejected
/// with `InvalidModeSelector`.
pub fn parse_mode_selector(word: &str) -> (r: Result<ModeSelector, ConvertError>)
    ensures
        r == (if word@ == seq!['f'] {
            Ok::<ModeSelector, ConvertError>(ModeSelector::FileConversion)
        } else if word@ == seq!['d'] {
            Ok::<ModeSelector, ConvertError>(ModeSelector::InlineConversion)
        } else {
            Err::<ModeSelector, ConvertError>(ConvertError::InvalidModeSelector)
        }),
{
    if word.unicode_len() == 1 {
        let c = word.get_char(0);
        if c == 'f' {
            proof {
                assert(word@ =~= seq!['f']);
            }
            Ok(ModeSelector::FileConversion)
        } else if c == 'd' {
            proof {
                assert(word@ =~= seq!['d']);
            }
            Ok(ModeSelector::InlineConversion)
        } else {
            Err(ConvertError::InvalidModeSelector)
        }
    } else {
        Err(ConvertError::InvalidModeSelector)
    }
}

/// Interprets a single character of a yes/no prompt answer: `y` means
/// yes, `n` means no, anything else is not an answer and the prompt is to
/// be repeated.
pub fn interpret_yes_no(c: char) -> (r: Option<bool>)
    ensures
        r == (if c == 'y' {
            Some(true)
        } else if c == 'n' {
            Some(false)
        } else {
            None::<bool>
        }),
{
    if c == 'y' {
        Some(true)
    } else if c == 'n' {
        Some(false)
    } else {
        None
    }
}

} // verus!
