//! Converts textual hex dumps into whitespace-joined decimal text.
//!
//! The pipeline extracts two-digit hexadecimal tokens from raw text,
//! optionally discards a leading sixteen-token address block, assembles
//! consecutive token pairs into signed 16-bit words (the second token of a
//! pair supplies the high byte), and renders the values as space-joined
//! decimal text. An alternate single-byte scheme decodes each token into
//! an unsigned 8-bit value instead. File reading and writing, argument
//! handling and the interactive prompt live outside the library, which
//! works on bytes, decoded text and plain token lists alone.

mod assemble;
mod decode;
mod errors;
mod pipeline;
mod render;
mod text;

pub use crate::assemble::{assemble_bytes, convert_to_hex};
pub use crate::decode::convert_bytes;
pub use crate::errors::ConvertError;
pub use crate::pipeline::{
    convert_inline, convert_text, convert_tokens, interpret_yes_no, parse_mode_selector,
    strip_address_block, AssemblyMode, ModeSelector, ADDRESS_BLOCK_LEN,
};
pub use crate::render::{convert_to_dec_string, convert_to_dec_string_bytes};
pub use crate::text::text_trim;
