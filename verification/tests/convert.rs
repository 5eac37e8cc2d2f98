use hexdec::{
    assemble_bytes, convert_bytes, convert_inline, convert_text, convert_to_dec_string,
    convert_to_dec_string_bytes, convert_to_hex, convert_tokens, interpret_yes_no,
    parse_mode_selector,
    strip_address_block, text_trim, AssemblyMode, ConvertError, ModeSelector,
};

fn tokens(words: &[&str]) -> Vec<String> {
    words.iter().map(|w| w.to_string()).collect()
}

#[test]
fn test_text_trim() {
    assert!(text_trim("00").len() == 1);
    assert!(text_trim("rr").is_empty());
    assert!(text_trim("hrtyhs").is_empty());
    assert!(text_trim("ac").len() == 1);
}

#[test]
fn text_trim_keeps_hex_pairs_in_order() {
    assert_eq!(text_trim("00 ax cd 1"), tokens(&["00", "cd"]));
}

#[test]
fn text_trim_drops_sign_prefixed_words() {
    // A leading sign parses as a byte for the standard library, but it is
    // not a pair of base-16 digits.
    assert_eq!(text_trim("+f 0a"), tokens(&["0a"]));
}

#[test]
fn text_trim_splits_on_any_whitespace() {
    assert_eq!(
        text_trim("00\t01\nab  cd\r\nef"),
        tokens(&["00", "01", "ab", "cd", "ef"])
    );
    assert_eq!(text_trim(""), Vec::<String>::new());
    assert_eq!(text_trim("   \t\n"), Vec::<String>::new());
}

#[test]
fn text_trim_is_case_insensitive() {
    assert_eq!(text_trim("aF Fa 9C"), tokens(&["aF", "Fa", "9C"]));
}

#[test]
fn strip_removes_exactly_first_sixteen() {
    let input: Vec<String> = (0..20).map(|i| format!("{:02x}", i)).collect();
    let stripped = strip_address_block(&input, true).unwrap();
    assert_eq!(stripped.len(), 4);
    assert_eq!(stripped, input[16..20].to_vec());
}

#[test]
fn strip_disabled_returns_input_unchanged() {
    let input = tokens(&["00", "01"]);
    assert_eq!(strip_address_block(&input, false).unwrap(), input);
}

#[test]
fn strip_too_short_fails_with_insufficient_tokens() {
    let input: Vec<String> = (0..15).map(|i| format!("{:02x}", i)).collect();
    assert_eq!(
        strip_address_block(&input, true),
        Err(ConvertError::InsufficientTokens)
    );
    assert_eq!(
        strip_address_block(&Vec::new(), true),
        Err(ConvertError::InsufficientTokens)
    );
}

#[test]
fn paired_assembly_swaps_bytes() {
    assert_eq!(convert_to_hex(&tokens(&["34", "12"])), Ok(vec![4660]));
    assert_eq!(convert_to_hex(&tokens(&["ff", "ff"])), Ok(vec![-1]));
    assert_eq!(convert_to_hex(&tokens(&["00", "80"])), Ok(vec![-32768]));
}

#[test]
fn paired_assembly_of_empty_list_is_empty() {
    assert_eq!(convert_to_hex(&Vec::new()), Ok(Vec::new()));
}

#[test]
fn odd_token_count_fails() {
    assert_eq!(
        convert_to_hex(&tokens(&["34", "12", "ff"])),
        Err(ConvertError::OddTokenCount)
    );
    assert_eq!(
        convert_to_hex(&tokens(&["34"])),
        Err(ConvertError::OddTokenCount)
    );
}

#[test]
fn malformed_token_fails() {
    assert_eq!(
        convert_to_hex(&tokens(&["zz", "11"])),
        Err(ConvertError::MalformedToken)
    );
    assert_eq!(
        convert_to_hex(&tokens(&["11", "123"])),
        Err(ConvertError::MalformedToken)
    );
    assert_eq!(
        assemble_bytes(&tokens(&["g0"])),
        Err(ConvertError::MalformedToken)
    );
}

#[test]
fn byte_assembly_has_no_pairing() {
    assert_eq!(
        assemble_bytes(&tokens(&["ff", "7f", "00"])),
        Ok(vec![255, 127, 0])
    );
}

#[test]
fn serializer_renders_empty_and_values() {
    assert_eq!(convert_to_dec_string(&vec![]), "");
    assert_eq!(convert_to_dec_string(&vec![4660, -1]), "4660 -1");
    assert_eq!(convert_to_dec_string(&vec![-32768, 0, 32767]), "-32768 0 32767");
    assert_eq!(convert_to_dec_string_bytes(&vec![255, 0, 16]), "255 0 16");
}

#[test]
fn end_to_end_file_text_with_address_strip() {
    let text = "00 01 02 03 04 05 06 07 08 09 0a 0b 0c 0d 0e 0f 34 12";
    assert_eq!(convert_text(text, true), Ok("4660".to_string()));
    let bytes = text.as_bytes().to_vec();
    assert_eq!(convert_bytes(&bytes, true), Ok("4660".to_string()));
}

#[test]
fn end_to_end_inline() {
    assert_eq!(
        convert_inline(&tokens(&["ff", "7f"])),
        Ok("32767".to_string())
    );
}

#[test]
fn convert_tokens_byte_mode() {
    assert_eq!(
        convert_tokens(&tokens(&["ff", "7f"]), AssemblyMode::UnsignedByte),
        Ok("255 127".to_string())
    );
    assert_eq!(
        convert_tokens(&tokens(&["ff", "7f"]), AssemblyMode::SignedWordSwap),
        Ok("32767".to_string())
    );
    assert_eq!(
        convert_tokens(&tokens(&["ff"]), AssemblyMode::UnsignedByte),
        Ok("255".to_string())
    );
}

#[test]
fn convert_text_propagates_errors() {
    assert_eq!(convert_text("00 01", true), Err(ConvertError::InsufficientTokens));
    let seventeen = "00 01 02 03 04 05 06 07 08 09 0a 0b 0c 0d 0e 0f 34";
    assert_eq!(convert_text(seventeen, true), Err(ConvertError::OddTokenCount));
    assert_eq!(convert_text("", false), Ok(String::new()));
}

#[test]
fn legacy_decode_reads_shift_jis_whitespace() {
    // 0x81 0x40 is the ideographic space in Shift-JIS; decoded properly it
    // separates the two tokens. Read as raw bytes it would glue them into
    // one word that the tokenizer drops.
    let bytes = vec![b'f', b'f', 0x81, 0x40, b'7', b'f'];
    assert_eq!(convert_bytes(&bytes, false), Ok("32767".to_string()));
}

#[test]
fn mode_selector_words() {
    assert_eq!(parse_mode_selector("f"), Ok(ModeSelector::FileConversion));
    assert_eq!(parse_mode_selector("d"), Ok(ModeSelector::InlineConversion));
    assert_eq!(
        parse_mode_selector("x"),
        Err(ConvertError::InvalidModeSelector)
    );
    assert_eq!(
        parse_mode_selector("fd"),
        Err(ConvertError::InvalidModeSelector)
    );
    assert_eq!(
        parse_mode_selector(""),
        Err(ConvertError::InvalidModeSelector)
    );
}

#[test]
fn yes_no_answers() {
    assert_eq!(interpret_yes_no('y'), Some(true));
    assert_eq!(interpret_yes_no('n'), Some(false));
    assert_eq!(interpret_yes_no('q'), None);
}
