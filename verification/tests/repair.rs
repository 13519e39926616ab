use chat_export::repair::{demojibake, EncodingRepairError};

const EXAMPLE_DATA: &str = r#"{
    "proper_encoding": "Hello, world! 123",
    "improper_encoding": "cafÃ© ð\u009f\u0098\u0082 naÃ¯ve",
    "fixed_encoding": "café 😂 naïve"
}"#;

fn text_of(document: &serde_json::Value, key: &str) -> String {
    document.get(key).and_then(|value| value.as_str()).expect("a string").to_string()
}

#[test]
fn fix_string_encoding_test() {
    let test_data: serde_json::Value =
        serde_json::from_str(EXAMPLE_DATA).expect("Failed to read from inline JSON");
    let good_string = text_of(&test_data, "proper_encoding");
    let bad_string = text_of(&test_data, "improper_encoding");
    let fixed_string = text_of(&test_data, "fixed_encoding");

    assert_eq!(demojibake(&good_string), Ok(good_string.clone()));
    assert_eq!(demojibake(&bad_string), Ok(fixed_string));
}

#[test]
fn the_fixed_text_is_not_changed_into_a_third() {
    let test_data: serde_json::Value = serde_json::from_str(EXAMPLE_DATA).unwrap();
    let fixed_string = text_of(&test_data, "fixed_encoding");
    match demojibake(&fixed_string) {
        Ok(again) => assert_eq!(again, fixed_string),
        Err(error) => assert_eq!(error, EncodingRepairError::NotLatin1),
    }
}

#[test]
fn ascii_text_is_repaired_to_itself() {
    for text in ["", "a", "Study Group", "tabs\tand\nnewlines", "~!@#$%^&*()_+ 0123456789", "\u{0}\u{7f}"] {
        assert_eq!(demojibake(text), Ok(text.to_string()));
    }
}

#[test]
fn mojibake_is_repaired_to_the_original() {
    assert_eq!(demojibake("h\u{c3}\u{a9}"), Ok("hé".to_string()));
    assert_eq!(demojibake("\u{e2}\u{82}\u{ac}"), Ok("€".to_string()));
    assert_eq!(demojibake("\u{f0}\u{9f}\u{98}\u{82}"), Ok("😂".to_string()));
}

#[test]
fn every_text_survives_corruption_and_repair() {
    for original in ["hé", "naïve café", "日本語", "😂👍", "mixed ascii and ünïcödé"] {
        let corrupted: String = original.bytes().map(|byte| byte as char).collect();
        assert_eq!(demojibake(&corrupted), Ok(original.to_string()));
    }
}

#[test]
fn repaired_text_is_not_repaired_again() {
    assert_eq!(demojibake("hé"), Err(EncodingRepairError::InvalidUtf8));
    assert_eq!(demojibake("café"), Err(EncodingRepairError::InvalidUtf8));
}

#[test]
fn text_beyond_latin1_is_refused() {
    assert_eq!(demojibake("😂"), Err(EncodingRepairError::NotLatin1));
    assert_eq!(demojibake("abc\u{100}"), Err(EncodingRepairError::NotLatin1));
    assert_eq!(demojibake("€"), Err(EncodingRepairError::NotLatin1));
}

#[test]
fn the_last_latin1_character_is_a_byte() {
    // U+00FF is one byte, 0xFF, which no UTF-8 sequence holds.
    assert_eq!(demojibake("\u{ff}"), Err(EncodingRepairError::InvalidUtf8));
    // 0xC3 0xBF is the UTF-8 of U+00FF.
    assert_eq!(demojibake("\u{c3}\u{bf}"), Ok("\u{ff}".to_string()));
}

#[test]
fn malformed_sequences_are_refused() {
    // A lone continuation byte, a truncated sequence, an overlong form and a surrogate.
    assert_eq!(demojibake("\u{80}"), Err(EncodingRepairError::InvalidUtf8));
    assert_eq!(demojibake("\u{e2}\u{82}"), Err(EncodingRepairError::InvalidUtf8));
    assert_eq!(demojibake("\u{c0}\u{80}"), Err(EncodingRepairError::InvalidUtf8));
    assert_eq!(demojibake("\u{ed}\u{a0}\u{80}"), Err(EncodingRepairError::InvalidUtf8));
}
