use mgs2smf::ir::EncodingChoice;
use mgs2smf::parser::loader::decode_bytes;

#[test]
fn shift_jis_decodes_japanese_title() {
    let bytes = b"#title \"\x83\x65\x83\x58\x83\x67\"\r\n1 c\r\n";
    let loaded = decode_bytes(bytes, EncodingChoice::ShiftJis).unwrap();
    assert_eq!(loaded.encoding_used, "shift_jis");
    assert!(loaded.warnings.is_empty());
    assert!(loaded.text.contains("#title \"テスト\""));
    assert!(loaded.text.contains("1 c\n"));
}

#[test]
fn auto_uses_shift_jis_when_utf8_fails() {
    let bytes = b"#title \"\x83\x65\x83\x58\x83\x67\"\n";
    let loaded = decode_bytes(bytes, EncodingChoice::Auto).unwrap();
    assert_eq!(loaded.encoding_used, "shift_jis");
    assert!(loaded.text.contains("テスト"));
}

#[test]
fn comments_are_not_stripped_inside_quotes() {
    let loaded = decode_bytes(
        b"#title \"a;b\" ; comment\n1 c ; comment\n",
        EncodingChoice::Utf8,
    )
    .unwrap();
    assert_eq!(loaded.text, "#title \"a;b\" \n1 c \n");
}
