use java_asm::err::AsmErr;
use java_asm::mutf8::{mutf8_to_string, mutf8_to_utf8, utf8_to_mutf8};

#[test]
fn ascii_is_unchanged() {
    assert_eq!(mutf8_to_utf8(b"hello").unwrap(), b"hello".to_vec());
    assert_eq!(utf8_to_mutf8(b"hello").unwrap(), b"hello".to_vec());
    assert_eq!(mutf8_to_utf8(b"").unwrap(), Vec::<u8>::new());
}

#[test]
fn null_is_two_bytes_in_mutf8() {
    assert_eq!(utf8_to_mutf8(&[b'a', 0, b'b']).unwrap(), vec![b'a', 0xC0, 0x80, b'b']);
    assert_eq!(mutf8_to_utf8(&[b'a', 0xC0, 0x80, b'b']).unwrap(), vec![b'a', 0, b'b']);
}

#[test]
fn two_and_three_byte_forms_are_kept() {
    let text = "é€中";
    let m = utf8_to_mutf8(text.as_bytes()).unwrap();
    assert_eq!(m, text.as_bytes().to_vec());
    assert_eq!(mutf8_to_utf8(&m).unwrap(), text.as_bytes().to_vec());
    assert_eq!(mutf8_to_string(&m).unwrap(), text);
}

#[test]
fn four_byte_form_becomes_six_bytes() {
    // U+1F600 is F0 9F 98 80 in UTF-8 and the surrogate pair D83D DE00 in UTF-16, whose
    // halves are written ED A0 BD and ED B8 80.
    let m = utf8_to_mutf8("\u{1F600}".as_bytes()).unwrap();
    assert_eq!(m, vec![0xED, 0xA0, 0xBD, 0xED, 0xB8, 0x80]);
    assert!(!m.contains(&0));
    assert!(m.iter().all(|b| *b < 0xF0));
}

#[test]
fn six_byte_form_becomes_four_bytes() {
    assert_eq!(mutf8_to_utf8(&[0xED, 0xA0, 0xBD, 0xED, 0xB8, 0x80]).unwrap(), vec![0xF0, 0x9F, 0x98, 0x80]);
    // D801 DC00 is U+10400, F0 90 90 80 in UTF-8.
    assert_eq!(mutf8_to_utf8(&[0xED, 0xA0, 0x81, 0xED, 0xB0, 0x80]).unwrap(), vec![0xF0, 0x90, 0x90, 0x80]);
}

#[test]
fn only_c0_80_reads_back_as_null() {
    // U+0080 is C2 80, which stays as it is both ways; only C0 80 is the null character.
    let m = utf8_to_mutf8("\u{80}".as_bytes()).unwrap();
    assert_eq!(m, vec![0xC2, 0x80]);
    assert_eq!(mutf8_to_utf8(&m).unwrap(), vec![0xC2, 0x80]);
    assert_eq!(mutf8_to_utf8(&[0xC0, 0x80]).unwrap(), vec![0x00]);
}

#[test]
fn supplementary_characters_round_trip() {
    for text in ["\u{1F600}", "\u{10000}", "\u{10FFFF}", "a\u{1D11E}b"] {
        let m = utf8_to_mutf8(text.as_bytes()).unwrap();
        assert_eq!(mutf8_to_utf8(&m).unwrap(), text.as_bytes().to_vec());
        assert_eq!(mutf8_to_string(&m).unwrap(), text);
    }
}

#[test]
fn unknown_first_bytes_are_errors() {
    assert_eq!(mutf8_to_utf8(&[0x80, 0x80, 0x80]), Err(AsmErr::ReadMUTF8(0x80)));
    assert_eq!(mutf8_to_utf8(&[b'a', 0xF8, 0x80, 0x80]), Err(AsmErr::ReadMUTF8(0xF8)));
    assert_eq!(utf8_to_mutf8(&[0xF8, 0x80, 0x80, 0x80]), Err(AsmErr::ReadUTF8Byte(0xF8)));
    assert_eq!(utf8_to_mutf8(&[0x80, 0x80, 0x80]), Err(AsmErr::ReadUTF8Byte(0x80)));
}

#[test]
fn invalid_utf8_is_not_a_string() {
    // C0 81 stays as it is, and is no valid UTF-8.
    assert_eq!(mutf8_to_string(&[0xC0, 0x81]), Err(AsmErr::ReadUTF8));
}

#[test]
fn roundtrip_of_mixed_text() {
    let text = "a\u{0}é€z";
    let m = utf8_to_mutf8(text.as_bytes()).unwrap();
    assert!(!m.contains(&0));
    assert_eq!(mutf8_to_utf8(&m).unwrap(), text.as_bytes().to_vec());
}
