//! The SSA embedded-data encoding, and subtitle text decode/detection.

use media_core::encoding::DecodeResult;
use media_core::encoding::DetectResult;
use media_core::encoding::decode_bytes_as;
use media_core::encoding::decode_or_detect_bytes;
use media_core::subset::ssa_encode;

#[test]
fn ssa_encode_small_inputs() {
    assert_eq!(ssa_encode(&[]), "");
    // three zero bytes: four zero groups, offset 33 = '!'
    assert_eq!(ssa_encode(&[0, 0, 0]), "!!!!");
    // all ones: four groups of 63, offset 33 = '`'
    assert_eq!(ssa_encode(&[0xff, 0xff, 0xff]), "````");
    // a single zero byte yields two groups
    assert_eq!(ssa_encode(&[0]), "!!");
    // two zero bytes yield three groups
    assert_eq!(ssa_encode(&[0, 0]), "!!!");
}

#[test]
fn ssa_encode_splits_six_bit_groups() {
    // 0x04 0x10 0x41 = 000001 000001 000001 000001
    assert_eq!(ssa_encode(&[0x04, 0x10, 0x41]), "\"\"\"\"");
    // remainder of one byte: 0x04 -> val 0x0400: groups 1, 0
    assert_eq!(ssa_encode(&[0x04]), "\"!");
}

#[test]
fn ssa_encode_wraps_at_80_columns() {
    // 60 input bytes = 80 output characters: the newline lands after the
    // 80th and nothing follows it
    let input = vec![0u8; 60];
    let out = ssa_encode(&input);
    assert_eq!(out.len(), 81);
    assert!(out.ends_with('\n'));
    assert!(out[..80].chars().all(|c| c == '!'));
    // one more chunk continues on the next line
    let input = vec![0u8; 63];
    let out = ssa_encode(&input);
    assert_eq!(out.len(), 85);
    assert_eq!(&out[80..81], "\n");
}

#[test]
fn decode_utf8_by_default() {
    match decode_bytes_as(&b"hello".to_vec(), None) {
        DecodeResult::Decoded(s) => assert_eq!(s, "hello"),
        DecodeResult::Error(_) => panic!("expected a decode"),
    }
}

#[test]
fn decode_with_label() {
    match decode_bytes_as(&vec![0xe9], Some(&b"latin1".to_vec())) {
        DecodeResult::Decoded(s) => assert_eq!(s, "\u{e9}"),
        DecodeResult::Error(_) => panic!("expected a decode"),
    }
    match decode_bytes_as(&b"x".to_vec(), Some(&b"no-such-encoding".to_vec())) {
        DecodeResult::Decoded(_) => panic!("expected an error"),
        DecodeResult::Error(e) => assert_eq!(e, "invalid encoding"),
    }
}

#[test]
fn detection_flags_utf16_and_foreign_encodings() {
    // UTF-16LE byte-order mark
    let utf16 = vec![0xff, 0xfe, b'a', 0, b'b', 0];
    assert!(matches!(decode_or_detect_bytes(&utf16), DetectResult::Strange(())));
    // UTF-16BE byte-order mark
    let utf16be = vec![0xfe, 0xff, 0, b'a'];
    assert!(matches!(decode_or_detect_bytes(&utf16be), DetectResult::Strange(())));
    // plain ASCII decodes as UTF-8
    match decode_or_detect_bytes(&b"plain text".to_vec()) {
        DetectResult::Normal(s) => assert_eq!(s, "plain text"),
        _ => panic!("expected normal text"),
    }
    // valid UTF-8 with non-ASCII stays normal
    match decode_or_detect_bytes(&"caf\u{e9}".as_bytes().to_vec()) {
        DetectResult::Normal(s) => assert_eq!(s, "caf\u{e9}"),
        _ => panic!("expected normal text"),
    }
    // single-byte-encoded text that is not valid UTF-8 is strange
    let latin1 = vec![
        b'c', b'a', b'f', 0xe9, b' ', b'c', b'r', 0xe8, b'm', b'e', b' ', b'b', b'r',
        0xfb, b'l', 0xe9, b'e',
    ];
    assert!(matches!(decode_or_detect_bytes(&latin1), DetectResult::Strange(())));
}
