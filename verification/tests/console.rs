use nasmirror::engine::console::{decode_line, decode_line_with, trim_eol};

#[test]
fn utf8_wins_when_valid() {
    assert_eq!(decode_line("miércoles".as_bytes()), "miércoles");
    assert_eq!(decode_line(b""), "");
}

#[test]
fn falls_back_to_the_oem_codepage() {
    // 0x82 is "é" in CP850 and invalid as a lone UTF-8 byte.
    let decoded = decode_line(&[b'm', b'i', 0x82, b'r']);
    assert!(decoded.starts_with("mi"));
    assert!(!decoded.contains('\u{fffd}'));
}

#[test]
fn trims_crlf() {
    assert_eq!(trim_eol(b"hello\r\n"), b"hello");
    assert_eq!(trim_eol(b"hello"), b"hello");
}

#[test]
fn oem_fallback_reads_cp850_letters() {
    assert_eq!(decode_line(&[b'm', b'i', 0x82, b'r']), "miér");
    assert_eq!(decode_line(&[0xA4, b'o']), "ño");
}

#[test]
fn trims_lone_newline_and_carriage_return() {
    assert_eq!(trim_eol(b"a\n"), b"a");
    assert_eq!(trim_eol(b"a\r"), b"a");
    assert_eq!(trim_eol(b"\r\n"), b"");
    assert_eq!(trim_eol(b""), b"");
}

fn marker(_: &[u8]) -> String {
    "oem".to_string()
}

#[test]
fn the_oem_decoder_is_used_only_for_invalid_utf8() {
    assert_eq!(decode_line_with("héllo".as_bytes(), &marker), "héllo");
    assert_eq!(decode_line_with(&[0x82], &marker), "oem");
}
