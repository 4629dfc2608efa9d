use epgrab::dvbtext::decode_dvb_text;

#[test]
fn test_decode_dvb_text_empty() {
    assert_eq!(decode_dvb_text(&[]), "");
}

#[test]
fn test_decode_dvb_text_utf8() {
    // 0x15 prefix = UTF-8
    let data = [0x15, b'H', b'e', b'l', b'l', b'o'];
    assert_eq!(decode_dvb_text(&data), "Hello");
}

#[test]
fn test_decode_dvb_text_utf8_with_cjk() {
    // 0x15 prefix = UTF-8, followed by "テスト" in UTF-8
    let mut data = vec![0x15];
    data.extend_from_slice("テスト".as_bytes());
    assert_eq!(decode_dvb_text(&data), "テスト");
}

#[test]
fn test_decode_dvb_text_default_table() {
    // Bytes 0x20..=0xFF use default table (ISO 6937)
    let data = b"Hello World";
    assert_eq!(decode_dvb_text(data), "Hello World");
}

#[test]
fn test_decode_dvb_text_strips_control_chars() {
    // UTF-16 BE (0x11 prefix) with C1 control chars embedded
    // U+0086 (emphasis on) and U+0087 (emphasis off) as UTF-16 BE
    let data = [
        0x11, // UCS-2
        0x00, 0x41, // 'A'
        0x00, 0x86, // U+0086 (should be stripped)
        0x00, 0x42, // 'B'
        0x00, 0x87, // U+0087 (should be stripped)
        0x00, 0x43, // 'C'
    ];
    assert_eq!(decode_dvb_text(&data), "ABC");
}

#[test]
fn test_decode_dvb_text_strips_c0_controls() {
    // Default encoding with C0 control chars (0x01-0x1F except 0x0A)
    // 0x15 prefix (UTF-8), then text with tab (0x09) which should be stripped
    let data = [0x15, b'A', 0x09, b'B'];
    assert_eq!(decode_dvb_text(&data), "AB");
}

#[test]
fn test_decode_dvb_text_keeps_newline() {
    let data = [0x15, b'A', 0x0A, b'B'];
    assert_eq!(decode_dvb_text(&data), "A\nB");
}

#[test]
fn test_decode_dvb_text_utf16_be() {
    // 0x14 = Big5 subset / UTF-16 BE
    // "Hi" in UTF-16 BE: 0x00 0x48 0x00 0x69
    let data = [0x14, 0x00, 0x48, 0x00, 0x69];
    assert_eq!(decode_dvb_text(&data), "Hi");
}

#[test]
fn test_decode_dvb_text_utf16_too_short() {
    let data = [0x14, 0x00]; // only 2 bytes total, too short
    assert_eq!(decode_dvb_text(&data), "");
}

#[test]
fn test_decode_dvb_text_iso8859_prefix() {
    // 0x01..=0x05 skip one byte prefix
    let data = [0x01, b'T', b'e', b's', b't'];
    assert_eq!(decode_dvb_text(&data), "Test");
}

#[test]
fn test_decode_dvb_text_iso8859_n() {
    // 0x10 + 2 more bytes = 3-byte prefix for ISO 8859-N
    let data = [0x10, 0x00, 0x01, b'A', b'B', b'C'];
    assert_eq!(decode_dvb_text(&data), "ABC");
}

#[test]
fn test_decode_dvb_text_iso8859_n_too_short() {
    let data = [0x10, 0x00, 0x01]; // exactly 3 bytes, no text
    assert_eq!(decode_dvb_text(&data), "");
}

#[test]
fn test_decode_dvb_text_ucs2() {
    // 0x11 = UCS-2 (ISO/IEC 10646 BMP)
    let data = [0x11, 0x00, 0x41, 0x00, 0x42]; // "AB"
    assert_eq!(decode_dvb_text(&data), "AB");
}

#[test]
fn test_decode_dvb_text_unknown_prefix() {
    // 0x06..=0x0F are unhandled → empty
    assert_eq!(decode_dvb_text(&[0x06]), "");
    assert_eq!(decode_dvb_text(&[0x0F]), "");
}

#[test]
fn test_decode_dvb_text_strips_pua_remapped_controls() {
    // U+E08A (Private Use Area remapping of the line-break control) as
    // UTF-16 BE between letters
    let data = [0x11, 0x00, 0x41, 0xE0, 0x8A, 0x00, 0x42];
    assert_eq!(decode_dvb_text(&data), "AB");
}

#[test]
fn test_decode_dvb_text_strips_delete() {
    let data = [0x15, b'A', 0x7F, b'B'];
    assert_eq!(decode_dvb_text(&data), "AB");
}

#[test]
fn test_decode_dvb_text_no_control_code_points_survive() {
    // feed every byte value through the default table and check the output
    let mut data: Vec<u8> = vec![0x15];
    for b in 0u8..=255 {
        data.push(b);
    }
    let out = decode_dvb_text(&data);
    for c in out.chars() {
        let cp = c as u32;
        assert!(cp == 0x0A || !(cp <= 0x1F || cp == 0x7F || (0x80..=0x9F).contains(&cp)
            || (0xE080..=0xE09F).contains(&cp)));
    }
}
