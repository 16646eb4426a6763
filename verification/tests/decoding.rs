use pieshell::decode::{char_width, decode_all, decode_char_bytes, frame_line, DecodeError};

fn chars(s: &str) -> Vec<char> {
    s.chars().collect()
}

#[test]
fn width_classifies_lead_bytes() {
    assert_eq!(char_width(0x24), Some(1));
    assert_eq!(char_width(0x7F), Some(1));
    assert_eq!(char_width(0xC3), Some(2));
    assert_eq!(char_width(0xE2), Some(3));
    assert_eq!(char_width(0xF0), Some(4));
    assert_eq!(char_width(0x80), None);
    assert_eq!(char_width(0xF8), None);
    assert_eq!(char_width(0xFF), None);
}

#[test]
fn decodes_single_characters() {
    assert_eq!(decode_char_bytes(&vec![0x24]), Ok('$'));
    assert_eq!(decode_char_bytes(&vec![0xC3, 0xA9]), Ok('é'));
    assert_eq!(decode_char_bytes(&vec![0xE2, 0x82, 0xAC]), Ok('€'));
    assert_eq!(decode_char_bytes(&vec![0xF0, 0x9F, 0x98, 0x80]), Ok('😀'));
}

#[test]
fn decodes_ascii_stream() {
    let r = decode_all(&b"ls -la".to_vec()).unwrap();
    assert_eq!(r, chars("ls -la"));
}

#[test]
fn decodes_multibyte_stream_like_std() {
    let text = "héllo wörld €😀";
    let r = decode_all(&text.as_bytes().to_vec()).unwrap();
    assert_eq!(r, chars(text));
}

#[test]
fn empty_stream_decodes_to_nothing() {
    let r = decode_all(&Vec::new()).unwrap();
    assert!(r.is_empty());
}

#[test]
fn truncated_two_byte_character_fails() {
    assert_eq!(decode_all(&vec![0xC3]), Err(DecodeError::Truncated));
}

#[test]
fn truncated_character_after_valid_prefix_fails() {
    let mut bytes = b"ab".to_vec();
    bytes.extend_from_slice(&[0xF0, 0x9F]);
    assert_eq!(decode_all(&bytes), Err(DecodeError::Truncated));
}

#[test]
fn stray_continuation_byte_fails() {
    assert_eq!(decode_all(&vec![0x80]), Err(DecodeError::InvalidLead));
}

#[test]
fn overlong_encoding_fails() {
    assert_eq!(decode_all(&vec![0xC0, 0x80]), Err(DecodeError::Invalid));
}

#[test]
fn surrogate_encoding_fails() {
    assert_eq!(decode_all(&vec![0xED, 0xA0, 0x80]), Err(DecodeError::Invalid));
}

#[test]
fn bad_continuation_byte_fails() {
    assert_eq!(decode_all(&vec![0xC3, 0x28]), Err(DecodeError::Invalid));
}

#[test]
fn framing_appends_newline_to_valid_text() {
    let framed = frame_line(&b"Welcome to the shell".to_vec()).unwrap();
    assert_eq!(framed, b"Welcome to the shell\n".to_vec());
}

#[test]
fn framing_refuses_invalid_text() {
    assert!(frame_line(&vec![0xC3]).is_none());
    assert!(frame_line(&vec![0xFF, 0x20]).is_none());
}
