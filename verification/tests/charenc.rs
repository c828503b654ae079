use lc3_utp::rpc::charenc::{char_from_bytes, char_to_bytes, Utf8DecodeError};

fn roundtrip(c: char) {
    assert_eq!(c, char_from_bytes(&char_to_bytes(c)).unwrap())
}

#[test]
fn panagram() {
    for c in "Sphinx of black quartz, judge my vow.".chars() {
        roundtrip(c)
    }
}

#[test]
fn emoji() {
    for e in "😄😀🙂😕☹️😴❓🤗🦀❤️".chars() {
        roundtrip(e)
    }
}

#[test]
fn frames_are_padded_with_zeros() {
    assert_eq!([b'A', 0, 0, 0], char_to_bytes('A'));
    assert_eq!([0xC3, 0xA9, 0, 0], char_to_bytes('é'));
    assert_eq!([0xE2, 0x9D, 0x93, 0], char_to_bytes('❓'));
    assert_eq!([0xF0, 0x9F, 0xA6, 0x80], char_to_bytes('🦀'));
    assert_eq!([0, 0, 0, 0], char_to_bytes('\0'));
}

#[test]
fn invalid_frames_are_refused() {
    // a lone continuation byte
    assert_eq!(Err(Some(Utf8DecodeError { valid_up_to: 0 })), char_from_bytes(&[0x80, 0, 0, 0]));
    // a truncated two byte sequence after a valid character
    assert!(char_from_bytes(&[b'a', 0xC3, 0, 0]).is_err());
}
