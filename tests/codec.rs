use b64wasm::{decode3, decode4, encode3, encode4, validate_utf8, CodecError};

const SAMPLES: [&str; 7] = ["", "M", "Ma", "Man", "hello, world", "héllo wörld ✓", "emoji 🎉 and 中文"];

fn is_malformed(r: &Result<String, CodecError>) -> bool {
    matches!(r, Err(CodecError::MalformedEncoding(_)))
}

fn is_invalid_utf8(r: &Result<String, CodecError>) -> bool {
    matches!(r, Err(CodecError::InvalidUtf8(_)))
}

#[test]
fn standard_concrete_vectors() {
    assert_eq!(encode3("Man"), "TWFu");
    assert_eq!(decode3("TWFu").unwrap(), "Man");
    assert_eq!(encode3(""), "");
    assert_eq!(decode3("").unwrap(), "");
}

#[test]
fn alternate_concrete_vectors() {
    assert_eq!(encode4("Man"), "TWFu");
    assert_eq!(decode4("TWFu").unwrap(), "Man");
    assert_eq!(encode4(""), "");
    assert_eq!(decode4("").unwrap(), "");
}

#[test]
fn padding_of_short_groups() {
    assert_eq!(encode3("M"), "TQ==");
    assert_eq!(encode3("Ma"), "TWE=");
    assert_eq!(encode4("M"), "TQ==");
    assert_eq!(encode4("Ma"), "TWE=");
    assert_eq!(decode3("TQ==").unwrap(), "M");
    assert_eq!(decode4("TWE=").unwrap(), "Ma");
}

#[test]
fn longer_vector() {
    assert_eq!(encode3("hello, world"), "aGVsbG8sIHdvcmxk");
    assert_eq!(encode4("hello, world"), "aGVsbG8sIHdvcmxk");
    assert_eq!(encode3("é"), "w6k=");
    assert_eq!(decode4("w6k=").unwrap(), "é");
}

#[test]
fn round_trip_standard() {
    for t in SAMPLES {
        assert_eq!(decode3(&encode3(t)).unwrap(), t);
    }
}

#[test]
fn round_trip_alternate() {
    for t in SAMPLES {
        assert_eq!(decode4(&encode4(t)).unwrap(), t);
    }
}

#[test]
fn encoded_length_is_multiple_of_four() {
    for t in SAMPLES {
        assert_eq!(encode3(t).len() % 4, 0);
        assert_eq!(encode4(t).len() % 4, 0);
    }
}

#[test]
fn variants_agree() {
    for t in SAMPLES {
        assert_eq!(encode3(t), encode4(t));
    }
}

#[test]
fn symbol_outside_alphabet_is_malformed() {
    assert!(is_malformed(&decode3("QQ#=")));
    assert!(is_malformed(&decode4("QQ#=")));
    assert!(is_malformed(&decode3("TW-u")));
    assert!(is_malformed(&decode4("TW-u")));
}

#[test]
fn bad_length_is_malformed() {
    assert!(is_malformed(&decode3("QQ=")));
    assert!(is_malformed(&decode4("QQ=")));
    assert!(is_malformed(&decode3("TWF")));
    assert!(is_malformed(&decode4("TWF")));
    assert!(is_malformed(&decode3("Q")));
    assert!(is_malformed(&decode4("Q")));
}

#[test]
fn misplaced_padding_is_malformed() {
    assert!(is_malformed(&decode3("QQ=C")));
    assert!(is_malformed(&decode4("QQ=C")));
    assert!(is_malformed(&decode3("=QQQ")));
    assert!(is_malformed(&decode4("=QQQ")));
    assert!(is_malformed(&decode3("QQ==TWFu")));
    assert!(is_malformed(&decode4("QQ==TWFu")));
    assert!(is_malformed(&decode3("Q===")));
    assert!(is_malformed(&decode4("Q===")));
}

#[test]
fn nonzero_trailing_bits_are_malformed() {
    assert!(is_malformed(&decode3("QR==")));
    assert!(is_malformed(&decode4("QR==")));
    assert!(is_malformed(&decode3("TWF=")));
    assert!(is_malformed(&decode4("TWF=")));
}

#[test]
fn invalid_utf8_is_reported() {
    let r3 = decode3("//4=");
    let r4 = decode4("//4=");
    assert!(is_invalid_utf8(&r3));
    assert!(is_invalid_utf8(&r4));
    assert!(!r3.unwrap_err().description().is_empty());
}

#[test]
fn errors_carry_descriptions() {
    assert!(!decode3("QQ#=").unwrap_err().description().is_empty());
    assert!(!decode4("QQ#=").unwrap_err().description().is_empty());
    assert!(!decode4("QQ=C").unwrap_err().description().is_empty());
}

#[test]
fn validation_of_bytes() {
    assert!(is_invalid_utf8(&validate_utf8(vec![0xFF, 0xFE])));
    assert!(is_invalid_utf8(&validate_utf8(vec![0xC0, 0xAF])));
    assert!(is_invalid_utf8(&validate_utf8(vec![0xED, 0xA0, 0x80])));
    assert!(is_invalid_utf8(&validate_utf8(vec![0xE2, 0x82])));
    assert_eq!(validate_utf8(vec![0x4D, 0x61, 0x6E]).unwrap(), "Man");
    assert_eq!(validate_utf8(Vec::new()).unwrap(), "");
}

#[test]
fn revalidation_succeeds() {
    let first = validate_utf8("héllo ✓".as_bytes().to_vec()).unwrap();
    let second = validate_utf8(first.as_bytes().to_vec()).unwrap();
    assert_eq!(first, second);
}
