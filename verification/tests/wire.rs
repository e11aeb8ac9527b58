use moko_mkl62ba_at_commands::encoder::{
    encode_plain, encode_query, encode_set, substitute,
};
use moko_mkl62ba_at_commands::payload::{body_of, split_fields};
use moko_mkl62ba_at_commands::wire::{
    append, byte_is_alphanumeric, byte_is_whitespace, find_byte, find_first,
    find_non_alphanumeric, match_tag, same_bytes, skip_whitespace, to_vec, trim, TagMatch,
};

#[test]
fn tags() {
    assert_eq!(match_tag(b"+AT: x", 0, b"+AT: "), TagMatch::Matched);
    assert_eq!(match_tag(b"+AT", 0, b"+AT: "), TagMatch::Incomplete);
    assert_eq!(match_tag(b"", 0, b"+AT: "), TagMatch::Incomplete);
    assert_eq!(match_tag(b"+AX", 0, b"+AT: "), TagMatch::Mismatch);
    assert_eq!(match_tag(b"+ATE: ", 0, b"+AT: "), TagMatch::Mismatch);
    assert_eq!(match_tag(b"ab\r\n", 2, b"\r\n"), TagMatch::Matched);
    assert_eq!(match_tag(b"ab\r", 2, b"\r\n"), TagMatch::Incomplete);
    assert_eq!(match_tag(b"ab", 2, b"\r\n"), TagMatch::Incomplete);
    assert_eq!(match_tag(b"abc", 1, b""), TagMatch::Matched);
}

#[test]
fn searches() {
    assert_eq!(find_first(b"ab\r\ncd\r\n", b"\r\n", 0), Some(2));
    assert_eq!(find_first(b"ab\r\ncd\r\n", b"\r\n", 2), Some(2));
    assert_eq!(find_first(b"ab\r\ncd\r\n", b"\r\n", 3), Some(6));
    assert_eq!(find_first(b"ab\r\ncd\r\n", b"\r\n", 7), None);
    assert_eq!(find_first(b"ab\r", b"\r\n", 0), None);
    assert_eq!(find_first(b"ab", b"abc", 0), None);
    assert_eq!(find_first(b"ab", b"", 2), Some(2));
    assert_eq!(find_first(b"ab", b"", 3), None);
    assert_eq!(find_byte(b"a,b,c", b',', 0), Some(1));
    assert_eq!(find_byte(b"a,b,c", b',', 2), Some(3));
    assert_eq!(find_byte(b"a,b,c", b',', 4), None);
    assert_eq!(find_byte(b"a,b,c", b',', 9), None);
    assert_eq!(find_non_alphanumeric(b"abc1 x", 0), Some(4));
    assert_eq!(find_non_alphanumeric(b"abc1", 0), None);
    assert_eq!(find_non_alphanumeric(b"+abc", 0), Some(0));
}

#[test]
fn character_classes() {
    for b in 0..=255u8 {
        assert_eq!(byte_is_alphanumeric(b), b.is_ascii_alphanumeric());
        assert_eq!(byte_is_whitespace(b), b.is_ascii_whitespace());
    }
}

#[test]
fn trimming() {
    assert_eq!(trim(b"  a b \r\n"), b"a b");
    assert_eq!(trim(b"\t\x0c\r\n "), b"");
    assert_eq!(trim(b""), b"");
    assert_eq!(trim(b"abc"), b"abc");
    assert_eq!(skip_whitespace(b"  a b \r\n"), b"a b \r\n");
    assert_eq!(skip_whitespace(b"   "), b"");
    for text in [&b" x "[..], b"\r\nOK\r\n", b"a\x0bb ", b"\x0c\x0cq"] {
        assert_eq!(trim(text), text.trim_ascii());
        assert_eq!(skip_whitespace(text), text.trim_ascii_start());
    }
}

#[test]
fn byte_strings() {
    assert!(same_bytes(b"OK", b"OK"));
    assert!(same_bytes(b"", b""));
    assert!(!same_bytes(b"OK", b"OKK"));
    assert!(!same_bytes(b"OK", b"ON"));
    assert!(!same_bytes(b"OK", b"O"));
    let mut out = b"ab".to_vec();
    append(&mut out, b"cd");
    assert_eq!(out, b"abcd");
    assert_eq!(to_vec(b"xyz"), b"xyz");
}

#[test]
fn command_lines() {
    assert_eq!(encode_plain("+RESET"), b"AT+RESET\r\n");
    assert_eq!(encode_plain(""), b"AT\r\n");
    assert_eq!(encode_query("+CLASS"), b"AT+CLASS=?\r\n");
    assert_eq!(encode_set("+CLASS", b"A"), b"AT+CLASS=A\r\n");
    assert_eq!(encode_set("+CLASS", b""), b"AT+CLASS=\r\n");
}

#[test]
fn substitution() {
    let mut text = b"3,12,AB,".to_vec();
    substitute(&mut text, b',', b':');
    assert_eq!(text, b"3:12:AB:");
    substitute(&mut text, b':', b',');
    assert_eq!(text, b"3,12,AB,");
    let mut text = b"".to_vec();
    substitute(&mut text, b',', b':');
    assert_eq!(text, b"");
    let mut text = b"abc".to_vec();
    substitute(&mut text, b'x', b'y');
    assert_eq!(text, b"abc");
}

#[test]
fn payload_bodies() {
    assert_eq!(body_of(b"+JOIN_STD: JOINED"), b"JOINED");
    assert_eq!(body_of(b"  +DR:5\r\n"), b"5");
    assert_eq!(body_of(b"OTAA"), b"OTAA");
    assert_eq!(body_of(b"+NOLABEL"), b"+NOLABEL");
    assert_eq!(body_of(b"-104:1:ACK"), b"-104:1:ACK");
    assert_eq!(body_of(b"+X:"), b"");
    assert_eq!(body_of(b""), b"");
}

#[test]
fn fields() {
    let parts = |text: &[u8]| -> Vec<Vec<u8>> {
        split_fields(text, b',').into_iter().map(|p| p.to_vec()).collect()
    };
    assert_eq!(parts(b"a,b,c"), vec![b"a".to_vec(), b"b".to_vec(), b"c".to_vec()]);
    assert_eq!(parts(b"abc"), vec![b"abc".to_vec()]);
    assert_eq!(parts(b""), vec![b"".to_vec()]);
    assert_eq!(parts(b","), vec![b"".to_vec(), b"".to_vec()]);
    assert_eq!(parts(b"a,,b,"), vec![b"a".to_vec(), b"".to_vec(), b"b".to_vec(), b"".to_vec()]);
}
