use moko_mkl62ba_at_commands::codec::{
    decode_hex_u128, decode_hex_u64, encode_hex_u128, encode_hex_u64, parse_decimal,
    parse_fraction, parse_hex_groups, parse_hex_string, parse_signed, parse_token,
    write_decimal, write_hex_groups, write_hex_string, Decimal, FieldError, GROUP_DELIMITER,
};

#[test]
fn hex_of_identifier() {
    assert_eq!(encode_hex_u64(0x303235386B375F03, b':'), b"30:32:35:38:6B:37:5F:03");
    assert_eq!(encode_hex_u64(0, GROUP_DELIMITER), b"00:00:00:00:00:00:00:00");
    assert_eq!(encode_hex_u64(0xABCDEF, b'-'), b"00-00-00-00-00-AB-CD-EF");
    assert_eq!(
        encode_hex_u128(u128::MAX, b':'),
        b"FF:FF:FF:FF:FF:FF:FF:FF:FF:FF:FF:FF:FF:FF:FF:FF"
    );
    assert_eq!(
        encode_hex_u128(0x0102, b':'),
        b"00:00:00:00:00:00:00:00:00:00:00:00:00:00:01:02"
    );
}

#[test]
fn hex_groups_of_other_widths() {
    let mut out = b"x".to_vec();
    write_hex_groups(&mut out, 0x1234, 2, b':');
    assert_eq!(out, b"x12:34");
    let mut out = Vec::new();
    write_hex_groups(&mut out, 0x1234, 1, b':');
    assert_eq!(out, b"34");
    let mut out = Vec::new();
    write_hex_groups(&mut out, 0x1234, 0, b':');
    assert_eq!(out, b"");
    assert_eq!(parse_hex_groups(b"12:34", 2, b':'), Ok(0x1234));
    assert_eq!(parse_hex_groups(b"", 0, b':'), Ok(0));
    assert_eq!(parse_hex_groups(b"7F", 1, b':'), Ok(0x7F));
}

#[test]
fn hex_round_trip() {
    for value in [0u64, 1, 0x303235386B375F03, u64::MAX, 0x8000000000000000, 0xFF00FF00FF00FF00] {
        assert_eq!(decode_hex_u64(&encode_hex_u64(value, b':'), b':'), Ok(value));
    }
    for value in [0u128, 1, u128::MAX, 0x303235386B375F03_303235386B375F03] {
        assert_eq!(decode_hex_u128(&encode_hex_u128(value, b':'), b':'), Ok(value));
    }
}

#[test]
fn hex_decoding_is_strict() {
    assert_eq!(decode_hex_u64(b"30:32:35:38:6B:37:5F", b':'), Err(FieldError::Length));
    assert_eq!(decode_hex_u64(b"303235386B375F03", b':'), Err(FieldError::Length));
    assert_eq!(decode_hex_u64(b"0x:32:35:38:6B:37:5F:03", b':'), Err(FieldError::Digit));
    assert_eq!(decode_hex_u64(b"30:32:35:38:6b:37:5F:03", b':'), Err(FieldError::Digit));
    assert_eq!(decode_hex_u64(b"30:32:35:38:6B:37:5F:0 ", b':'), Err(FieldError::Digit));
    assert_eq!(decode_hex_u64(b"30:32:35:38:6B:37:5F-03", b':'), Err(FieldError::Delimiter));
    assert_eq!(decode_hex_u64(b"30:32:35:38:6B:37:5F:03", b'-'), Err(FieldError::Delimiter));
    assert_eq!(decode_hex_u64(b"3G-32:35:38:6B:37:5F:03", b':'), Err(FieldError::Digit));
    assert_eq!(decode_hex_u64(b"30-3G:35:38:6B:37:5F:03", b':'), Err(FieldError::Delimiter));
    assert_eq!(decode_hex_u128(b"30:32:35:38:6B:37:5F:03", b':'), Err(FieldError::Length));
}

#[test]
fn decimal_numbers() {
    let text = |n: u32| {
        let mut out = Vec::new();
        write_decimal(&mut out, n);
        out
    };
    assert_eq!(text(0), b"0");
    assert_eq!(text(7), b"7");
    assert_eq!(text(10), b"10");
    assert_eq!(text(255), b"255");
    assert_eq!(text(u32::MAX), b"4294967295");
    for n in [0u32, 9, 10, 99, 100, 65535, u32::MAX] {
        assert_eq!(parse_decimal(&text(n), u32::MAX), Ok(n));
    }
    assert_eq!(parse_decimal(b"0012", 255), Ok(12));
    assert_eq!(parse_decimal(b"255", 255), Ok(255));
    assert_eq!(parse_decimal(b"256", 255), Err(FieldError::Range));
    assert_eq!(parse_decimal(b"4294967296", u32::MAX), Err(FieldError::Range));
    assert_eq!(parse_decimal(b"", 255), Err(FieldError::Length));
    assert_eq!(parse_decimal(b"12a", 255), Err(FieldError::Digit));
    assert_eq!(parse_decimal(b"99999a", 255), Err(FieldError::Digit));
    assert_eq!(parse_decimal(b"+1", 255), Err(FieldError::Digit));
    assert_eq!(parse_decimal(b" 1", 255), Err(FieldError::Digit));
}

#[test]
fn signed_numbers() {
    assert_eq!(parse_signed(b"-104"), Ok(-104));
    assert_eq!(parse_signed(b"104"), Ok(104));
    assert_eq!(parse_signed(b"0"), Ok(0));
    assert_eq!(parse_signed(b"-0"), Ok(0));
    assert_eq!(parse_signed(b"2147483647"), Ok(i32::MAX));
    assert_eq!(parse_signed(b"-2147483648"), Ok(i32::MIN));
    assert_eq!(parse_signed(b"2147483648"), Err(FieldError::Range));
    assert_eq!(parse_signed(b"-2147483649"), Err(FieldError::Range));
    assert_eq!(parse_signed(b"-"), Err(FieldError::Length));
    assert_eq!(parse_signed(b""), Err(FieldError::Length));
    assert_eq!(parse_signed(b"--1"), Err(FieldError::Digit));
    assert_eq!(parse_signed(b"1-"), Err(FieldError::Digit));
}

#[test]
fn decimal_fractions() {
    assert_eq!(parse_fraction(b"1"), Ok(Decimal { mantissa: 1, scale: 0 }));
    assert_eq!(parse_fraction(b"-4.0"), Ok(Decimal { mantissa: -40, scale: 1 }));
    assert_eq!(parse_fraction(b"7.25"), Ok(Decimal { mantissa: 725, scale: 2 }));
    assert_eq!(parse_fraction(b"-0.5"), Ok(Decimal { mantissa: -5, scale: 1 }));
    assert_eq!(parse_fraction(b"0.000000001"), Ok(Decimal { mantissa: 1, scale: 9 }));
    assert_eq!(parse_fraction(b"999999999"), Ok(Decimal { mantissa: 999999999, scale: 0 }));
    assert_eq!(parse_fraction(b"1000000000"), Err(FieldError::Range));
    assert_eq!(parse_fraction(b"0.0000000001"), Err(FieldError::Range));
    assert_eq!(parse_fraction(b""), Err(FieldError::Length));
    assert_eq!(parse_fraction(b"-"), Err(FieldError::Length));
    assert_eq!(parse_fraction(b".5"), Err(FieldError::Length));
    assert_eq!(parse_fraction(b"5."), Err(FieldError::Length));
    assert_eq!(parse_fraction(b"1.2.3"), Err(FieldError::Digit));
    assert_eq!(parse_fraction(b"1e5"), Err(FieldError::Digit));
    assert_eq!(parse_fraction(b"+1"), Err(FieldError::Digit));
}

#[test]
fn hex_strings() {
    let text = |data: &[u8]| {
        let mut out = Vec::new();
        write_hex_string(&mut out, data);
        out
    };
    assert_eq!(text(b""), b"");
    assert_eq!(text(b"12345678"), b"3132333435363738");
    assert_eq!(text(&[0x00, 0xAB, 0xFF]), b"00ABFF");
    assert_eq!(parse_hex_string(b"3132333435363738", 256), Ok(b"12345678".to_vec()));
    assert_eq!(parse_hex_string(b"", 256), Ok(vec![]));
    for data in [&b"\x00"[..], b"\xff\x00\x7f", b"hello"] {
        assert_eq!(parse_hex_string(&text(data), 256), Ok(data.to_vec()));
    }
    assert_eq!(parse_hex_string(b"313", 256), Err(FieldError::Length));
    assert_eq!(parse_hex_string(b"3g", 256), Err(FieldError::Digit));
    assert_eq!(parse_hex_string(b"ab", 256), Err(FieldError::Digit));
    assert_eq!(parse_hex_string(b"AABB", 1), Err(FieldError::Range));
    assert_eq!(parse_hex_string(b"AABB", 2), Ok(vec![0xAA, 0xBB]));
}

#[test]
fn tokens() {
    assert_eq!(parse_token(b"OTAA", 8), Ok(b"OTAA".to_vec()));
    assert_eq!(parse_token(b"12345678", 8), Ok(b"12345678".to_vec()));
    assert_eq!(parse_token(b"123456789", 8), Err(FieldError::Length));
    assert_eq!(parse_token(b"", 8), Err(FieldError::Length));
}
