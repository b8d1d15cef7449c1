use arxos::number::{dec, explain_unsigned, hex, parse_signed, parse_unsigned};

#[test]
fn unsigned_numbers_are_read_as_rust_reads_them() {
    for s in ["0", "7", "+7", "255", "256", "", "+", "-1", " 1", "1 ", "00012", "1a", "18446744073709551616"] {
        assert_eq!(parse_unsigned(s, 255), s.parse::<u8>().ok().map(u64::from), "{s:?}");
        assert_eq!(parse_unsigned(s, u64::MAX), s.parse::<u64>().ok(), "{s:?}");
        if let Err(e) = s.parse::<u8>() {
            assert_eq!(explain_unsigned(s, 255), e.to_string(), "{s:?}");
        }
    }
}

#[test]
fn signed_numbers_are_read_as_rust_reads_them() {
    for s in ["0", "-1", "+5", "-", "9223372036854775807", "9223372036854775808", "-9223372036854775808", "x"] {
        assert_eq!(parse_signed(s), s.parse::<i64>().ok(), "{s:?}");
    }
}

#[test]
fn numbers_are_written_and_read_back() {
    for n in [0u64, 9, 10, 42, 1234567890, u64::MAX] {
        assert_eq!(dec(n), n.to_string());
        assert_eq!(parse_unsigned(&dec(n), u64::MAX), Some(n));
    }
    assert_eq!(hex(&[0, 15, 16, 255]), "000f10ff");
    assert_eq!(hex(&[]), "");
}
