use coursework::decimal::{parse_u16, parse_u32, to_decimal};

#[test]
fn reads_unsigned_numbers_like_str_parse() {
    for s in ["42", "+42", "", "+", "-1", "-0", "007", "4294967295", "4294967296", "1 2", " 1", "12a"] {
        assert_eq!(parse_u32(s), s.parse::<u32>().ok(), "{s}");
    }
    for s in ["65535", "65536", "+0", "0"] {
        assert_eq!(parse_u16(s), s.parse::<u16>().ok(), "{s}");
    }
}

#[test]
fn writes_numbers_like_to_string() {
    for n in [0u64, 7, 10, 12345, u64::MAX] {
        assert_eq!(to_decimal(n), n.to_string());
    }
}

#[test]
fn reading_back_a_written_number() {
    assert_eq!(parse_u32(&to_decimal(3_000_000_000)), Some(3_000_000_000));
}
