use bitstuff::syntax::{parse_u32, str_eq};

#[test]
fn strings_are_equal_when_their_characters_are() {
    assert!(str_eq("bits", "bits"));
    assert!(!str_eq("bits", "bit"));
    assert!(!str_eq("bit", "bat"));
    assert!(str_eq("", ""));
    assert!(str_eq("ünï", "ünï"));
}

#[test]
fn parses_decimal_numbers_as_str_parse_does() {
    for s in ["0", "7", "+7", "0042", "4294967295", "", "+", "-1", "4294967296", "12a", "99999999999", " 1", "++1"] {
        assert_eq!(parse_u32(s, 0), s.parse::<u32>().ok(), "{s}");
    }
}

#[test]
fn parses_from_a_position() {
    assert_eq!(parse_u32("u32", 1), Some(32));
    assert_eq!(parse_u32("u128", 1), Some(128));
    assert_eq!(parse_u32("u", 1), None);
    assert_eq!(parse_u32("unknown", 1), None);
    assert_eq!(parse_u32("u+8", 1), Some(8));
}
